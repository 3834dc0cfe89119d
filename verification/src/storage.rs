//! The statements by which a transaction is written to the SQLite
//! inventory, in the order they run inside one database transaction.
//!
//! An `UpsertIoc` statement yields the IOC row's id, which the client-info
//! and deletion statements after it use; an `UpsertRecord` statement yields
//! the record row's id, which the property and alias statements after it
//! use.

use vstd::prelude::*;
use vstd::string::*;

use crate::inventory::{address_text, RecordUpdate, Transaction};
use crate::types::WireId;

verus! {

/// One statement against the inventory database.
#[derive(Debug)]
pub enum DbStatement {
    /// Insert the IOC named `name`, or set the address of the existing one.
    UpsertIoc { name: String, address: String },
    /// Set an information entry of the current IOC.
    UpsertClientInfo { key: String, value: String },
    /// Delete the current IOC's record named `name`.
    DeleteRecord { name: String },
    /// Insert the current IOC's record named `name`, or set its type.
    UpsertRecord { name: String, rtype: String },
    /// Set a property of the current record.
    UpsertProperty { key: String, value: String },
    /// Add an alias to the current record, unless it is there already.
    InsertAlias { name: String },
}

/// A statement, with its texts.
pub enum DbStatementView {
    UpsertIoc { name: Seq<char>, address: Seq<char> },
    UpsertClientInfo { key: Seq<char>, value: Seq<char> },
    DeleteRecord { name: Seq<char> },
    UpsertRecord { name: Seq<char>, rtype: Seq<char> },
    UpsertProperty { key: Seq<char>, value: Seq<char> },
    InsertAlias { name: Seq<char> },
}

impl View for DbStatement {
    type V = DbStatementView;

    open spec fn view(&self) -> DbStatementView {
        match self {
            DbStatement::UpsertIoc { name, address } => DbStatementView::UpsertIoc {
                name: name@,
                address: address@,
            },
            DbStatement::UpsertClientInfo { key, value } => DbStatementView::UpsertClientInfo {
                key: key@,
                value: value@,
            },
            DbStatement::DeleteRecord { name } => DbStatementView::DeleteRecord { name: name@ },
            DbStatement::UpsertRecord { name, rtype } => DbStatementView::UpsertRecord {
                name: name@,
                rtype: rtype@,
            },
            DbStatement::UpsertProperty { key, value } => DbStatementView::UpsertProperty {
                key: key@,
                value: value@,
            },
            DbStatement::InsertAlias { name } => DbStatementView::InsertAlias { name: name@ },
        }
    }
}

/// The statements of one record update: nothing if the record has no name;
/// else the record (with an empty type when none is known), then each of its
/// properties, then each of its aliases.
pub open spec fn record_statements(u: RecordUpdate) -> Seq<DbStatementView> {
    match u.name {
        None => Seq::empty(),
        Some(n) => seq![
            DbStatementView::UpsertRecord {
                name: n@,
                rtype: match u.rtype {
                    Some(t) => t@,
                    None => Seq::empty(),
                },
            },
        ] + u.properties.entries_view().map_values(
            |e: (Seq<char>, Seq<char>)| DbStatementView::UpsertProperty { key: e.0, value: e.1 },
        ) + u.aliases@.map_values(|a: String| DbStatementView::InsertAlias { name: a@ }),
    }
}

/// The statements of a sequence of record updates, in order.
pub open spec fn updates_statements(entries: Seq<(WireId, RecordUpdate)>) -> Seq<DbStatementView>
    decreases entries.len(),
{
    if entries.len() == 0 {
        Seq::empty()
    } else {
        updates_statements(entries.drop_last()) + record_statements(entries.last().1)
    }
}

/// The statements a transaction becomes: the IOC, named and addressed by the
/// text of its socket address; its information entries; the deletions; then
/// the record updates. Nothing when the transaction does not say which
/// address it comes from.
pub open spec fn transaction_statements(tx: Transaction) -> Option<Seq<DbStatementView>> {
    match tx.source_address {
        None => None,
        Some(source) => Some(
            seq![
                DbStatementView::UpsertIoc {
                    name: address_text(source),
                    address: address_text(source),
                },
            ] + tx.client_infos.entries_view().map_values(
                |e: (Seq<char>, Seq<char>)| DbStatementView::UpsertClientInfo {
                    key: e.0,
                    value: e.1,
                },
            ) + tx.records_to_delete.items_view().map_values(
                |n: Seq<char>| DbStatementView::DeleteRecord { name: n },
            ) + updates_statements(tx.updates.entries_view()),
        ),
    }
}

/// The view of a sequence of statements.
pub open spec fn statements_view(v: Seq<DbStatement>) -> Seq<DbStatementView> {
    v.map_values(|s: DbStatement| s@)
}

fn push_statement(out: &mut Vec<DbStatement>, s: DbStatement)
    ensures
        statements_view(final(out)@) == statements_view(old(out)@).push(s@),
{
    out.push(s);
    assert(statements_view(out@) =~= statements_view(old(out)@).push(s@));
}

fn push_record_statements(out: &mut Vec<DbStatement>, u: &RecordUpdate)
    ensures
        statements_view(final(out)@) == statements_view(old(out)@) + record_statements(*u),
{
    let ghost start = statements_view(out@);
    match &u.name {
        None => {
            assert(statements_view(out@) =~= start + record_statements(*u));
        },
        Some(name) => {
            let rtype = match &u.rtype {
                Some(t) => t.clone(),
                None => String::new(),
            };
            push_statement(out, DbStatement::UpsertRecord { name: name.clone(), rtype });
            let ghost after_record = statements_view(out@);
            let ghost props = u.properties.entries_view().map_values(
                |e: (Seq<char>, Seq<char>)| DbStatementView::UpsertProperty { key: e.0, value: e.1 },
            );
            let mut j: usize = 0;
            while j < u.properties.len()
                invariant
                    j <= u.properties.entries_view().len(),
                    props == u.properties.entries_view().map_values(
                        |e: (Seq<char>, Seq<char>)| DbStatementView::UpsertProperty {
                            key: e.0,
                            value: e.1,
                        },
                    ),
                    statements_view(out@) == after_record + props.take(j as int),
                decreases u.properties.entries_view().len() - j,
            {
                let (k, v) = u.properties.entry(j);
                push_statement(out, DbStatement::UpsertProperty { key: k.clone(), value: v.clone() });
                assert(props.take(j + 1) =~= props.take(j as int).push(props[j as int]));
                j = j + 1;
            }
            assert(props.take(props.len() as int) =~= props);
            let ghost after_props = statements_view(out@);
            let ghost aliases = u.aliases@.map_values(|a: String| DbStatementView::InsertAlias { name: a@ });
            let mut i: usize = 0;
            while i < u.aliases.len()
                invariant
                    i <= u.aliases@.len(),
                    aliases == u.aliases@.map_values(|a: String| DbStatementView::InsertAlias { name: a@ }),
                    statements_view(out@) == after_props + aliases.take(i as int),
                decreases u.aliases@.len() - i,
            {
                push_statement(out, DbStatement::InsertAlias { name: u.aliases[i].clone() });
                assert(aliases.take(i + 1) =~= aliases.take(i as int).push(aliases[i as int]));
                i = i + 1;
            }
            assert(aliases.take(aliases.len() as int) =~= aliases);
            assert(statements_view(out@) =~= start + record_statements(*u));
        },
    }
}

/// The statements that write a transaction to the SQLite inventory, in the
/// order they run; nothing when the transaction does not say which address
/// it comes from.
pub fn sqlite_statements(tx: &Transaction) -> (r: Option<Vec<DbStatement>>)
    ensures
        match r {
            None => transaction_statements(*tx) is None,
            Some(v) => transaction_statements(*tx) == Some(statements_view(v@)),
        },
{
    let source = match &tx.source_address {
        None => return None,
        Some(s) => s,
    };
    let ioc_name = source.to_text();
    let mut out: Vec<DbStatement> = Vec::new();
    push_statement(&mut out, DbStatement::UpsertIoc { name: ioc_name.clone(), address: ioc_name });
    let ghost after_ioc = statements_view(out@);
    let ghost infos = tx.client_infos.entries_view().map_values(
        |e: (Seq<char>, Seq<char>)| DbStatementView::UpsertClientInfo { key: e.0, value: e.1 },
    );
    let mut i: usize = 0;
    while i < tx.client_infos.len()
        invariant
            i <= tx.client_infos.entries_view().len(),
            infos == tx.client_infos.entries_view().map_values(
                |e: (Seq<char>, Seq<char>)| DbStatementView::UpsertClientInfo { key: e.0, value: e.1 },
            ),
            statements_view(out@) == after_ioc + infos.take(i as int),
        decreases tx.client_infos.entries_view().len() - i,
    {
        let (k, v) = tx.client_infos.entry(i);
        push_statement(&mut out, DbStatement::UpsertClientInfo { key: k.clone(), value: v.clone() });
        assert(infos.take(i + 1) =~= infos.take(i as int).push(infos[i as int]));
        i = i + 1;
    }
    assert(infos.take(infos.len() as int) =~= infos);
    let ghost after_infos = statements_view(out@);
    let ghost dels = tx.records_to_delete.items_view().map_values(
        |n: Seq<char>| DbStatementView::DeleteRecord { name: n },
    );
    let mut j: usize = 0;
    while j < tx.records_to_delete.len()
        invariant
            j <= tx.records_to_delete.items_view().len(),
            dels == tx.records_to_delete.items_view().map_values(
                |n: Seq<char>| DbStatementView::DeleteRecord { name: n },
            ),
            statements_view(out@) == after_infos + dels.take(j as int),
        decreases tx.records_to_delete.items_view().len() - j,
    {
        push_statement(&mut out, DbStatement::DeleteRecord { name: tx.records_to_delete.item(j).clone() });
        assert(dels.take(j + 1) =~= dels.take(j as int).push(dels[j as int]));
        j = j + 1;
    }
    assert(dels.take(dels.len() as int) =~= dels);
    let ghost after_dels = statements_view(out@);
    let mut k: usize = 0;
    while k < tx.updates.len()
        invariant
            k <= tx.updates.entries_view().len(),
            statements_view(out@) == after_dels + updates_statements(tx.updates.entries_view().take(k as int)),
        decreases tx.updates.entries_view().len() - k,
    {
        let (_, u) = tx.updates.entry(k);
        push_record_statements(&mut out, u);
        proof {
            let es = tx.updates.entries_view();
            assert(es.take(k + 1).drop_last() =~= es.take(k as int));
        }
        k = k + 1;
    }
    assert(tx.updates.entries_view().take(tx.updates.entries_view().len() as int) =~= tx.updates.entries_view());
    Some(out)
}


/// The statements of a record update. A record without a name gives none.
/// A named record gives the record with its type (empty when unknown),
/// then one property statement for every entry of the update's
/// properties, in order, then one alias statement for every alias, in
/// order, and nothing else.
pub proof fn law_record_statements_write_everything(u: RecordUpdate)
    ensures
        u.name is None ==> record_statements(u).len() == 0,
        u.name matches Some(n) ==> ({
            let st = record_statements(u);
            let props = u.properties.entries_view();
            let aliases = u.aliases@;
            &&& st.len() == 1 + props.len() + aliases.len()
            &&& st[0] == DbStatementView::UpsertRecord {
                name: n@,
                rtype: match u.rtype {
                    Some(t) => t@,
                    None => Seq::<char>::empty(),
                },
            }
            &&& forall|i: int| 0 <= i < props.len() ==> st[1 + i] == DbStatementView::UpsertProperty {
                key: (#[trigger] props[i]).0,
                value: props[i].1,
            }
            &&& forall|i: int| 0 <= i < aliases.len() ==> st[1 + props.len() + i]
                == DbStatementView::InsertAlias { name: (#[trigger] aliases[i])@ }
        }),
{
}

/// The statements of the record updates come record by record, in order:
/// the statements of the first `k` updates begin the statements of all of
/// them, and the `k`-th update's statements follow those of the updates
/// before it.
pub proof fn law_updates_statements_in_order(entries: Seq<(WireId, RecordUpdate)>, k: int)
    requires
        0 <= k < entries.len(),
    ensures
        updates_statements(entries.take(k + 1)) == updates_statements(entries.take(k)) + record_statements(
            entries[k].1,
        ),
        updates_statements(entries.take(k)).len() <= updates_statements(entries).len(),
        updates_statements(entries).take(updates_statements(entries.take(k)).len() as int)
            == updates_statements(entries.take(k)),
        updates_statements(entries).take(updates_statements(entries.take(k + 1)).len() as int)
            == updates_statements(entries.take(k + 1)),
{
    assert(entries.take(k + 1).drop_last() =~= entries.take(k));
    lemma_updates_statements_prefix(entries, k);
    lemma_updates_statements_prefix(entries, k + 1);
}

proof fn lemma_updates_statements_prefix(entries: Seq<(WireId, RecordUpdate)>, k: int)
    requires
        0 <= k <= entries.len(),
    ensures
        updates_statements(entries.take(k)).len() <= updates_statements(entries).len(),
        updates_statements(entries).take(updates_statements(entries.take(k)).len() as int)
            == updates_statements(entries.take(k)),
    decreases entries.len(),
{
    if k == entries.len() {
        assert(entries.take(k) =~= entries);
        assert(updates_statements(entries).take(updates_statements(entries).len() as int)
            =~= updates_statements(entries));
    } else {
        let rest = entries.drop_last();
        lemma_updates_statements_prefix(rest, k);
        assert(rest.take(k) =~= entries.take(k));
        let p = updates_statements(entries.take(k));
        assert((updates_statements(rest) + record_statements(entries.last().1)).take(p.len() as int)
            =~= updates_statements(rest).take(p.len() as int));
    }
}

/// The statements a transaction becomes: none without an address. Else
/// first the IOC, named and addressed by the text of its socket address;
/// then, for every entry of the client's information, in order, a
/// statement that sets it; then, for every name among the records to
/// delete, in order, a statement that deletes it; then the statements of
/// the record updates, and nothing else.
pub proof fn law_transaction_statements_write_every_entry(tx: Transaction)
    ensures
        tx.source_address is None ==> transaction_statements(tx) is None,
        tx.source_address matches Some(source) ==> ({
            let infos = tx.client_infos.entries_view();
            let dels = tx.records_to_delete.items_view();
            let ups = updates_statements(tx.updates.entries_view());
            transaction_statements(tx) matches Some(st) && {
                &&& st.len() == 1 + infos.len() + dels.len() + ups.len()
                &&& st[0] == DbStatementView::UpsertIoc {
                    name: address_text(source),
                    address: address_text(source),
                }
                &&& forall|i: int| 0 <= i < infos.len() ==> st[1 + i] == DbStatementView::UpsertClientInfo {
                    key: (#[trigger] infos[i]).0,
                    value: infos[i].1,
                }
                &&& forall|j: int| 0 <= j < dels.len() ==> st[1 + infos.len() + j]
                    == DbStatementView::DeleteRecord { name: #[trigger] dels[j] }
                &&& st.skip((1 + infos.len() + dels.len()) as int) == ups
            }
        }),
{
    match tx.source_address {
        None => {},
        Some(source) => {
            let st = transaction_statements(tx).unwrap();
            let infos = tx.client_infos.entries_view();
            let dels = tx.records_to_delete.items_view();
            let ups = updates_statements(tx.updates.entries_view());
            assert(st.skip((1 + infos.len() + dels.len()) as int) =~= ups);
        },
    }
}

} // verus!
