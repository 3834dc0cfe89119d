//! The channels that a transaction becomes in ChannelFinder: each named
//! record, and each of its aliases, is a channel carrying the IOC's
//! properties; each deleted record is marked inactive.

use vstd::prelude::*;
use vstd::string::*;

use crate::inventory::{
    address_text, text_lookup, RecordUpdate, SourceAddress, TextMap, Transaction,
};
use crate::text::{append_decimal, decimal_text, digits_value, law_decimal_text_reads_back};
use crate::types::WireId;

verus! {

/// A property of a ChannelFinder channel.
#[derive(Debug)]
pub struct CFProperty {
    pub name: String,
    pub owner: String,
    pub value: String,
}

/// A ChannelFinder channel.
#[derive(Debug)]
pub struct CFChannel {
    pub name: String,
    pub owner: String,
    pub properties: Vec<CFProperty>,
}

impl Clone for CFProperty {
    fn clone(&self) -> (r: CFProperty)
        ensures
            r == *self,
    {
        CFProperty { name: self.name.clone(), owner: self.owner.clone(), value: self.value.clone() }
    }
}

impl Clone for CFChannel {
    fn clone(&self) -> (r: CFChannel)
        ensures
            r.name == self.name,
            r.owner == self.owner,
            r.properties@ == self.properties@,
    {
        let mut properties: Vec<CFProperty> = Vec::new();
        let mut i: usize = 0;
        while i < self.properties.len()
            invariant
                i <= self.properties@.len(),
                properties@ == self.properties@.take(i as int),
            decreases self.properties@.len() - i,
        {
            properties.push(self.properties[i].clone());
            i = i + 1;
            assert(properties@ =~= self.properties@.take(i as int));
        }
        assert(self.properties@.take(self.properties@.len() as int) =~= self.properties@);
        CFChannel { name: self.name.clone(), owner: self.owner.clone(), properties }
    }
}

/// A property as texts: name, owner and value.
pub type PropertyView = (Seq<char>, Seq<char>, Seq<char>);

/// A channel as texts: name, owner and properties.
pub type ChannelView = (Seq<char>, Seq<char>, Seq<PropertyView>);

impl View for CFProperty {
    type V = PropertyView;

    open spec fn view(&self) -> PropertyView {
        (self.name@, self.owner@, self.value@)
    }
}

impl View for CFChannel {
    type V = ChannelView;

    open spec fn view(&self) -> ChannelView {
        (self.name@, self.owner@, self.properties@.map_values(|p: CFProperty| p@))
    }
}

/// What ChannelFinder is told of the IOC a transaction comes from: its host
/// name, IOC name, IOC id and IP address, the owner of all properties, and
/// the time of the update.
pub struct IocFacts {
    pub hostname: Seq<char>,
    pub ioc_name: Seq<char>,
    pub iocid: Seq<char>,
    pub ioc_ip: Seq<char>,
    pub owner: Seq<char>,
    pub time: Seq<char>,
}

/// The facts of the IOC at `source`: host name and IOC name come from the
/// client's `HOSTNAME` and `IOCNAME` information, falling back to the IP
/// address and the port; the IOC id is `ip:port`.
pub open spec fn ioc_facts(source: SourceAddress, infos: TextMap, owner: Seq<char>, time: Seq<char>) -> IocFacts {
    IocFacts {
        hostname: match text_lookup(infos.entries_view(), "HOSTNAME"@) {
            Some(h) => h,
            None => source.ip@,
        },
        ioc_name: match text_lookup(infos.entries_view(), "IOCNAME"@) {
            Some(n) => n,
            None => decimal_text(source.port as nat),
        },
        iocid: source.ip@ + ":"@ + decimal_text(source.port as nat),
        ioc_ip: source.ip@,
        owner,
        time,
    }
}

/// The properties every channel of a record carries: host name, IOC name,
/// IOC id, IOC IP, active status and time, then the record type if known.
pub open spec fn record_properties(f: IocFacts, rtype: Option<String>) -> Seq<PropertyView> {
    let base = seq![
        ("hostName"@, f.owner, f.hostname),
        ("iocName"@, f.owner, f.ioc_name),
        ("iocid"@, f.owner, f.iocid),
        ("iocIP"@, f.owner, f.ioc_ip),
        ("pvStatus"@, f.owner, "Active"@),
        ("time"@, f.owner, f.time),
    ];
    match rtype {
        Some(t) => base.push(("recordType"@, f.owner, t@)),
        None => base,
    }
}

/// The channels of one record update: none if the record has no name; else
/// one channel per alias, carrying the record's properties and an `alias`
/// property naming the record, then the record's own channel carrying its
/// properties and those of the update.
pub open spec fn record_channels(f: IocFacts, u: RecordUpdate) -> Seq<ChannelView> {
    match u.name {
        None => Seq::empty(),
        Some(n) => {
            let props = record_properties(f, u.rtype);
            u.aliases@.map_values(
                |a: String| (a@, f.owner, props.push(("alias"@, f.owner, n@))),
            ).push(
                (
                    n@,
                    f.owner,
                    props + u.properties.entries_view().map_values(
                        |e: (Seq<char>, Seq<char>)| (e.0, f.owner, e.1),
                    ),
                ),
            )
        },
    }
}

/// The channels of a sequence of record updates, in order.
pub open spec fn updates_channels(f: IocFacts, entries: Seq<(WireId, RecordUpdate)>) -> Seq<ChannelView>
    decreases entries.len(),
{
    if entries.len() == 0 {
        Seq::empty()
    } else {
        updates_channels(f, entries.drop_last()) + record_channels(f, entries.last().1)
    }
}

/// The channels that mark deleted records inactive.
pub open spec fn deletion_channels(f: IocFacts, names: Seq<Seq<char>>) -> Seq<ChannelView> {
    names.map_values(
        |n: Seq<char>| (n, f.owner, seq![("pvStatus"@, f.owner, "Inactive"@), ("time"@, f.owner, f.time)]),
    )
}

/// The channels a transaction becomes, or nothing when it does not say
/// which address it comes from.
pub open spec fn transaction_channels(tx: Transaction, owner: Seq<char>, time: Seq<char>) -> Option<Seq<ChannelView>> {
    match tx.source_address {
        None => None,
        Some(source) => {
            let f = ioc_facts(source, tx.client_infos, owner, time);
            Some(updates_channels(f, tx.updates.entries_view()) + deletion_channels(f, tx.records_to_delete.items_view()))
        },
    }
}

/// The view of a sequence of channels.
pub open spec fn channels_view(v: Seq<CFChannel>) -> Seq<ChannelView> {
    v.map_values(|c: CFChannel| c@)
}

struct ExecFacts {
    hostname: String,
    ioc_name: String,
    iocid: String,
    ioc_ip: String,
}

fn property(name: &str, owner: &str, value: &str) -> (p: CFProperty)
    ensures
        p@ == (name@, owner@, value@),
{
    CFProperty { name: String::from_str(name), owner: String::from_str(owner), value: String::from_str(value) }
}

fn base_properties(facts: &ExecFacts, owner: &str, time: &str, rtype: &Option<String>, f: Ghost<IocFacts>) -> (props: Vec<CFProperty>)
    requires
        f@.hostname == facts.hostname@,
        f@.ioc_name == facts.ioc_name@,
        f@.iocid == facts.iocid@,
        f@.ioc_ip == facts.ioc_ip@,
        f@.owner == owner@,
        f@.time == time@,
    ensures
        props@.map_values(|p: CFProperty| p@) == record_properties(f@, *rtype),
{
    let mut props: Vec<CFProperty> = Vec::new();
    props.push(property("hostName", owner, facts.hostname.as_str()));
    props.push(property("iocName", owner, facts.ioc_name.as_str()));
    props.push(property("iocid", owner, facts.iocid.as_str()));
    props.push(property("iocIP", owner, facts.ioc_ip.as_str()));
    props.push(property("pvStatus", owner, "Active"));
    props.push(property("time", owner, time));
    match rtype {
        Some(t) => {
            props.push(property("recordType", owner, t.as_str()));
        },
        None => {},
    }
    assert(props@.map_values(|p: CFProperty| p@) =~= record_properties(f@, *rtype));
    props
}

fn push_record_channels(
    out: &mut Vec<CFChannel>,
    facts: &ExecFacts,
    owner: &str,
    time: &str,
    u: &RecordUpdate,
    f: Ghost<IocFacts>,
)
    requires
        f@.hostname == facts.hostname@,
        f@.ioc_name == facts.ioc_name@,
        f@.iocid == facts.iocid@,
        f@.ioc_ip == facts.ioc_ip@,
        f@.owner == owner@,
        f@.time == time@,
    ensures
        channels_view(final(out)@) == channels_view(old(out)@) + record_channels(f@, *u),
{
    let ghost start = channels_view(out@);
    match &u.name {
        None => {
            assert(channels_view(out@) =~= start + record_channels(f@, *u));
        },
        Some(name) => {
            let ghost props_v = record_properties(f@, u.rtype);
            let ghost alias_chans = u.aliases@.map_values(
                |a: String| (a@, f@.owner, props_v.push(("alias"@, f@.owner, name@))),
            );
            let mut i: usize = 0;
            while i < u.aliases.len()
                invariant
                    i <= u.aliases@.len(),
                    u.name == Some(*name),
                    f@.hostname == facts.hostname@,
                    f@.ioc_name == facts.ioc_name@,
                    f@.iocid == facts.iocid@,
                    f@.ioc_ip == facts.ioc_ip@,
                    f@.owner == owner@,
                    f@.time == time@,
                    props_v == record_properties(f@, u.rtype),
                    alias_chans == u.aliases@.map_values(
                        |a: String| (a@, f@.owner, props_v.push(("alias"@, f@.owner, name@))),
                    ),
                    channels_view(out@) == start + alias_chans.take(i as int),
                decreases u.aliases@.len() - i,
            {
                let mut alias_props = base_properties(facts, owner, time, &u.rtype, f);
                alias_props.push(property("alias", owner, name.as_str()));
                let alias = &u.aliases[i];
                let ghost before = out@;
                out.push(CFChannel { name: alias.clone(), owner: String::from_str(owner), properties: alias_props });
                proof {
                    assert(alias_props@.map_values(|p: CFProperty| p@) =~= props_v.push(("alias"@, f@.owner, name@)));
                    assert(alias_chans.take(i + 1) =~= alias_chans.take(i as int).push(alias_chans[i as int]));
                    assert(channels_view(out@) =~= channels_view(before).push(out@.last()@));
                }
                i = i + 1;
            }
            assert(alias_chans.take(u.aliases@.len() as int) =~= alias_chans);
            let mut props = base_properties(facts, owner, time, &u.rtype, f);
            let ghost extra = u.properties.entries_view().map_values(
                |e: (Seq<char>, Seq<char>)| (e.0, f@.owner, e.1),
            );
            let mut j: usize = 0;
            while j < u.properties.len()
                invariant
                    j <= u.properties.entries_view().len(),
                    f@.owner == owner@,
                    extra == u.properties.entries_view().map_values(
                        |e: (Seq<char>, Seq<char>)| (e.0, f@.owner, e.1),
                    ),
                    props@.map_values(|p: CFProperty| p@) == props_v + extra.take(j as int),
                decreases u.properties.entries_view().len() - j,
            {
                let (k, v) = u.properties.entry(j);
                let ghost before = props@;
                props.push(property(k.as_str(), owner, v.as_str()));
                proof {
                    assert(extra.take(j + 1) =~= extra.take(j as int).push(extra[j as int]));
                    assert(props@.map_values(|p: CFProperty| p@) =~= before.map_values(|p: CFProperty| p@).push(props@.last()@));
                }
                j = j + 1;
            }
            assert(extra.take(u.properties.entries_view().len() as int) =~= extra);
            let ghost before = out@;
            out.push(CFChannel { name: name.clone(), owner: String::from_str(owner), properties: props });
            proof {
                assert(channels_view(out@) =~= channels_view(before).push(out@.last()@));
                assert(channels_view(out@) =~= start + record_channels(f@, *u));
            }
        },
    }
}

/// The channels to send to ChannelFinder for a transaction, with `owner` as
/// the owner of every channel and property and `time` as the time of the
/// update; nothing when the transaction does not say which address it comes
/// from.
pub fn cf_channels(tx: &Transaction, owner: &str, time: &str) -> (r: Option<Vec<CFChannel>>)
    ensures
        match r {
            None => transaction_channels(*tx, owner@, time@) is None,
            Some(v) => transaction_channels(*tx, owner@, time@) == Some(channels_view(v@)),
        },
{
    let source = match &tx.source_address {
        None => return None,
        Some(s) => s,
    };
    let ghost f = ioc_facts(*source, tx.client_infos, owner@, time@);
    let hostname = match tx.client_infos.get("HOSTNAME") {
        Some(h) => h.clone(),
        None => source.ip.clone(),
    };
    let ioc_name = match tx.client_infos.get("IOCNAME") {
        Some(n) => n.clone(),
        None => {
            let mut t = String::new();
            append_decimal(&mut t, source.port as u64);
            t
        },
    };
    let mut iocid = source.ip.clone();
    iocid.append(":");
    append_decimal(&mut iocid, source.port as u64);
    let facts = ExecFacts { hostname, ioc_name, iocid, ioc_ip: source.ip.clone() };
    assert(facts.iocid@ =~= f.iocid);
    let mut out: Vec<CFChannel> = Vec::new();
    let mut i: usize = 0;
    while i < tx.updates.len()
        invariant
            i <= tx.updates.entries_view().len(),
            f.hostname == facts.hostname@,
            f.ioc_name == facts.ioc_name@,
            f.iocid == facts.iocid@,
            f.ioc_ip == facts.ioc_ip@,
            f.owner == owner@,
            f.time == time@,
            channels_view(out@) == updates_channels(f, tx.updates.entries_view().take(i as int)),
        decreases tx.updates.entries_view().len() - i,
    {
        let (_, u) = tx.updates.entry(i);
        push_record_channels(&mut out, &facts, owner, time, u, Ghost(f));
        proof {
            let es = tx.updates.entries_view();
            assert(es.take(i + 1).drop_last() =~= es.take(i as int));
        }
        i = i + 1;
    }
    assert(tx.updates.entries_view().take(tx.updates.entries_view().len() as int) =~= tx.updates.entries_view());
    let ghost after_updates = channels_view(out@);
    let ghost dels = deletion_channels(f, tx.records_to_delete.items_view());
    let mut j: usize = 0;
    while j < tx.records_to_delete.len()
        invariant
            j <= tx.records_to_delete.items_view().len(),
            f.owner == owner@,
            f.time == time@,
            dels == deletion_channels(f, tx.records_to_delete.items_view()),
            channels_view(out@) == after_updates + dels.take(j as int),
        decreases tx.records_to_delete.items_view().len() - j,
    {
        let name = tx.records_to_delete.item(j);
        let mut props: Vec<CFProperty> = Vec::new();
        props.push(property("pvStatus", owner, "Inactive"));
        props.push(property("time", owner, time));
        let ghost before = out@;
        out.push(CFChannel { name: name.clone(), owner: String::from_str(owner), properties: props });
        proof {
            assert(out@.last()@ =~= dels[j as int]);
            assert(dels.take(j + 1) =~= dels.take(j as int).push(dels[j as int]));
            assert(channels_view(out@) =~= channels_view(before).push(out@.last()@));
        }
        j = j + 1;
    }
    assert(dels.take(dels.len() as int) =~= dels);
    Some(out)
}


/// The channels of a record update. A record without a name gives none.
/// A named record gives one channel per alias, in order, then its own
/// channel. Every one of them carries the IOC's host name, IOC name, IOC id,
/// IOC IP, an active status and the time, then the record type when it is
/// known. An alias channel adds an `alias` property naming the record. The
/// record's own channel adds, after those, one property for every entry of
/// the update's properties, in order, each owned by the owner.
pub proof fn law_record_channels_carry_every_property(f: IocFacts, u: RecordUpdate)
    ensures
        u.name is None ==> record_channels(f, u).len() == 0,
        u.name matches Some(n) ==> ({
            let chans = record_channels(f, u);
            let props = u.properties.entries_view();
            let base: int = if u.rtype is Some { 7 } else { 6 };
            let own = chans[u.aliases@.len() as int];
            &&& chans.len() == u.aliases@.len() + 1
            &&& forall|c: int| 0 <= c < chans.len() ==> ({
                let ch = #[trigger] chans[c];
                &&& ch.1 == f.owner
                &&& ch.2[0] == ("hostName"@, f.owner, f.hostname)
                &&& ch.2[1] == ("iocName"@, f.owner, f.ioc_name)
                &&& ch.2[2] == ("iocid"@, f.owner, f.iocid)
                &&& ch.2[3] == ("iocIP"@, f.owner, f.ioc_ip)
                &&& ch.2[4] == ("pvStatus"@, f.owner, "Active"@)
                &&& ch.2[5] == ("time"@, f.owner, f.time)
                &&& u.rtype matches Some(t) ==> ch.2[6] == ("recordType"@, f.owner, t@)
            })
            &&& forall|i: int| 0 <= i < u.aliases@.len() ==> {
                &&& (#[trigger] chans[i]).0 == u.aliases@[i]@
                &&& chans[i].2.len() == base + 1
                &&& chans[i].2[base] == ("alias"@, f.owner, n@)
            }
            &&& own.0 == n@
            &&& own.2.len() == base + props.len()
            &&& forall|i: int| 0 <= i < props.len() ==> own.2[base + i] == (
                (#[trigger] props[i]).0,
                f.owner,
                props[i].1,
            )
        }),
{
    match u.name {
        None => {},
        Some(n) => {
            let chans = record_channels(f, u);
            let base_props = record_properties(f, u.rtype);
            assert(chans[u.aliases@.len() as int].2 == base_props + u.properties.entries_view().map_values(
                |e: (Seq<char>, Seq<char>)| (e.0, f.owner, e.1),
            ));
            assert forall|c: int| 0 <= c < chans.len() implies chans[c].2.take(base_props.len() as int)
                == base_props by {
                if c < u.aliases@.len() {
                    assert(chans[c].2 == base_props.push(("alias"@, f.owner, n@)));
                    assert(chans[c].2.take(base_props.len() as int) =~= base_props);
                } else {
                    assert(chans[c].2.take(base_props.len() as int) =~= base_props);
                }
            }
            assert forall|c: int| 0 <= c < chans.len() implies ({
                let ch = #[trigger] chans[c];
                &&& ch.1 == f.owner
                &&& ch.2[0] == ("hostName"@, f.owner, f.hostname)
                &&& ch.2[1] == ("iocName"@, f.owner, f.ioc_name)
                &&& ch.2[2] == ("iocid"@, f.owner, f.iocid)
                &&& ch.2[3] == ("iocIP"@, f.owner, f.ioc_ip)
                &&& ch.2[4] == ("pvStatus"@, f.owner, "Active"@)
                &&& ch.2[5] == ("time"@, f.owner, f.time)
                &&& u.rtype matches Some(t) ==> ch.2[6] == ("recordType"@, f.owner, t@)
            }) by {
                let t = chans[c].2.take(base_props.len() as int);
                assert(t == base_props);
                assert(forall|k: int| 0 <= k < base_props.len() ==> chans[c].2[k] == #[trigger] t[k]);
            }
        },
    }
}

/// The channels of the record updates come record by record, in order: the
/// channels of the first `k` updates begin the channels of all of them, and
/// the `k`-th update's channels follow those of the updates before it.
pub proof fn law_updates_channels_in_order(f: IocFacts, entries: Seq<(WireId, RecordUpdate)>, k: int)
    requires
        0 <= k < entries.len(),
    ensures
        updates_channels(f, entries.take(k + 1)) == updates_channels(f, entries.take(k)) + record_channels(
            f,
            entries[k].1,
        ),
        updates_channels(f, entries.take(k)).len() <= updates_channels(f, entries).len(),
        updates_channels(f, entries).take(updates_channels(f, entries.take(k)).len() as int)
            == updates_channels(f, entries.take(k)),
        updates_channels(f, entries).take(updates_channels(f, entries.take(k + 1)).len() as int)
            == updates_channels(f, entries.take(k + 1)),
    decreases entries.len(),
{
    assert(entries.take(k + 1).drop_last() =~= entries.take(k));
    lemma_updates_channels_prefix(f, entries, k);
    lemma_updates_channels_prefix(f, entries, k + 1);
}

proof fn lemma_updates_channels_prefix(f: IocFacts, entries: Seq<(WireId, RecordUpdate)>, k: int)
    requires
        0 <= k <= entries.len(),
    ensures
        updates_channels(f, entries.take(k)).len() <= updates_channels(f, entries).len(),
        updates_channels(f, entries).take(updates_channels(f, entries.take(k)).len() as int)
            == updates_channels(f, entries.take(k)),
    decreases entries.len(),
{
    if k == entries.len() {
        assert(entries.take(k) =~= entries);
        assert(updates_channels(f, entries).take(updates_channels(f, entries).len() as int)
            =~= updates_channels(f, entries));
    } else {
        let rest = entries.drop_last();
        lemma_updates_channels_prefix(f, rest, k);
        assert(rest.take(k) =~= entries.take(k));
        let p = updates_channels(f, entries.take(k));
        assert((updates_channels(f, rest) + record_channels(f, entries.last().1)).take(p.len() as int)
            =~= updates_channels(f, rest).take(p.len() as int));
    }
}

/// The channels a transaction becomes: none without an address; else the
/// channels of its record updates, then, for every name among the records
/// to delete, in order, a channel of that name carrying an inactive status
/// and the time, and nothing else.
pub proof fn law_transaction_channels_mark_every_deletion(tx: Transaction, owner: Seq<char>, time: Seq<char>)
    ensures
        tx.source_address is None ==> transaction_channels(tx, owner, time) is None,
        tx.source_address matches Some(source) ==> ({
            let f = ioc_facts(source, tx.client_infos, owner, time);
            let ups = updates_channels(f, tx.updates.entries_view());
            let dels = tx.records_to_delete.items_view();
            transaction_channels(tx, owner, time) matches Some(chans) && {
                &&& chans.len() == ups.len() + dels.len()
                &&& chans.take(ups.len() as int) == ups
                &&& forall|j: int| 0 <= j < dels.len() ==> chans[ups.len() + j] == (
                    #[trigger] dels[j],
                    owner,
                    seq![("pvStatus"@, owner, "Inactive"@), ("time"@, owner, time)],
                )
            }
        }),
{
    match tx.source_address {
        None => {},
        Some(source) => {
            let f = ioc_facts(source, tx.client_infos, owner, time);
            let ups = updates_channels(f, tx.updates.entries_view());
            let d = deletion_channels(f, tx.records_to_delete.items_view());
            assert((ups + d).take(ups.len() as int) =~= ups);
        },
    }
}


/// What ChannelFinder is told of an IOC. The host name is the client's
/// `HOSTNAME` information when it gave one, else the IP address. The IOC
/// name is its `IOCNAME` information when it gave one, else the port's
/// decimal digits, which read back as the port. The IOC id is the IP, a
/// colon and the port's digits.
pub proof fn law_ioc_facts_fall_back_to_the_address(
    source: SourceAddress,
    infos: TextMap,
    owner: Seq<char>,
    time: Seq<char>,
)
    ensures
        ({
            let f = ioc_facts(source, infos, owner, time);
            let port = decimal_text(source.port as nat);
            &&& f.hostname == match text_lookup(infos.entries_view(), "HOSTNAME"@) {
                Some(h) => h,
                None => source.ip@,
            }
            &&& text_lookup(infos.entries_view(), "IOCNAME"@) matches Some(n) ==> f.ioc_name == n
            &&& text_lookup(infos.entries_view(), "IOCNAME"@) is None ==> {
                &&& f.ioc_name == port
                &&& digits_value(f.ioc_name) == source.port
            }
            &&& f.iocid.len() == source.ip@.len() + 1 + port.len()
            &&& f.iocid.take(source.ip@.len() as int) == source.ip@
            &&& f.iocid[source.ip@.len() as int] == ':'
            &&& f.iocid.skip(source.ip@.len() as int + 1) == port
            &&& digits_value(port) == source.port
            &&& f.ioc_ip == source.ip@
            &&& f.owner == owner
            &&& f.time == time
        }),
{
    let f = ioc_facts(source, infos, owner, time);
    let port = decimal_text(source.port as nat);
    law_decimal_text_reads_back(source.port as nat);
    reveal_strlit(":");
    assert(f.iocid.take(source.ip@.len() as int) =~= source.ip@);
    assert(f.iocid.skip(source.ip@.len() as int + 1) =~= port);
}

} // verus!
