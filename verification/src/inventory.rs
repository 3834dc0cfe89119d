//! The data a client session gathers for the storage backends: per record
//! ID, the record's name, type, aliases and properties; the client's own
//! information; and the records to remove.

use vstd::prelude::*;
use vstd::string::*;

use crate::text::{append_decimal, decimal_text, same_text};
use crate::types::{AddInfo, AddRecord, DelRecord, WireId};

verus! {

/// The value stored under `key` among `entries`, if any.
pub open spec fn text_lookup(entries: Seq<(Seq<char>, Seq<char>)>, key: Seq<char>) -> Option<Seq<char>> {
    if exists|i: int| 0 <= i < entries.len() && entries[i].0 == key {
        Some(entries[choose|i: int| 0 <= i < entries.len() && entries[i].0 == key].1)
    } else {
        None
    }
}

/// Whether no key occurs twice among `entries`.
pub open spec fn text_keys_distinct(entries: Seq<(Seq<char>, Seq<char>)>) -> bool {
    forall|i: int, j: int| 0 <= i < j < entries.len() ==> entries[i].0 != entries[j].0
}

/// The entries after storing `value` under `key`: the value of an existing
/// entry with that key is replaced in place, else a new entry is appended.
pub open spec fn text_stored(
    entries: Seq<(Seq<char>, Seq<char>)>,
    key: Seq<char>,
    value: Seq<char>,
) -> Seq<(Seq<char>, Seq<char>)> {
    if exists|i: int| 0 <= i < entries.len() && entries[i].0 == key {
        entries.update(choose|i: int| 0 <= i < entries.len() && entries[i].0 == key, (key, value))
    } else {
        entries.push((key, value))
    }
}

/// A map from text keys to text values. Its entries keep the order in which
/// their keys were first stored, and no key occurs twice.
#[derive(Debug)]
pub struct TextMap {
    entries: Vec<(String, String)>,
}

impl TextMap {
    /// The entries, as pairs of texts, in order.
    pub closed spec fn entries_view(&self) -> Seq<(Seq<char>, Seq<char>)> {
        self.entries@.map_values(|e: (String, String)| (e.0@, e.1@))
    }

    #[verifier::type_invariant]
    closed spec fn keys_distinct(&self) -> bool {
        text_keys_distinct(self.entries_view())
    }

    /// An empty map.
    pub fn new() -> (m: TextMap)
        ensures
            m.entries_view() == Seq::<(Seq<char>, Seq<char>)>::empty(),
    {
        let m = TextMap { entries: Vec::new() };
        assert(m.entries_view() =~= Seq::<(Seq<char>, Seq<char>)>::empty());
        m
    }

    /// The number of entries.
    pub fn len(&self) -> (n: usize)
        ensures
            n == self.entries_view().len(),
    {
        self.entries.len()
    }

    /// The key and value of the entry at place `i`.
    pub fn entry(&self, i: usize) -> (r: (&String, &String))
        requires
            i < self.entries_view().len(),
        ensures
            (r.0@, r.1@) == self.entries_view()[i as int],
    {
        let e = &self.entries[i];
        (&e.0, &e.1)
    }

    fn find(&self, key: &str) -> (r: Option<usize>)
        ensures
            r matches Some(i) ==> i < self.entries_view().len() && self.entries_view()[i as int].0
                == key@,
            r is None ==> forall|i: int|
                0 <= i < self.entries_view().len() ==> self.entries_view()[i].0 != key@,
    {
        let mut i: usize = 0;
        while i < self.entries.len()
            invariant
                i <= self.entries@.len(),
                self.entries_view().len() == self.entries@.len(),
                forall|j: int| 0 <= j < i ==> self.entries_view()[j].0 != key@,
            decreases self.entries@.len() - i,
        {
            if same_text(self.entries[i].0.as_str(), key) {
                return Some(i);
            }
            i = i + 1;
        }
        None
    }

    /// The value stored under `key`, if any.
    pub fn get(&self, key: &str) -> (r: Option<&String>)
        ensures
            r matches Some(v) ==> text_lookup(self.entries_view(), key@) == Some(v@),
            r is None ==> text_lookup(self.entries_view(), key@) is None,
    {
        proof {
            use_type_invariant(self);
        }
        match self.find(key) {
            Some(i) => {
                proof {
                    let k = choose|k: int| 0 <= k < self.entries_view().len() && self.entries_view()[k].0 == key@;
                    if k != i as int {
                        assert(self.entries_view()[k].0 == self.entries_view()[i as int].0);
                    }
                }
                Some(&self.entries[i].1)
            },
            None => None,
        }
    }

    /// Stores `value` under `key`, and gives back the value it replaces.
    pub fn insert(&mut self, key: String, value: String) -> (r: Option<String>)
        ensures
            final(self).entries_view() == text_stored(old(self).entries_view(), key@, value@),
            r matches Some(v) ==> text_lookup(old(self).entries_view(), key@) == Some(v@),
            r is None ==> text_lookup(old(self).entries_view(), key@) is None,
    {
        proof {
            use_type_invariant(&*self);
        }
        let ghost before = self.entries_view();
        match self.find(key.as_str()) {
            Some(i) => {
                proof {
                    let k = choose|k: int| 0 <= k < before.len() && before[k].0 == key@;
                    if k != i as int {
                        assert(before[k].0 == before[i as int].0);
                    }
                }
                let mut entries: Vec<(String, String)> = Vec::new();
                std::mem::swap(&mut entries, &mut self.entries);
                let old_entry = entries.remove(i);
                entries.insert(i, (key, value));
                proof {
                    assert(entries@.map_values(|e: (String, String)| (e.0@, e.1@)) =~= text_stored(before, old_entry.0@, value@));
                    assert(text_keys_distinct(entries@.map_values(|e: (String, String)| (e.0@, e.1@))));
                }
                self.entries = entries;
                Some(old_entry.1)
            },
            None => {
                let mut entries: Vec<(String, String)> = Vec::new();
                std::mem::swap(&mut entries, &mut self.entries);
                entries.push((key, value));
                proof {
                    assert(entries@.map_values(|e: (String, String)| (e.0@, e.1@)) =~= before.push((key@, value@)));
                }
                self.entries = entries;
                None
            },
        }
    }
}

/// Storing a value under a key and then looking the key up gives that value
/// back, and every other key keeps what it had.
pub proof fn law_text_map_read_after_write(
    entries: Seq<(Seq<char>, Seq<char>)>,
    key: Seq<char>,
    value: Seq<char>,
    other: Seq<char>,
)
    requires
        text_keys_distinct(entries),
    ensures
        text_keys_distinct(text_stored(entries, key, value)),
        text_lookup(text_stored(entries, key, value), key) == Some(value),
        other != key ==> text_lookup(text_stored(entries, key, value), other) == text_lookup(
            entries,
            other,
        ),
{
    let s = text_stored(entries, key, value);
    if exists|i: int| 0 <= i < entries.len() && entries[i].0 == key {
        let i = choose|i: int| 0 <= i < entries.len() && entries[i].0 == key;
        assert(s[i].0 == key);
        let k = choose|k: int| 0 <= k < s.len() && s[k].0 == key;
        if k != i {
            assert(entries[k].0 == key);
        }
        if exists|j: int| 0 <= j < s.len() && s[j].0 == other {
            let j = choose|j: int| 0 <= j < s.len() && s[j].0 == other;
            assert(entries[j].0 == other);
        }
        if exists|j: int| 0 <= j < entries.len() && entries[j].0 == other {
            let j = choose|j: int| 0 <= j < entries.len() && entries[j].0 == other;
            assert(s[j].0 == other || j == i);
        }
    } else {
        assert(s[entries.len() as int].0 == key);
        let k = choose|k: int| 0 <= k < s.len() && s[k].0 == key;
        if k < entries.len() {
            assert(entries[k].0 == key);
        }
        if exists|j: int| 0 <= j < entries.len() && entries[j].0 == other {
            let j = choose|j: int| 0 <= j < entries.len() && entries[j].0 == other;
            assert(s[j].0 == other);
        }
    }
}

impl Clone for TextMap {
    fn clone(&self) -> (r: TextMap)
        ensures
            r.entries_view() == self.entries_view(),
    {
        proof {
            use_type_invariant(self);
        }
        let mut entries: Vec<(String, String)> = Vec::new();
        let mut i: usize = 0;
        while i < self.entries.len()
            invariant
                i <= self.entries@.len(),
                entries@.len() == i,
                forall|j: int| 0 <= j < i ==> (#[trigger] entries@[j]).0@ == self.entries@[j].0@
                    && entries@[j].1@ == self.entries@[j].1@,
            decreases self.entries@.len() - i,
        {
            let e = &self.entries[i];
            entries.push((e.0.clone(), e.1.clone()));
            i = i + 1;
        }
        let ghost v = entries@.map_values(|e: (String, String)| (e.0@, e.1@));
        assert(v =~= self.entries_view());
        TextMap { entries }
    }
}

/// A set of texts. Its members keep the order in which they were first
/// added, and none occurs twice.
#[derive(Debug)]
pub struct TextSet {
    items: Vec<String>,
}

impl TextSet {
    /// The members, in order.
    pub closed spec fn items_view(&self) -> Seq<Seq<char>> {
        self.items@.map_values(|t: String| t@)
    }

    #[verifier::type_invariant]
    closed spec fn members_distinct(&self) -> bool {
        self.items_view().no_duplicates()
    }

    /// An empty set.
    pub fn new() -> (s: TextSet)
        ensures
            s.items_view() == Seq::<Seq<char>>::empty(),
    {
        let s = TextSet { items: Vec::new() };
        assert(s.items_view() =~= Seq::<Seq<char>>::empty());
        s
    }

    /// The number of members.
    pub fn len(&self) -> (n: usize)
        ensures
            n == self.items_view().len(),
    {
        self.items.len()
    }

    /// The member at place `i`.
    pub fn item(&self, i: usize) -> (r: &String)
        requires
            i < self.items_view().len(),
        ensures
            r@ == self.items_view()[i as int],
    {
        &self.items[i]
    }

    /// Whether `value` is a member.
    pub fn contains(&self, value: &str) -> (r: bool)
        ensures
            r == self.items_view().contains(value@),
    {
        let mut i: usize = 0;
        while i < self.items.len()
            invariant
                i <= self.items@.len(),
                self.items_view().len() == self.items@.len(),
                forall|j: int| 0 <= j < i ==> self.items_view()[j] != value@,
            decreases self.items@.len() - i,
        {
            if same_text(self.items[i].as_str(), value) {
                assert(self.items_view()[i as int] == value@);
                return true;
            }
            i = i + 1;
        }
        false
    }

    /// Adds `value`; gives whether it was not a member before.
    pub fn insert(&mut self, value: String) -> (r: bool)
        ensures
            r == !old(self).items_view().contains(value@),
            final(self).items_view() == if r {
                old(self).items_view().push(value@)
            } else {
                old(self).items_view()
            },
    {
        proof {
            use_type_invariant(&*self);
        }
        if self.contains(value.as_str()) {
            return false;
        }
        let ghost before = self.items_view();
        let mut items: Vec<String> = Vec::new();
        std::mem::swap(&mut items, &mut self.items);
        items.push(value);
        proof {
            assert(items@.map_values(|t: String| t@) =~= before.push(value@));
        }
        self.items = items;
        true
    }
}

impl Clone for TextSet {
    fn clone(&self) -> (r: TextSet)
        ensures
            r.items_view() == self.items_view(),
    {
        proof {
            use_type_invariant(self);
        }
        let mut items: Vec<String> = Vec::new();
        let mut i: usize = 0;
        while i < self.items.len()
            invariant
                i <= self.items@.len(),
                items@.len() == i,
                forall|j: int| 0 <= j < i ==> (#[trigger] items@[j])@ == self.items@[j]@,
            decreases self.items@.len() - i,
        {
            items.push(self.items[i].clone());
            i = i + 1;
        }
        assert(items@.map_values(|t: String| t@) =~= self.items_view());
        TextSet { items }
    }
}

/// What is known of one record after a client's messages: its name and
/// type if given, its aliases and its properties.
#[derive(Debug)]
pub struct RecordUpdate {
    /// The primary name of the record (if provided/updated).
    pub name: Option<String>,
    /// The record type (if provided/updated).
    pub rtype: Option<String>,
    /// List of aliases associated with this record.
    pub aliases: Vec<String>,
    /// Key-value properties associated with this record.
    pub properties: TextMap,
}

/// Whether two record updates carry the same name, type, aliases and
/// properties.
pub open spec fn same_update(a: RecordUpdate, b: RecordUpdate) -> bool {
    &&& a.name == b.name
    &&& a.rtype == b.rtype
    &&& a.aliases@ == b.aliases@
    &&& a.properties.entries_view() == b.properties.entries_view()
}

fn clone_text_option(t: &Option<String>) -> (r: Option<String>)
    ensures
        r == *t,
{
    match t {
        Some(s) => Some(s.clone()),
        None => None,
    }
}

impl Clone for RecordUpdate {
    fn clone(&self) -> (r: RecordUpdate)
        ensures
            same_update(r, *self),
    {
        let mut aliases: Vec<String> = Vec::new();
        let mut i: usize = 0;
        while i < self.aliases.len()
            invariant
                i <= self.aliases@.len(),
                aliases@ == self.aliases@.take(i as int),
            decreases self.aliases@.len() - i,
        {
            aliases.push(self.aliases[i].clone());
            i = i + 1;
            assert(aliases@ =~= self.aliases@.take(i as int));
        }
        assert(self.aliases@.take(self.aliases@.len() as int) =~= self.aliases@);
        RecordUpdate {
            name: clone_text_option(&self.name),
            rtype: clone_text_option(&self.rtype),
            aliases,
            properties: self.properties.clone(),
        }
    }
}

impl Default for RecordUpdate {
    fn default() -> (u: RecordUpdate)
        ensures
            u.name is None,
            u.rtype is None,
            u.aliases@ == Seq::<String>::empty(),
            u.properties.entries_view() == Seq::<(Seq<char>, Seq<char>)>::empty(),
    {
        RecordUpdate { name: None, rtype: None, aliases: Vec::new(), properties: TextMap::new() }
    }
}

/// The update stored for `id` among `entries`, if any.
pub open spec fn update_lookup(entries: Seq<(WireId, RecordUpdate)>, id: WireId) -> Option<RecordUpdate> {
    if exists|i: int| 0 <= i < entries.len() && entries[i].0 == id {
        Some(entries[choose|i: int| 0 <= i < entries.len() && entries[i].0 == id].1)
    } else {
        None
    }
}

/// Whether no record ID occurs twice among `entries`.
pub open spec fn update_ids_distinct(entries: Seq<(WireId, RecordUpdate)>) -> bool {
    forall|i: int, j: int| 0 <= i < j < entries.len() ==> entries[i].0 != entries[j].0
}

/// The entries after storing `update` for `id`: the update of an existing
/// entry with that ID is replaced in place, else a new entry is appended.
pub open spec fn update_stored(
    entries: Seq<(WireId, RecordUpdate)>,
    id: WireId,
    update: RecordUpdate,
) -> Seq<(WireId, RecordUpdate)> {
    if exists|i: int| 0 <= i < entries.len() && entries[i].0 == id {
        entries.update(choose|i: int| 0 <= i < entries.len() && entries[i].0 == id, (id, update))
    } else {
        entries.push((id, update))
    }
}

/// The updates grouped by record ID: no ID occurs twice, and the entries keep
/// the order in which their IDs were first stored.
#[derive(Debug)]
pub struct UpdateMap {
    entries: Vec<(WireId, RecordUpdate)>,
}

impl UpdateMap {
    /// The entries, in order.
    pub closed spec fn entries_view(&self) -> Seq<(WireId, RecordUpdate)> {
        self.entries@
    }

    #[verifier::type_invariant]
    closed spec fn ids_distinct(&self) -> bool {
        update_ids_distinct(self.entries@)
    }

    /// An empty map.
    pub fn new() -> (m: UpdateMap)
        ensures
            m.entries_view() == Seq::<(WireId, RecordUpdate)>::empty(),
    {
        UpdateMap { entries: Vec::new() }
    }

    /// The number of entries.
    pub fn len(&self) -> (n: usize)
        ensures
            n == self.entries_view().len(),
    {
        self.entries.len()
    }

    /// The ID and update of the entry at place `i`.
    pub fn entry(&self, i: usize) -> (r: (WireId, &RecordUpdate))
        requires
            i < self.entries_view().len(),
        ensures
            r.0 == self.entries_view()[i as int].0,
            *r.1 == self.entries_view()[i as int].1,
    {
        (self.entries[i].0, &self.entries[i].1)
    }

    fn find(&self, id: WireId) -> (r: Option<usize>)
        ensures
            r matches Some(i) ==> i < self.entries@.len() && self.entries@[i as int].0 == id,
            r is None ==> forall|i: int| 0 <= i < self.entries@.len() ==> self.entries@[i].0 != id,
    {
        let mut i: usize = 0;
        while i < self.entries.len()
            invariant
                i <= self.entries@.len(),
                forall|j: int| 0 <= j < i ==> self.entries@[j].0 != id,
            decreases self.entries@.len() - i,
        {
            if self.entries[i].0 == id {
                return Some(i);
            }
            i = i + 1;
        }
        None
    }

    /// The update stored for `id`, if any.
    pub fn get(&self, id: WireId) -> (r: Option<&RecordUpdate>)
        ensures
            r matches Some(u) ==> update_lookup(self.entries_view(), id) == Some(*u),
            r is None ==> update_lookup(self.entries_view(), id) is None,
    {
        proof {
            use_type_invariant(self);
        }
        match self.find(id) {
            Some(i) => {
                proof {
                    let k = choose|k: int| 0 <= k < self.entries@.len() && self.entries@[k].0 == id;
                    if k != i as int {
                        assert(self.entries@[k].0 == self.entries@[i as int].0);
                    }
                }
                Some(&self.entries[i].1)
            },
            None => None,
        }
    }

    /// Stores `update` for `id`, and gives back the update it replaces. An
    /// existing entry keeps its place; a new one is appended.
    pub fn insert(&mut self, id: WireId, update: RecordUpdate) -> (r: Option<RecordUpdate>)
        ensures
            r == update_lookup(old(self).entries_view(), id),
            final(self).entries_view() == update_stored(old(self).entries_view(), id, update),
    {
        proof {
            use_type_invariant(&*self);
        }
        let ghost before = self.entries@;
        match self.find(id) {
            Some(i) => {
                proof {
                    let k = choose|k: int| 0 <= k < before.len() && before[k].0 == id;
                    if k != i as int {
                        assert(before[k].0 == before[i as int].0);
                    }
                }
                let mut entries: Vec<(WireId, RecordUpdate)> = Vec::new();
                std::mem::swap(&mut entries, &mut self.entries);
                let old_entry = entries.remove(i);
                entries.insert(i, (id, update));
                assert(entries@ =~= before.update(i as int, (id, update)));
                self.entries = entries;
                Some(old_entry.1)
            },
            None => {
                let mut entries: Vec<(WireId, RecordUpdate)> = Vec::new();
                std::mem::swap(&mut entries, &mut self.entries);
                entries.push((id, update));
                self.entries = entries;
                None
            },
        }
    }
}

impl Clone for UpdateMap {
    /// A copy with the same record IDs in the same order, each with a copy
    /// of its update.
    fn clone(&self) -> (r: UpdateMap)
        ensures
            r.entries_view().len() == self.entries_view().len(),
            forall|i: int|
                0 <= i < self.entries_view().len() ==> #[trigger] r.entries_view()[i].0
                    == self.entries_view()[i].0 && same_update(
                    r.entries_view()[i].1,
                    self.entries_view()[i].1,
                ),
    {
        proof {
            use_type_invariant(self);
        }
        let mut entries: Vec<(WireId, RecordUpdate)> = Vec::new();
        let mut i: usize = 0;
        while i < self.entries.len()
            invariant
                i <= self.entries@.len(),
                entries@.len() == i,
                forall|j: int| 0 <= j < i ==> (#[trigger] entries@[j]).0 == self.entries@[j].0
                    && same_update(entries@[j].1, self.entries@[j].1),
            decreases self.entries@.len() - i,
        {
            entries.push((self.entries[i].0, self.entries[i].1.clone()));
            i = i + 1;
        }
        assert(update_ids_distinct(entries@)) by {
            assert forall|a: int, b: int| 0 <= a < b < entries@.len() implies entries@[a].0 != entries@[b].0 by {
                assert(entries@[a].0 == self.entries@[a].0);
                assert(entries@[b].0 == self.entries@[b].0);
            }
        }
        UpdateMap { entries }
    }
}

/// The family of an IP address, with the scope of an IPv6 address.
#[derive(Debug, Clone, Copy, PartialEq, Eq, Structural)]
pub enum IpFamily {
    V4,
    V6 { scope_id: u32 },
}

/// The address a client connected from: the text of its IP address, its
/// port, and the address family.
#[derive(Debug)]
pub struct SourceAddress {
    pub ip: String,
    pub port: u16,
    pub family: IpFamily,
}

impl Clone for SourceAddress {
    fn clone(&self) -> (r: SourceAddress)
        ensures
            r == *self,
    {
        SourceAddress { ip: self.ip.clone(), port: self.port, family: self.family }
    }
}

/// The text of a socket address: `ip:port` for IPv4, `[ip]:port` for IPv6,
/// with `%scope` after the IP when the IPv6 scope is not zero.
pub open spec fn address_text(a: SourceAddress) -> Seq<char> {
    match a.family {
        IpFamily::V4 => a.ip@ + ":"@ + decimal_text(a.port as nat),
        IpFamily::V6 { scope_id } => if scope_id == 0 {
            "["@ + a.ip@ + "]:"@ + decimal_text(a.port as nat)
        } else {
            "["@ + a.ip@ + "%"@ + decimal_text(scope_id as nat) + "]:"@ + decimal_text(a.port as nat)
        },
    }
}

impl SourceAddress {
    /// The text of the address, as a socket address displays itself.
    pub fn to_text(&self) -> (t: String)
        ensures
            t@ == address_text(*self),
    {
        match self.family {
            IpFamily::V4 => {
                let mut t = self.ip.clone();
                t.append(":");
                append_decimal(&mut t, self.port as u64);
                t
            },
            IpFamily::V6 { scope_id } => {
                let mut t = String::from_str("[");
                t.append(self.ip.as_str());
                if scope_id != 0 {
                    t.append("%");
                    append_decimal(&mut t, scope_id as u64);
                }
                t.append("]:");
                append_decimal(&mut t, self.port as u64);
                t
            },
        }
    }
}

/// Data accumulated from a client session to be synced.
#[derive(Debug)]
pub struct Transaction {
    pub source_address: Option<SourceAddress>,
    pub client_infos: TextMap,
    /// Updates grouped by record ID.
    pub updates: UpdateMap,
    /// Set of record names to delete.
    pub records_to_delete: TextSet,
    pub initial: bool,
    pub connected: bool,
}

impl Transaction {
    /// An empty transaction of a connected client with no known address.
    pub fn new() -> (t: Transaction)
        ensures
            t.source_address is None,
            t.client_infos.entries_view() == Seq::<(Seq<char>, Seq<char>)>::empty(),
            t.updates.entries_view() == Seq::<(WireId, RecordUpdate)>::empty(),
            t.records_to_delete.items_view() == Seq::<Seq<char>>::empty(),
            !t.initial,
            t.connected,
    {
        Transaction {
            source_address: None,
            client_infos: TextMap::new(),
            updates: UpdateMap::new(),
            records_to_delete: TextSet::new(),
            initial: false,
            connected: true,
        }
    }
}

/// Storing an update for a record ID and then looking the ID up gives that
/// update back, and every other ID keeps what it had.
pub proof fn law_update_map_read_after_write(
    entries: Seq<(WireId, RecordUpdate)>,
    id: WireId,
    update: RecordUpdate,
    other: WireId,
)
    requires
        update_ids_distinct(entries),
    ensures
        update_ids_distinct(update_stored(entries, id, update)),
        update_lookup(update_stored(entries, id, update), id) == Some(update),
        other != id ==> update_lookup(update_stored(entries, id, update), other) == update_lookup(
            entries,
            other,
        ),
{
    let s = update_stored(entries, id, update);
    if exists|i: int| 0 <= i < entries.len() && entries[i].0 == id {
        let i = choose|i: int| 0 <= i < entries.len() && entries[i].0 == id;
        assert(s[i].0 == id);
        let k = choose|k: int| 0 <= k < s.len() && s[k].0 == id;
        if k != i {
            assert(entries[k].0 == id);
        }
        if exists|j: int| 0 <= j < s.len() && s[j].0 == other {
            let j = choose|j: int| 0 <= j < s.len() && s[j].0 == other;
            assert(entries[j].0 == other);
        }
        if exists|j: int| 0 <= j < entries.len() && entries[j].0 == other {
            let j = choose|j: int| 0 <= j < entries.len() && entries[j].0 == other;
            assert(s[j].0 == other || j == i);
        }
    } else {
        assert(s[entries.len() as int].0 == id);
        let k = choose|k: int| 0 <= k < s.len() && s[k].0 == id;
        if k < entries.len() {
            assert(entries[k].0 == id);
        }
        if exists|j: int| 0 <= j < entries.len() && entries[j].0 == other {
            let j = choose|j: int| 0 <= j < entries.len() && entries[j].0 == other;
            assert(s[j].0 == other);
        }
    }
}

/// Adding a text to a set makes it a member, keeps every member, adds
/// nothing else, and adding it again changes nothing.
pub proof fn law_text_set_insert(items: Seq<Seq<char>>, value: Seq<char>, other: Seq<char>)
    requires
        items.no_duplicates(),
    ensures
        ({
            let after = if items.contains(value) { items } else { items.push(value) };
            &&& after.no_duplicates()
            &&& after.contains(value)
            &&& after.contains(other) <==> (items.contains(other) || other == value)
            &&& after.contains(value) && (if after.contains(value) { after } else { after.push(value) }) == after
        }),
{
    let after = if items.contains(value) { items } else { items.push(value) };
    if !items.contains(value) {
        assert(after[items.len() as int] == value);
        if items.contains(other) {
            let j = choose|j: int| 0 <= j < items.len() && items[j] == other;
            assert(after[j] == other);
        }
        if after.contains(other) && other != value {
            let j = choose|j: int| 0 <= j < after.len() && after[j] == other;
            assert(items[j] == other);
        }
    }
}

/// Storing twice for the same record ID leaves what storing the second
/// update alone leaves.
proof fn lemma_update_stored_twice(
    entries: Seq<(WireId, RecordUpdate)>,
    id: WireId,
    first: RecordUpdate,
    second: RecordUpdate,
)
    requires
        update_ids_distinct(entries),
    ensures
        update_stored(update_stored(entries, id, first), id, second) == update_stored(
            entries,
            id,
            second,
        ),
{
    let mid = update_stored(entries, id, first);
    if exists|i: int| 0 <= i < entries.len() && entries[i].0 == id {
        let i = choose|i: int| 0 <= i < entries.len() && entries[i].0 == id;
        assert(mid[i].0 == id);
        let k = choose|k: int| 0 <= k < mid.len() && mid[k].0 == id;
        if k != i {
            assert(entries[k].0 == id);
        }
        assert(update_stored(mid, id, second) =~= update_stored(entries, id, second));
    } else {
        let n = entries.len() as int;
        assert(mid[n].0 == id);
        let k = choose|k: int| 0 <= k < mid.len() && mid[k].0 == id;
        if k < n {
            assert(entries[k].0 == id);
        }
        assert(update_stored(mid, id, second) =~= update_stored(entries, id, second));
    }
}

/// The record ID under which a message's record is gathered. Messages carry
/// a 32-bit record ID, and updates are keyed by the 16-bit `WireId`: the
/// ID's low 16 bits are kept, so IDs that differ only above them (1 and
/// 65537) name the same record.
pub open spec fn gathered_id(recid: u32) -> WireId {
    WireId(recid as u16)
}

/// The name a record had before a message, if any.
pub open spec fn prior_name(u: Option<RecordUpdate>) -> Option<String> {
    match u {
        Some(u) => u.name,
        None => None,
    }
}

/// The type a record had before a message, if any.
pub open spec fn prior_rtype(u: Option<RecordUpdate>) -> Option<String> {
    match u {
        Some(u) => u.rtype,
        None => None,
    }
}

/// The aliases a record had before a message.
pub open spec fn prior_aliases(u: Option<RecordUpdate>) -> Seq<String> {
    match u {
        Some(u) => u.aliases@,
        None => Seq::empty(),
    }
}

/// The properties a record had before a message.
pub open spec fn prior_properties(u: Option<RecordUpdate>) -> Seq<(Seq<char>, Seq<char>)> {
    match u {
        Some(u) => u.properties.entries_view(),
        None => Seq::empty(),
    }
}

/// What a record update becomes when an `AddRecord` message is gathered
/// into it: a record (type 0) sets the name and the record type, an alias
/// (type 1) adds the name to the aliases; all else is kept.
pub open spec fn record_added(before: Option<RecordUpdate>, after: RecordUpdate, m: AddRecord) -> bool {
    if m.atype == 0 {
        &&& after.name == Some(m.rname)
        &&& after.rtype == Some(m.rtype)
        &&& after.aliases@ == prior_aliases(before)
        &&& after.properties.entries_view() == prior_properties(before)
    } else {
        &&& after.name == prior_name(before)
        &&& after.rtype == prior_rtype(before)
        &&& after.aliases@ == prior_aliases(before).push(m.rname)
        &&& after.properties.entries_view() == prior_properties(before)
    }
}

/// What a record update becomes when an `AddInfo` message for the record
/// is gathered into it: the key is stored among its properties.
pub open spec fn property_added(before: Option<RecordUpdate>, after: RecordUpdate, m: AddInfo) -> bool {
    &&& after.name == prior_name(before)
    &&& after.rtype == prior_rtype(before)
    &&& after.aliases@ == prior_aliases(before)
    &&& after.properties.entries_view() == text_stored(prior_properties(before), m.key@, m.value@)
}

/// Whether two transactions agree on everything but their updates.
pub open spec fn same_but_updates(a: Transaction, b: Transaction) -> bool {
    &&& a.source_address == b.source_address
    &&& a.client_infos == b.client_infos
    &&& a.records_to_delete == b.records_to_delete
    &&& a.initial == b.initial
    &&& a.connected == b.connected
}

/// What a transaction becomes when an `AddRecord` message is gathered into
/// it: only the update under the record's ID changes, as `record_added`
/// says.
pub open spec fn record_gathered(b: Transaction, a: Transaction, m: AddRecord) -> bool {
    &&& same_but_updates(a, b)
    &&& exists|u: RecordUpdate|
        #![trigger update_stored(b.updates.entries_view(), gathered_id(m.recid), u)]
        a.updates.entries_view() == update_stored(b.updates.entries_view(), gathered_id(m.recid), u)
            && record_added(update_lookup(b.updates.entries_view(), gathered_id(m.recid)), u, m)
}

/// What a transaction becomes when an `AddInfo` message is gathered into
/// it: for record ID 0 only the client's information changes, with the key
/// stored in it; else only the update under the record's ID changes, as
/// `property_added` says.
pub open spec fn info_gathered(b: Transaction, a: Transaction, m: AddInfo) -> bool {
    if m.recid == 0 {
        &&& a.client_infos.entries_view() == text_stored(b.client_infos.entries_view(), m.key@, m.value@)
        &&& a.updates == b.updates
        &&& a.source_address == b.source_address
        &&& a.records_to_delete == b.records_to_delete
        &&& a.initial == b.initial
        &&& a.connected == b.connected
    } else {
        &&& same_but_updates(a, b)
        &&& exists|u: RecordUpdate|
            #![trigger update_stored(b.updates.entries_view(), gathered_id(m.recid), u)]
            a.updates.entries_view() == update_stored(b.updates.entries_view(), gathered_id(m.recid), u)
                && property_added(update_lookup(b.updates.entries_view(), gathered_id(m.recid)), u, m)
    }
}

/// What a transaction becomes when a `DelRecord` message is gathered into
/// it: if the record under the ID has a name, only the records to delete
/// change, gaining that name; else nothing changes. The record's update
/// stays where it is: a backend that commits the transaction writes the
/// record and then marks it deleted.
pub open spec fn deletion_gathered(b: Transaction, a: Transaction, m: DelRecord) -> bool {
    &&& a.updates == b.updates
    &&& a.client_infos == b.client_infos
    &&& a.source_address == b.source_address
    &&& a.initial == b.initial
    &&& a.connected == b.connected
    &&& match prior_name(update_lookup(b.updates.entries_view(), gathered_id(m.recid))) {
        Some(name) => a.records_to_delete.items_view() == if b.records_to_delete.items_view().contains(name@) {
            b.records_to_delete.items_view()
        } else {
            b.records_to_delete.items_view().push(name@)
        },
        None => a.records_to_delete == b.records_to_delete,
    }
}

impl Transaction {
    fn stored_update(&mut self, id: WireId) -> (u: RecordUpdate)
        ensures
            u.name == prior_name(update_lookup(old(self).updates.entries_view(), id)),
            u.rtype == prior_rtype(update_lookup(old(self).updates.entries_view(), id)),
            u.aliases@ == prior_aliases(update_lookup(old(self).updates.entries_view(), id)),
            u.properties.entries_view() == prior_properties(
                update_lookup(old(self).updates.entries_view(), id),
            ),
            same_but_updates(*final(self), *old(self)),
            forall|v: RecordUpdate|
                update_stored(final(self).updates.entries_view(), id, v) == update_stored(
                    old(self).updates.entries_view(),
                    id,
                    v,
                ),
    {
        proof {
            use_type_invariant(&self.updates);
        }
        let ghost before = self.updates.entries_view();
        let placeholder = RecordUpdate::default();
        let ghost d = placeholder;
        let taken = self.updates.insert(id, placeholder);
        proof {
            assert forall|v: RecordUpdate| update_stored(self.updates.entries_view(), id, v) == update_stored(before, id, v) by {
                lemma_update_stored_twice(before, id, d, v);
            }
        }
        match taken {
            Some(u) => u,
            None => RecordUpdate::default(),
        }
    }

    /// Gathers an `AddRecord` message: under the record's ID (its low 16
    /// bits), a record message sets the record's name and type, an alias
    /// message adds an alias.
    pub fn add_record(&mut self, m: AddRecord)
        ensures
            record_gathered(*old(self), *final(self), m),
            update_ids_distinct(old(self).updates.entries_view()),
            update_ids_distinct(final(self).updates.entries_view()),
    {
        proof {
            use_type_invariant(&self.updates);
        }
        let id = WireId(m.recid as u16);
        let ghost prior = update_lookup(self.updates.entries_view(), id);
        let ghost before = self.updates.entries_view();
        let mut u = self.stored_update(id);
        if m.atype == 0 {
            u.name = Some(m.rname);
            u.rtype = Some(m.rtype);
        } else {
            u.aliases.push(m.rname);
        }
        let ghost w = u;
        self.updates.insert(id, u);
        assert(self.updates.entries_view() == update_stored(before, id, w));
        assert(record_added(prior, w, m));
        assert(gathered_id(m.recid) == id);
        assert(self.updates.entries_view() == update_stored(old(self).updates.entries_view(), gathered_id(m.recid), w)
            && record_added(update_lookup(old(self).updates.entries_view(), gathered_id(m.recid)), w, m));
        proof {
            use_type_invariant(&self.updates);
        }
    }

    /// Gathers an `AddInfo` message: for record ID 0 the key is stored among
    /// the client's information, else among the properties of the record
    /// under the ID's low 16 bits.
    pub fn add_info(&mut self, m: AddInfo)
        ensures
            info_gathered(*old(self), *final(self), m),
            update_ids_distinct(old(self).updates.entries_view()),
            update_ids_distinct(final(self).updates.entries_view()),
            text_keys_distinct(old(self).client_infos.entries_view()),
            m.recid != 0 ==> text_keys_distinct(
                prior_properties(update_lookup(old(self).updates.entries_view(), gathered_id(m.recid))),
            ),
    {
        proof {
            use_type_invariant(&self.updates);
            use_type_invariant(&self.client_infos);
        }
        if m.recid == 0 {
            self.client_infos.insert(m.key, m.value);
        } else {
            let id = WireId(m.recid as u16);
            let ghost prior = update_lookup(self.updates.entries_view(), id);
            let ghost before = self.updates.entries_view();
            let mut u = self.stored_update(id);
            proof {
                use_type_invariant(&u.properties);
            }
            u.properties.insert(m.key, m.value);
            let ghost w = u;
            self.updates.insert(id, u);
            assert(self.updates.entries_view() == update_stored(before, id, w));
            assert(property_added(prior, w, m));
            assert(gathered_id(m.recid) == id);
            assert(self.updates.entries_view() == update_stored(old(self).updates.entries_view(), gathered_id(m.recid), w)
                && property_added(update_lookup(old(self).updates.entries_view(), gathered_id(m.recid)), w, m));
        }
        proof {
            use_type_invariant(&self.updates);
        }
    }

    /// Gathers a `DelRecord` message: the name of the record under the ID's
    /// low 16 bits, if it is known, is added to the records to delete. The
    /// record's update is kept, so the deletion follows it when committed.
    pub fn delete_record(&mut self, m: DelRecord)
        ensures
            deletion_gathered(*old(self), *final(self), m),
    {
        let id = WireId(m.recid as u16);
        let name = match self.updates.get(id) {
            Some(u) => match &u.name {
                Some(n) => Some(n.clone()),
                None => None,
            },
            None => None,
        };
        match name {
            Some(n) => {
                self.records_to_delete.insert(n);
            },
            None => {},
        }
    }
}

impl Clone for Transaction {
    /// A copy with the same address, information, updates (each copied),
    /// records to delete and flags.
    fn clone(&self) -> (r: Transaction)
        ensures
            r.source_address == self.source_address,
            r.client_infos.entries_view() == self.client_infos.entries_view(),
            r.updates.entries_view().len() == self.updates.entries_view().len(),
            forall|i: int|
                0 <= i < self.updates.entries_view().len() ==> #[trigger] r.updates.entries_view()[i].0
                    == self.updates.entries_view()[i].0 && same_update(
                    r.updates.entries_view()[i].1,
                    self.updates.entries_view()[i].1,
                ),
            r.records_to_delete.items_view() == self.records_to_delete.items_view(),
            r.initial == self.initial,
            r.connected == self.connected,
    {
        Transaction {
            source_address: match &self.source_address {
                Some(a) => Some(a.clone()),
                None => None,
            },
            client_infos: self.client_infos.clone(),
            updates: self.updates.clone(),
            records_to_delete: self.records_to_delete.clone(),
            initial: self.initial,
            connected: self.connected,
        }
    }
}


/// Gathering an `AddRecord` changes the update of its record and no other.
/// A record message names the record and sets its type, keeping its aliases
/// and properties. An alias message keeps the record's name, type and
/// properties and every alias the record already had, each in its place,
/// and adds the new alias after them.
pub proof fn law_record_gathering_keeps_what_was_there(b: Transaction, a: Transaction, m: AddRecord, other: WireId)
    requires
        update_ids_distinct(b.updates.entries_view()),
        record_gathered(b, a, m),
    ensures
        ({
            let id = gathered_id(m.recid);
            let before = update_lookup(b.updates.entries_view(), id);
            let old_aliases = match before {
                Some(u) => u.aliases@,
                None => Seq::<String>::empty(),
            };
            let old_props = match before {
                Some(u) => u.properties.entries_view(),
                None => Seq::<(Seq<char>, Seq<char>)>::empty(),
            };
            update_lookup(a.updates.entries_view(), id) matches Some(after) && {
                &&& after.properties.entries_view() == old_props
                &&& m.atype == 0 ==> {
                    &&& after.name == Some(m.rname)
                    &&& after.rtype == Some(m.rtype)
                    &&& after.aliases@ == old_aliases
                }
                &&& m.atype != 0 ==> {
                    &&& after.name == (match before { Some(u) => u.name, None => None })
                    &&& after.rtype == (match before { Some(u) => u.rtype, None => None })
                    &&& after.aliases@.len() == old_aliases.len() + 1
                    &&& forall|i: int| 0 <= i < old_aliases.len() ==> after.aliases@[i] == old_aliases[i]
                    &&& after.aliases@[old_aliases.len() as int] == m.rname
                }
            }
        }),
        other != gathered_id(m.recid) ==> update_lookup(a.updates.entries_view(), other) == update_lookup(
            b.updates.entries_view(),
            other,
        ),
        a.client_infos == b.client_infos,
        a.records_to_delete == b.records_to_delete,
        a.source_address == b.source_address,
        gathered_id(m.recid).0 == m.recid % 0x1_0000,
{
    let r = m.recid;
    assert((r as u16) as u32 == r % 0x1_0000) by (bit_vector);
    let id = gathered_id(m.recid);
    let u = choose|u: RecordUpdate|
        #![trigger update_stored(b.updates.entries_view(), id, u)]
        a.updates.entries_view() == update_stored(b.updates.entries_view(), id, u) && record_added(
            update_lookup(b.updates.entries_view(), id),
            u,
            m,
        );
    law_update_map_read_after_write(b.updates.entries_view(), id, u, other);
}

/// Gathering an `AddInfo` stores its value under its key and keeps every
/// other key's value: among the client's information for record ID 0, else
/// among the properties of the record under the ID, whose name, type and
/// aliases stay as they were; no other record changes.
pub proof fn law_info_gathering_keeps_other_keys(
    b: Transaction,
    a: Transaction,
    m: AddInfo,
    other_key: Seq<char>,
    other: WireId,
)
    requires
        update_ids_distinct(b.updates.entries_view()),
        text_keys_distinct(b.client_infos.entries_view()),
        m.recid != 0 ==> text_keys_distinct(prior_properties(update_lookup(b.updates.entries_view(), gathered_id(m.recid)))),
        info_gathered(b, a, m),
    ensures
        m.recid == 0 ==> {
            &&& text_lookup(a.client_infos.entries_view(), m.key@) == Some(m.value@)
            &&& other_key != m.key@ ==> text_lookup(a.client_infos.entries_view(), other_key) == text_lookup(
                b.client_infos.entries_view(),
                other_key,
            )
            &&& a.updates == b.updates
        },
        m.recid != 0 ==> ({
            let id = gathered_id(m.recid);
            let before = update_lookup(b.updates.entries_view(), id);
            let old_props = match before {
                Some(u) => u.properties.entries_view(),
                None => Seq::<(Seq<char>, Seq<char>)>::empty(),
            };
            &&& update_lookup(a.updates.entries_view(), id) matches Some(after) && {
                &&& text_lookup(after.properties.entries_view(), m.key@) == Some(m.value@)
                &&& other_key != m.key@ ==> text_lookup(after.properties.entries_view(), other_key)
                    == text_lookup(old_props, other_key)
                &&& after.name == (match before { Some(u) => u.name, None => None })
                &&& after.rtype == (match before { Some(u) => u.rtype, None => None })
                &&& after.aliases@ == (match before { Some(u) => u.aliases@, None => Seq::<String>::empty() })
            }
            &&& other != id ==> update_lookup(a.updates.entries_view(), other) == update_lookup(
                b.updates.entries_view(),
                other,
            )
            &&& a.client_infos == b.client_infos
        }),
        a.records_to_delete == b.records_to_delete,
        a.source_address == b.source_address,
{
    if m.recid == 0 {
        law_text_map_read_after_write(b.client_infos.entries_view(), m.key@, m.value@, other_key);
    } else {
        let id = gathered_id(m.recid);
        let u = choose|u: RecordUpdate|
            #![trigger update_stored(b.updates.entries_view(), id, u)]
            a.updates.entries_view() == update_stored(b.updates.entries_view(), id, u) && property_added(
                update_lookup(b.updates.entries_view(), id),
                u,
                m,
            );
        law_update_map_read_after_write(b.updates.entries_view(), id, u, other);
        law_text_map_read_after_write(
            prior_properties(update_lookup(b.updates.entries_view(), id)),
            m.key@,
            m.value@,
            other_key,
        );
    }
}

/// Gathering a `DelRecord` forgets no deletion: every name already among
/// the records to delete stays there. If the record under the ID has a
/// name, that name is among them afterwards, and no other name is added;
/// otherwise they stay as they were. The updates are left alone.
pub proof fn law_deletion_gathering_keeps_deletions(b: Transaction, a: Transaction, m: DelRecord, x: Seq<char>)
    requires
        deletion_gathered(b, a, m),
    ensures
        b.records_to_delete.items_view().contains(x) ==> a.records_to_delete.items_view().contains(x),
        a.records_to_delete.items_view().contains(x) ==> b.records_to_delete.items_view().contains(x)
            || (prior_name(update_lookup(b.updates.entries_view(), gathered_id(m.recid))) matches Some(n)
            && n@ == x),
        prior_name(update_lookup(b.updates.entries_view(), gathered_id(m.recid))) matches Some(n)
            ==> a.records_to_delete.items_view().contains(n@),
        prior_name(update_lookup(b.updates.entries_view(), gathered_id(m.recid))) is None
            ==> a.records_to_delete.items_view() == b.records_to_delete.items_view(),
        a.updates == b.updates,
        a.client_infos == b.client_infos,
{
    let before = b.records_to_delete.items_view();
    let after = a.records_to_delete.items_view();
    match prior_name(update_lookup(b.updates.entries_view(), gathered_id(m.recid))) {
        Some(n) => {
            if !before.contains(n@) {
                assert(after[before.len() as int] == n@);
                if before.contains(x) {
                    let i = choose|i: int| 0 <= i < before.len() && before[i] == x;
                    assert(after[i] == x);
                }
                if after.contains(x) && x != n@ {
                    let i = choose|i: int| 0 <= i < after.len() && after[i] == x;
                    assert(before[i] == x);
                }
            }
        },
        None => {},
    }
}

} // verus!
