//! Bakery's record of the IP-to-class mappings in the kernel: the mappings
//! it believes are live, the set staged by the current batch, and the ones
//! it found but cannot attribute to a circuit (which it never deletes).
//!
//! Mappings are keyed by address text and prefix length; a table holds each
//! key at most once.
use vstd::prelude::*;
use std::collections::{HashMap, HashSet};
use crate::commands::BakeryCommands;
use crate::maps::map_keys;
use crate::site_tree::{circuit_class_handles, circuit_handles_of};
use crate::migration::Migration;
use crate::tc_handle::{handle_value, tc_seq, vec_eq, TcHandle};
use crate::text::{
    append_str, chars_of, join_seqs, join_strings, string_seqs, dec_seq, dec_string, find_char, first_index_of, owned, parse_u32,
    parse_u32_seq, slice_chars, string_of,
};

verus! {

broadcast use vstd::std_specs::hash::group_hash_axioms;

/// A mapping's key as a value: address text and prefix length.
pub type KeyView = (Seq<char>, u32);

/// Key of an IP mapping.
#[derive(Debug)]
pub struct MappingKey {
    /// Address, without the prefix.
    pub ip: String,
    /// Prefix length.
    pub prefix: u32,
}

impl MappingKey {
    /// The key as a value.
    pub open spec fn key_view(self) -> KeyView {
        (self.ip@, self.prefix)
    }

    /// A copy of the key.
    pub fn duplicate(&self) -> (r: MappingKey)
        ensures
            r.key_view() == self.key_view(),
    {
        MappingKey { ip: self.ip.clone(), prefix: self.prefix }
    }
}

/// Where an IP mapping points.
#[derive(Clone, Copy, Debug, PartialEq, Eq, Structural)]
pub struct MappingVal {
    /// Class the address is mapped to.
    pub handle: TcHandle,
    /// CPU that handles the address.
    pub cpu: u32,
}

/// An address without a prefix: `/128` when it holds a `:`, else `/32`.
pub open spec fn host_key(s: Seq<char>) -> KeyView {
    if s.contains(':') {
        (s, 128)
    } else {
        (s, 32)
    }
}

/// The key of an address as written: `addr/prefix` when the text after the
/// first `/` is a decimal `u32`, else the whole text as a host address.
#[verifier::opaque]
pub open spec fn parsed_ip(s: Seq<char>) -> KeyView {
    match first_index_of(s, '/') {
        Some(i) => match parse_u32_seq(s.subrange(i + 1, s.len() as int)) {
            Some(n) => (s.subrange(0, i), n),
            None => host_key(s),
        },
        None => host_key(s),
    }
}

/// Splits an address into text and prefix length (see [`parsed_ip`]).
pub fn parse_ip_and_prefix(ip: &str) -> (r: (String, u32))
    ensures
        (r.0@, r.1) == parsed_ip(ip@),
{
    proof {
        reveal(parsed_ip);
    }
    let cs = chars_of(ip);
    if let Some(i) = find_char(&cs, '/') {
        assert(i < cs.len());
        let tail = slice_chars(&cs, i + 1, cs.len());
        if let Some(n) = parse_u32(&tail) {
            let head = slice_chars(&cs, 0, i);
            return (string_of(&head), n);
        }
    }
    let host = owned(ip);
    match find_char(&cs, ':') {
        Some(_) => {
            assert(ip@.contains(':'));
            (host, 128)
        },
        None => {
            assert(!ip@.contains(':'));
            (host, 32)
        },
    }
}

/// The key of an address as written.
pub fn mapping_key_for(ip_address: &str) -> (r: MappingKey)
    ensures
        r.key_view() == parsed_ip(ip_address@),
{
    let (ip, prefix) = parse_ip_and_prefix(ip_address);
    MappingKey { ip, prefix }
}

/// `<ip>/<prefix>`.
pub open spec fn cidr_of(k: KeyView) -> Seq<char> {
    k.0 + "/"@ + dec_seq(k.1 as nat)
}

/// The key written as `<ip>/<prefix>`.
pub fn mapping_key_cidr(key: &MappingKey) -> (r: String)
    ensures
        r@ == cidr_of(key.key_view()),
{
    let mut s = key.ip.clone();
    append_str(&mut s, "/");
    append_str(&mut s, dec_string(key.prefix as u64).as_str());
    s
}

/// How a stale mapping is named when asking for its deletion: the bare
/// address for a host prefix (`/32`, `/128`), else `<ip>/<prefix>`.
pub open spec fn deletion_ip(k: KeyView) -> Seq<char> {
    if k.1 == 32 || k.1 == 128 {
        k.0
    } else {
        cidr_of(k)
    }
}

/// The address to name when deleting a stale mapping.
pub fn mapping_deletion_ip(key: &MappingKey) -> (r: String)
    ensures
        r@ == deletion_ip(key.key_view()),
{
    if key.prefix == 32 || key.prefix == 128 {
        key.ip.clone()
    } else {
        mapping_key_cidr(key)
    }
}

/// Whether two keys are the same.
pub fn same_key(a: &MappingKey, b: &MappingKey) -> (r: bool)
    ensures
        r == (a.key_view() == b.key_view()),
{
    if a.prefix != b.prefix {
        return false;
    }
    vec_eq(&chars_of(a.ip.as_str()), &chars_of(b.ip.as_str()))
}

/// Key of the `i`-th entry.
pub open spec fn key_at(v: Seq<(MappingKey, MappingVal)>, i: int) -> KeyView {
    v[i].0.key_view()
}

/// The keys of a table, in order.
pub open spec fn table_keys(v: Seq<(MappingKey, MappingVal)>) -> Seq<KeyView> {
    Seq::new(v.len(), |i: int| key_at(v, i))
}

/// No key occurs twice in the table.
pub open spec fn table_wf(v: Seq<(MappingKey, MappingVal)>) -> bool {
    forall|i: int, j: int| 0 <= i < j < v.len() ==> key_at(v, i) != key_at(v, j)
}

/// Some entry of the table has key `k`.
pub open spec fn table_has(v: Seq<(MappingKey, MappingVal)>, k: KeyView) -> bool {
    exists|i: int| 0 <= i < v.len() && key_at(v, i) == k
}

/// The table as a map from keys to mappings.
pub open spec fn table_map(v: Seq<(MappingKey, MappingVal)>) -> Map<KeyView, MappingVal> {
    Map::new(
        |k: KeyView| table_has(v, k),
        |k: KeyView| v[choose|i: int| 0 <= i < v.len() && key_at(v, i) == k].1,
    )
}

/// In a table without repeated keys, the entry at `i` is what the map holds
/// under its key.
pub proof fn lemma_table_map_at(v: Seq<(MappingKey, MappingVal)>, i: int)
    requires
        table_wf(v),
        0 <= i < v.len(),
    ensures
        table_map(v).contains_key(key_at(v, i)),
        table_map(v)[key_at(v, i)] == v[i].1,
{
    let k = key_at(v, i);
    assert(table_has(v, k));
    let j = choose|j: int| 0 <= j < v.len() && key_at(v, j) == k;
    if j != i {
        if j < i {
            assert(key_at(v, j) != key_at(v, i));
        } else {
            assert(key_at(v, i) != key_at(v, j));
        }
    }
}

/// The map of a table, given entry by entry.
pub proof fn lemma_table_map_ext(v: Seq<(MappingKey, MappingVal)>, m: Map<KeyView, MappingVal>)
    requires
        table_wf(v),
        forall|k: KeyView| #[trigger] m.contains_key(k) <==> table_has(v, k),
        forall|i: int| 0 <= i < v.len() ==> m[#[trigger] key_at(v, i)] == v[i].1,
    ensures
        table_map(v) == m,
{
    assert forall|k: KeyView| #[trigger] table_map(v).contains_key(k) implies table_map(v)[k] == m[k] by {
        let i = choose|i: int| 0 <= i < v.len() && key_at(v, i) == k;
        lemma_table_map_at(v, i);
    }
    assert(table_map(v) =~= m);
}

/// Position of the entry with the given key, if any.
pub fn find_entry(v: &Vec<(MappingKey, MappingVal)>, key: &MappingKey) -> (r: Option<usize>)
    ensures
        match r {
            Some(i) => i < v@.len() && key_at(v@, i as int) == key.key_view(),
            None => !table_has(v@, key.key_view()),
        },
{
    let mut i: usize = 0;
    while i < v.len()
        invariant
            i <= v@.len(),
            forall|j: int| 0 <= j < i ==> key_at(v@, j) != key.key_view(),
        decreases v@.len() - i,
    {
        if same_key(&v[i].0, key) {
            return Some(i);
        }
        i = i + 1;
    }
    None
}

/// The mapping held under `key`, if any.
pub fn table_get(v: &Vec<(MappingKey, MappingVal)>, key: &MappingKey) -> (r: Option<MappingVal>)
    requires
        table_wf(v@),
    ensures
        r == table_map(v@).get(key.key_view()),
{
    match find_entry(v, key) {
        Some(i) => {
            proof {
                lemma_table_map_at(v@, i as int);
            }
            Some(v[i].1)
        },
        None => None,
    }
}

/// Maps `key` to `val`, replacing an existing mapping of the key.
pub fn table_upsert(v: &mut Vec<(MappingKey, MappingVal)>, key: MappingKey, val: MappingVal)
    requires
        table_wf(old(v)@),
    ensures
        table_wf(final(v)@),
        table_map(final(v)@) == table_map(old(v)@).insert(key.key_view(), val),
{
    let ghost k = key.key_view();
    let ghost v0 = v@;
    let ghost m = table_map(v0).insert(k, val);
    match find_entry(v, &key) {
        Some(i) => {
            v.set(i, (key, val));
            proof {
                assert forall|a: int, b: int| 0 <= a < b < v@.len() implies key_at(v@, a) != key_at(v@, b) by {
                    assert(key_at(v@, a) == key_at(v0, a));
                    assert(key_at(v@, b) == key_at(v0, b));
                }
                assert forall|x: KeyView| #[trigger] m.contains_key(x) <==> table_has(v@, x) by {
                    if table_has(v0, x) {
                        let j = choose|j: int| 0 <= j < v0.len() && key_at(v0, j) == x;
                        assert(key_at(v@, j) == x);
                    }
                    if table_has(v@, x) {
                        let j = choose|j: int| 0 <= j < v@.len() && key_at(v@, j) == x;
                        assert(key_at(v0, j) == x);
                    }
                }
                assert forall|j: int| 0 <= j < v@.len() implies m[#[trigger] key_at(v@, j)] == v@[j].1 by {
                    if j != i {
                        lemma_table_map_at(v0, j);
                        assert(key_at(v0, j) != k) by {
                            if j < i {
                                assert(key_at(v0, j) != key_at(v0, i as int));
                            } else {
                                assert(key_at(v0, i as int) != key_at(v0, j));
                            }
                        }
                    }
                }
                lemma_table_map_ext(v@, m);
            }
        },
        None => {
            v.push((key, val));
            proof {
                let n = v0.len() as int;
                assert forall|a: int, b: int| 0 <= a < b < v@.len() implies key_at(v@, a) != key_at(v@, b) by {
                    assert(key_at(v@, a) == key_at(v0, a));
                    if b < n {
                        assert(key_at(v@, b) == key_at(v0, b));
                    } else {
                        assert(key_at(v@, b) == k);
                    }
                }
                assert forall|x: KeyView| #[trigger] m.contains_key(x) <==> table_has(v@, x) by {
                    if table_has(v0, x) {
                        let j = choose|j: int| 0 <= j < v0.len() && key_at(v0, j) == x;
                        assert(key_at(v@, j) == x);
                    }
                    if x == k {
                        assert(key_at(v@, n) == x);
                    }
                    if table_has(v@, x) {
                        let j = choose|j: int| 0 <= j < v@.len() && key_at(v@, j) == x;
                        if j < n {
                            assert(key_at(v0, j) == x);
                        }
                    }
                }
                assert forall|j: int| 0 <= j < v@.len() implies m[#[trigger] key_at(v@, j)] == v@[j].1 by {
                    if j < n {
                        lemma_table_map_at(v0, j);
                        assert(key_at(v@, j) == key_at(v0, j));
                    }
                }
                lemma_table_map_ext(v@, m);
            }
        },
    }
}

/// Removes the mapping of `key`, if there is one.
pub fn table_remove(v: &mut Vec<(MappingKey, MappingVal)>, key: &MappingKey)
    requires
        table_wf(old(v)@),
    ensures
        table_wf(final(v)@),
        table_map(final(v)@) == table_map(old(v)@).remove(key.key_view()),
{
    let ghost k = key.key_view();
    let ghost v0 = v@;
    let ghost m = table_map(v0).remove(k);
    match find_entry(v, key) {
        Some(i) => {
            v.remove(i);
            proof {
                let ii = i as int;
                assert forall|j: int| 0 <= j < v@.len() implies #[trigger] key_at(v@, j) == if j < ii {
                    key_at(v0, j)
                } else {
                    key_at(v0, j + 1)
                } by {}
                assert forall|a: int, b: int| 0 <= a < b < v@.len() implies key_at(v@, a) != key_at(v@, b) by {
                    let a0 = if a < ii { a } else { a + 1 };
                    let b0 = if b < ii { b } else { b + 1 };
                    assert(key_at(v@, a) == key_at(v0, a0));
                    assert(key_at(v@, b) == key_at(v0, b0));
                }
                assert forall|x: KeyView| #[trigger] m.contains_key(x) <==> table_has(v@, x) by {
                    if m.contains_key(x) {
                        let j = choose|j: int| 0 <= j < v0.len() && key_at(v0, j) == x;
                        assert(j != ii);
                        let j1 = if j < ii { j } else { j - 1 };
                        assert(key_at(v@, j1) == x);
                    }
                    if table_has(v@, x) {
                        let j = choose|j: int| 0 <= j < v@.len() && key_at(v@, j) == x;
                        let j0 = if j < ii { j } else { j + 1 };
                        assert(key_at(v0, j0) == x);
                        assert(x != k) by {
                            if j0 < ii {
                                assert(key_at(v0, j0) != key_at(v0, ii));
                            } else {
                                assert(key_at(v0, ii) != key_at(v0, j0));
                            }
                        }
                    }
                }
                assert forall|j: int| 0 <= j < v@.len() implies m[#[trigger] key_at(v@, j)] == v@[j].1 by {
                    let j0 = if j < ii { j } else { j + 1 };
                    lemma_table_map_at(v0, j0);
                    assert(key_at(v@, j) == key_at(v0, j0));
                    assert(v@[j] == v0[j0]);
                }
                lemma_table_map_ext(v@, m);
            }
        },
        None => {
            proof {
                assert(table_map(v0) =~= m);
            }
        },
    }
}

/// The map of the first `i + 1` entries adds the `i`-th to that of the first `i`.
pub proof fn lemma_table_map_take_push(v: Seq<(MappingKey, MappingVal)>, i: int)
    requires
        table_wf(v),
        0 <= i < v.len(),
    ensures
        table_map(v.take(i + 1)) == table_map(v.take(i)).insert(key_at(v, i), v[i].1),
{
    let a = v.take(i);
    let b = v.take(i + 1);
    let m = table_map(a).insert(key_at(v, i), v[i].1);
    assert forall|j: int| 0 <= j < b.len() implies #[trigger] key_at(b, j) == key_at(v, j) by {}
    assert forall|j: int| 0 <= j < a.len() implies #[trigger] key_at(a, j) == key_at(v, j) by {}
    assert forall|x: int, y: int| 0 <= x < y < a.len() implies key_at(a, x) != key_at(a, y) by {
        assert(key_at(a, x) == key_at(v, x));
        assert(key_at(a, y) == key_at(v, y));
    }
    assert forall|x: int, y: int| 0 <= x < y < b.len() implies key_at(b, x) != key_at(b, y) by {
        assert(key_at(b, x) == key_at(v, x));
        assert(key_at(b, y) == key_at(v, y));
    }
    assert forall|x: KeyView| #[trigger] m.contains_key(x) <==> table_has(b, x) by {
        if table_has(a, x) {
            let j = choose|j: int| 0 <= j < a.len() && key_at(a, j) == x;
            assert(key_at(b, j) == x);
        }
        if x == key_at(v, i) {
            assert(key_at(b, i) == x);
        }
        if table_has(b, x) {
            let j = choose|j: int| 0 <= j < b.len() && key_at(b, j) == x;
            if j < i {
                assert(key_at(a, j) == x);
            }
        }
    }
    assert forall|j: int| 0 <= j < b.len() implies m[#[trigger] key_at(b, j)] == b[j].1 by {
        if j < i {
            lemma_table_map_at(a, j);
            assert(key_at(a, j) == key_at(b, j));
            assert(key_at(v, j) != key_at(v, i));
        }
    }
    lemma_table_map_ext(b, m);
}

/// Some key of the list is `k`.
pub open spec fn keys_have(v: Seq<MappingKey>, k: KeyView) -> bool {
    exists|i: int| 0 <= i < v.len() && v[i].key_view() == k
}

/// The keys of a list, as a set.
pub open spec fn key_set(v: Seq<MappingKey>) -> Set<KeyView> {
    Set::new(|k: KeyView| keys_have(v, k))
}

/// Whether the list holds `key`.
pub fn keys_contain(v: &Vec<MappingKey>, key: &MappingKey) -> (r: bool)
    ensures
        r == key_set(v@).contains(key.key_view()),
{
    let mut i: usize = 0;
    while i < v.len()
        invariant
            i <= v@.len(),
            forall|j: int| 0 <= j < i ==> v@[j].key_view() != key.key_view(),
        decreases v@.len() - i,
    {
        if same_key(&v[i], key) {
            return true;
        }
        i = i + 1;
    }
    false
}

/// Adds `key` to the list unless it is there already.
pub fn keys_insert(v: &mut Vec<MappingKey>, key: MappingKey)
    ensures
        key_set(final(v)@) == key_set(old(v)@).insert(key.key_view()),
{
    let ghost v0 = v@;
    let ghost k = key.key_view();
    if keys_contain(v, &key) {
        assert(key_set(v0) =~= key_set(v0).insert(k));
    } else {
        v.push(key);
        proof {
            assert forall|x: KeyView| key_set(v@).contains(x) <==> key_set(v0).insert(k).contains(x) by {
                if keys_have(v0, x) {
                    let j = choose|j: int| 0 <= j < v0.len() && v0[j].key_view() == x;
                    assert(v@[j] == v0[j]);
                }
                if x == k {
                    assert(v@[v0.len() as int].key_view() == x);
                }
                if keys_have(v@, x) {
                    let j = choose|j: int| 0 <= j < v@.len() && v@[j].key_view() == x;
                    if j < v0.len() {
                        assert(v0[j] == v@[j]);
                    }
                }
            }
            assert(key_set(v@) =~= key_set(v0).insert(k));
        }
    }
}

/// Bakery's record of the IP mappings in the kernel.
#[derive(Debug)]
pub struct IpMappingState {
    /// Mappings believed live.
    pub current: Vec<(MappingKey, MappingVal)>,
    /// Mappings staged by the current batch, if one is open.
    pub staged: Option<Vec<(MappingKey, MappingVal)>>,
    /// Live mappings that belong to no known circuit; never deleted here.
    pub unknown: Vec<MappingKey>,
    /// Whether the live mappings have been read once.
    pub seeded: bool,
}

impl IpMappingState {
    /// Neither table repeats a key.
    pub open spec fn wf(self) -> bool {
        &&& table_wf(self.current@)
        &&& (self.staged matches Some(st) ==> table_wf(st@))
    }

    /// Mappings believed live.
    pub open spec fn current_map(self) -> Map<KeyView, MappingVal> {
        table_map(self.current@)
    }

    /// Mappings staged by the current batch, if one is open.
    pub open spec fn staged_map(self) -> Option<Map<KeyView, MappingVal>> {
        match self.staged {
            Some(st) => Some(table_map(st@)),
            None => None,
        }
    }

    /// Live mappings of unknown circuits.
    pub open spec fn unknown_set(self) -> Set<KeyView> {
        key_set(self.unknown@)
    }

    /// No mapping known yet, nothing staged, not seeded.
    pub fn new() -> (r: IpMappingState)
        ensures
            r.wf(),
            r.current_map() == Map::<KeyView, MappingVal>::empty(),
            r.staged_map() is None,
            r.unknown_set() == Set::<KeyView>::empty(),
            !r.seeded,
    {
        let r = IpMappingState { current: Vec::new(), staged: None, unknown: Vec::new(), seeded: false };
        assert(r.current_map() =~= Map::<KeyView, MappingVal>::empty());
        assert(r.unknown_set() =~= Set::<KeyView>::empty());
        r
    }

    /// Stages a mapping of `ip_address` to `tc_handle` on `cpu`, opening the
    /// staged set if none is open.
    pub fn handle_map_ip(&mut self, ip_address: &str, tc_handle: TcHandle, cpu: u32)
        requires
            old(self).wf(),
        ensures
            final(self).wf(),
            final(self).staged_map() == Some(
                match old(self).staged_map() {
                    Some(m) => m,
                    None => Map::<KeyView, MappingVal>::empty(),
                }.insert(parsed_ip(ip_address@), MappingVal { handle: tc_handle, cpu }),
            ),
            final(self).current == old(self).current,
            final(self).unknown == old(self).unknown,
            final(self).seeded == old(self).seeded,
    {
        let key = mapping_key_for(ip_address);
        let mut stage = match self.staged.take() {
            Some(st) => st,
            None => {
                let empty: Vec<(MappingKey, MappingVal)> = Vec::new();
                assert(table_map(empty@) =~= Map::<KeyView, MappingVal>::empty());
                empty
            },
        };
        table_upsert(&mut stage, key, MappingVal { handle: tc_handle, cpu });
        self.staged = Some(stage);
    }

    /// Forgets the mapping of `ip_address`, staged and live.
    pub fn handle_del_ip(&mut self, ip_address: &str)
        requires
            old(self).wf(),
        ensures
            final(self).wf(),
            final(self).staged_map() == match old(self).staged_map() {
                Some(m) => Some(m.remove(parsed_ip(ip_address@))),
                None => None,
            },
            final(self).current_map() == old(self).current_map().remove(parsed_ip(ip_address@)),
            final(self).unknown == old(self).unknown,
            final(self).seeded == old(self).seeded,
    {
        let key = mapping_key_for(ip_address);
        match self.staged.take() {
            Some(mut st) => {
                table_remove(&mut st, &key);
                self.staged = Some(st);
            },
            None => {},
        }
        table_remove(&mut self.current, &key);
    }

    /// Forgets every mapping, live, staged and unknown.
    pub fn clear_ip_all(&mut self)
        ensures
            final(self).wf(),
            final(self).current_map() == Map::<KeyView, MappingVal>::empty(),
            final(self).staged_map() is None,
            final(self).unknown_set() == Set::<KeyView>::empty(),
            final(self).seeded == old(self).seeded,
    {
        self.current = Vec::new();
        self.unknown = Vec::new();
        self.staged = None;
        assert(self.current_map() =~= Map::<KeyView, MappingVal>::empty());
        assert(self.unknown_set() =~= Set::<KeyView>::empty());
    }
}

/// Keys of a table's first entries, in order, that are neither unknown nor
/// staged: the mappings a commit deletes.
pub open spec fn stale_keys(
    cur: Seq<(MappingKey, MappingVal)>,
    unknown: Set<KeyView>,
    staged: Map<KeyView, MappingVal>,
) -> Seq<KeyView>
    decreases cur.len(),
{
    if cur.len() == 0 {
        Seq::empty()
    } else {
        let rest = stale_keys(cur.drop_last(), unknown, staged);
        let k = cur.last().0.key_view();
        if !unknown.contains(k) && !staged.contains_key(k) {
            rest.push(k)
        } else {
            rest
        }
    }
}

/// The live mappings after a commit: the live ones of unknown circuits and
/// the staged ones, a staged mapping replacing a live one.
pub open spec fn committed_map(
    cur: Map<KeyView, MappingVal>,
    unknown: Set<KeyView>,
    staged: Map<KeyView, MappingVal>,
) -> Map<KeyView, MappingVal> {
    Map::new(
        |k: KeyView| (cur.contains_key(k) && unknown.contains(k)) || staged.contains_key(k),
        |k: KeyView|
            if staged.contains_key(k) {
                staged[k]
            } else {
                cur[k]
            },
    )
}

/// The keys of the first `j + 1` list entries add the `j`-th to those of the first `j`.
pub proof fn lemma_key_set_take_push(v: Seq<MappingKey>, j: int)
    requires
        0 <= j < v.len(),
    ensures
        key_set(v.take(j + 1)) == key_set(v.take(j)).insert(v[j].key_view()),
{
    let a = v.take(j);
    let b = v.take(j + 1);
    assert forall|x: KeyView| key_set(b).contains(x) <==> key_set(a).insert(v[j].key_view()).contains(x) by {
        if keys_have(a, x) {
            let t = choose|t: int| 0 <= t < a.len() && a[t].key_view() == x;
            assert(b[t] == a[t]);
        }
        if x == v[j].key_view() {
            assert(b[j].key_view() == x);
        }
        if keys_have(b, x) {
            let t = choose|t: int| 0 <= t < b.len() && b[t].key_view() == x;
            if t < j {
                assert(a[t] == b[t]);
            }
        }
    }
    assert(key_set(b) =~= key_set(a).insert(v[j].key_view()));
}

impl IpMappingState {
    /// Commits the staged mappings: the live mappings that are neither
    /// unknown nor staged are stale and dropped, then the staged ones
    /// replace the live ones. Returns, in the order of the live table, the
    /// addresses whose stale mappings the kernel must delete (see
    /// [`deletion_ip`]). Without a staged set nothing changes.
    pub fn commit_mappings(&mut self) -> (r: Vec<String>)
        requires
            old(self).wf(),
        ensures
            final(self).wf(),
            final(self).unknown == old(self).unknown,
            final(self).seeded == old(self).seeded,
            final(self).staged_map() is None,
            match old(self).staged_map() {
                None => final(self).current == old(self).current && r@.len() == 0,
                Some(st) => {
                    let sk = stale_keys(old(self).current@, old(self).unknown_set(), st);
                    &&& final(self).current_map() == committed_map(
                        old(self).current_map(),
                        old(self).unknown_set(),
                        st,
                    )
                    &&& r@.len() == sk.len()
                    &&& forall|t: int| 0 <= t < sk.len() ==> #[trigger] r@[t]@ == deletion_ip(sk[t])
                },
            },
    {
        let staged = match self.staged.take() {
            Some(st) => st,
            None => return Vec::new(),
        };
        let ghost cur0 = self.current@;
        let ghost m0 = table_map(cur0);
        let ghost unk = self.unknown_set();
        let ghost stm = table_map(staged@);
        let ghost u0 = self.unknown;
        let ghost seeded0 = self.seeded;
        let mut stale: Vec<MappingKey> = Vec::new();
        let mut out: Vec<String> = Vec::new();
        let mut i: usize = 0;
        while i < self.current.len()
            invariant
                self.current@ == cur0,
                self.unknown == u0,
                self.seeded == seeded0,
                self.staged is None,
                self.unknown_set() == unk,
                table_map(staged@) == stm,
                i <= cur0.len(),
                stale@.len() == stale_keys(cur0.take(i as int), unk, stm).len(),
                out@.len() == stale@.len(),
                forall|t: int| 0 <= t < stale@.len() ==> #[trigger] stale@[t].key_view() == stale_keys(
                    cur0.take(i as int),
                    unk,
                    stm,
                )[t],
                forall|t: int| 0 <= t < out@.len() ==> #[trigger] out@[t]@ == deletion_ip(stale@[t].key_view()),
                forall|x: KeyView|
                    #[trigger] key_set(stale@).contains(x) <==> (table_has(cur0.take(i as int), x) && !unk.contains(
                        x,
                    ) && !stm.contains_key(x)),
            decreases cur0.len() - i,
        {
            let ghost before = stale@;
            assert(forall|x: KeyView|
                #[trigger] key_set(before).contains(x) <==> (table_has(cur0.take(i as int), x) && !unk.contains(x)
                    && !stm.contains_key(x)));
            let k = &self.current[i].0;
            let known = keys_contain(&self.unknown, k);
            let in_stage = find_entry(&staged, k).is_some();
            proof {
                assert(k.key_view() == key_at(cur0, i as int));
                assert(known == unk.contains(key_at(cur0, i as int)));
                assert(in_stage == stm.contains_key(key_at(cur0, i as int)));
                let a = cur0.take(i as int);
                let b = cur0.take(i + 1);
                assert(b.drop_last() =~= a);
                assert(b.last() == cur0[i as int]);
                assert forall|x: KeyView| table_has(b, x) <==> (table_has(a, x) || x == key_at(cur0, i as int)) by {
                    if table_has(a, x) {
                        let j = choose|j: int| 0 <= j < a.len() && key_at(a, j) == x;
                        assert(key_at(b, j) == x);
                    }
                    if x == key_at(cur0, i as int) {
                        assert(key_at(b, i as int) == x);
                    }
                    if table_has(b, x) {
                        let j = choose|j: int| 0 <= j < b.len() && key_at(b, j) == x;
                        if j < i {
                            assert(key_at(a, j) == x);
                        }
                    }
                }
            }
            if !known && !in_stage {
                out.push(mapping_deletion_ip(k));
                stale.push(k.duplicate());
                proof {
                    assert(stale@.take(before.len() as int) =~= before);
                    lemma_key_set_take_push(stale@, before.len() as int);
                    assert(stale@.take(stale@.len() as int) =~= stale@);
                    assert(key_set(stale@) == key_set(before).insert(key_at(cur0, i as int)));
                }
            }
            proof {
                let a = cur0.take(i as int);
                let b = cur0.take(i + 1);
                let kk = key_at(cur0, i as int);
                assert forall|x: KeyView|
                    key_set(stale@).contains(x) <==> (table_has(b, x) && !unk.contains(x) && !stm.contains_key(x)) by {
                    assert(table_has(b, x) <==> (table_has(a, x) || x == kk));
                    assert(key_set(before).contains(x) <==> (table_has(a, x) && !unk.contains(x) && !stm.contains_key(x)));
                }
            }
            i = i + 1;
        }
        assert(cur0.take(cur0.len() as int) =~= cur0);
        proof {
            assert forall|x: KeyView| table_has(cur0, x) <==> m0.contains_key(x) by {}
        }
        let mut j: usize = 0;
        while j < stale.len()
            invariant
                j <= stale@.len(),
                table_wf(self.current@),
                self.current_map() == m0.remove_keys(key_set(stale@.take(j as int))),
                self.unknown == u0,
                self.seeded == seeded0,
                self.staged is None,
                self.unknown_set() == unk,
            decreases stale@.len() - j,
        {
            table_remove(&mut self.current, &stale[j]);
            proof {
                lemma_key_set_take_push(stale@, j as int);
                assert(m0.remove_keys(key_set(stale@.take(j + 1))) =~= m0.remove_keys(
                    key_set(stale@.take(j as int)),
                ).remove(stale@[j as int].key_view()));
            }
            j = j + 1;
        }
        assert(stale@.take(stale@.len() as int) =~= stale@);
        let ghost base = self.current_map();
        let mut t: usize = 0;
        while t < staged.len()
            invariant
                t <= staged@.len(),
                table_wf(staged@),
                table_map(staged@) == stm,
                table_wf(self.current@),
                self.current_map() == base.union_prefer_right(table_map(staged@.take(t as int))),
                self.unknown == u0,
                self.seeded == seeded0,
                self.unknown_set() == unk,
                self.staged is None,
            decreases staged@.len() - t,
        {
            let (k, v) = (staged[t].0.duplicate(), staged[t].1);
            table_upsert(&mut self.current, k, v);
            proof {
                lemma_table_map_take_push(staged@, t as int);
                assert(base.union_prefer_right(table_map(staged@.take(t + 1))) =~= base.union_prefer_right(
                    table_map(staged@.take(t as int)),
                ).insert(key_at(staged@, t as int), staged@[t as int].1));
            }
            t = t + 1;
        }
        proof {
            assert(staged@.take(staged@.len() as int) =~= staged@);
            assert(self.current_map() =~= committed_map(m0, unk, stm));
        }
        out
    }
}

/// The down class handles of the circuits.
pub open spec fn known_handles(circuits: Map<i64, BakeryCommands>) -> Set<u32> {
    Set::new(
        |h: u32|
            exists|id: i64|
                #![trigger circuits[id]]
                circuits.contains_key(id) && (circuit_handles_of(circuits[id]) matches Some(p) && p.0.0 == h),
    )
}

/// The down class handles of the circuits, to tell mappings of known
/// circuits from the others.
pub fn build_known_handle_set(circuits: &HashMap<i64, BakeryCommands>) -> (r: HashSet<u32>)
    ensures
        r@ == known_handles(circuits@),
{
    let ids = map_keys(circuits);
    let mut known: HashSet<u32> = HashSet::new();
    let mut i: usize = 0;
    while i < ids.len()
        invariant
            i <= ids@.len(),
            ids@.to_set() == circuits@.dom(),
            forall|h: u32|
                #[trigger] known@.contains(h) <==> exists|j: int|
                    #![trigger ids@[j]]
                    0 <= j < i && circuits@.contains_key(ids@[j]) && (circuit_handles_of(circuits@[ids@[j]]) matches Some(
                        p,
                    ) && p.0.0 == h),
        decreases ids@.len() - i,
    {
        let id = ids[i];
        let ghost before = known@;
        assert(ids@.to_set().contains(id));
        if let Some(cmd) = circuits.get(&id) {
            if let Some((down, _up)) = circuit_class_handles(cmd) {
                known.insert(down.0);
            }
        }
        proof {
            assert forall|h: u32| #[trigger] known@.contains(h) <==> exists|j: int|
                #![trigger ids@[j]]
                0 <= j < i + 1 && circuits@.contains_key(ids@[j]) && (circuit_handles_of(circuits@[ids@[j]]) matches Some(
                    p,
                ) && p.0.0 == h) by {
                if known@.contains(h) && !before.contains(h) {
                    assert(ids@[i as int] == id);
                }
                if exists|j: int|
                    #![trigger ids@[j]]
                    0 <= j < i + 1 && circuits@.contains_key(ids@[j]) && (circuit_handles_of(circuits@[ids@[j]]) matches Some(
                        p,
                    ) && p.0.0 == h) {
                    let j = choose|j: int|
                        #![trigger ids@[j]]
                        0 <= j < i + 1 && circuits@.contains_key(ids@[j]) && (circuit_handles_of(circuits@[ids@[j]]) matches Some(
                            p,
                        ) && p.0.0 == h);
                    if j == i {
                        assert(known@.contains(h));
                    } else {
                        assert(before.contains(h));
                    }
                }
            }
        }
        i = i + 1;
    }
    proof {
        assert forall|h: u32| known@.contains(h) <==> known_handles(circuits@).contains(h) by {
            if known_handles(circuits@).contains(h) {
                let id = choose|id: i64|
                    #![trigger circuits@[id]]
                    circuits@.contains_key(id) && (circuit_handles_of(circuits@[id]) matches Some(p) && p.0.0 == h);
                assert(ids@.to_set().contains(id));
                let j = choose|j: int| 0 <= j < ids@.len() && ids@[j] == id;
                assert(ids@[j] == id);
            }
        }
        assert(known@ =~= known_handles(circuits@));
    }
    known
}

/// One mapping as listed by the kernel's IP table.
#[derive(Debug)]
pub struct ListedMapping {
    /// Address, without the prefix.
    pub ip_address: String,
    /// Prefix length.
    pub prefix_length: u32,
    /// Class the address is mapped to.
    pub tc_handle: TcHandle,
    /// CPU that handles the address.
    pub cpu: u32,
}

/// Key of a listed mapping.
pub open spec fn listed_key(l: ListedMapping) -> KeyView {
    (l.ip_address@, l.prefix_length)
}

/// `m` with the listed mappings recorded in order, a later one replacing
/// an earlier one of the same key.
pub open spec fn seeded_map(m: Map<KeyView, MappingVal>, listed: Seq<ListedMapping>) -> Map<
    KeyView,
    MappingVal,
>
    decreases listed.len(),
{
    if listed.len() == 0 {
        m
    } else {
        seeded_map(m, listed.drop_last()).insert(
            listed_key(listed.last()),
            MappingVal { handle: listed.last().tc_handle, cpu: listed.last().cpu },
        )
    }
}

/// Keys of the listed mappings whose class is not a known circuit's.
pub open spec fn unknown_listed(known: Set<u32>, listed: Seq<ListedMapping>) -> Set<KeyView> {
    Set::new(
        |k: KeyView|
            exists|i: int|
                #![trigger listed[i]]
                0 <= i < listed.len() && listed_key(listed[i]) == k && !known.contains(listed[i].tc_handle.0),
    )
}

impl IpMappingState {
    /// Records the mappings the kernel listed: each becomes live, and one
    /// whose class belongs to no known circuit is also marked unknown. The
    /// record is then seeded.
    pub fn seed_mappings(&mut self, circuits: &HashMap<i64, BakeryCommands>, listed: &Vec<ListedMapping>)
        requires
            old(self).wf(),
        ensures
            final(self).wf(),
            final(self).current_map() == seeded_map(old(self).current_map(), listed@),
            final(self).unknown_set() == old(self).unknown_set().union(
                unknown_listed(known_handles(circuits@), listed@),
            ),
            final(self).staged == old(self).staged,
            final(self).seeded,
    {
        let known = build_known_handle_set(circuits);
        let ghost m0 = self.current_map();
        let ghost u0 = self.unknown_set();
        let ghost st0 = self.staged;
        let mut i: usize = 0;
        while i < listed.len()
            invariant
                i <= listed@.len(),
                known@ == known_handles(circuits@),
                table_wf(self.current@),
                self.staged == st0,
                self.current_map() == seeded_map(m0, listed@.take(i as int)),
                self.unknown_set() == u0.union(unknown_listed(known@, listed@.take(i as int))),
            decreases listed@.len() - i,
        {
            let entry = &listed[i];
            let key = MappingKey { ip: entry.ip_address.clone(), prefix: entry.prefix_length };
            if !known.contains(&entry.tc_handle.0) {
                keys_insert(&mut self.unknown, key.duplicate());
            }
            table_upsert(&mut self.current, key, MappingVal { handle: entry.tc_handle, cpu: entry.cpu });
            proof {
                let a = listed@.take(i as int);
                let b = listed@.take(i + 1);
                assert(b.drop_last() =~= a);
                assert(b.last() == listed@[i as int]);
                assert forall|k: KeyView| #[trigger] unknown_listed(known@, b).contains(k) <==> (unknown_listed(
                    known@,
                    a,
                ).contains(k) || (k == listed_key(listed@[i as int]) && !known@.contains(
                    listed@[i as int].tc_handle.0,
                ))) by {
                    if unknown_listed(known@, a).contains(k) {
                        let j = choose|j: int|
                            #![trigger a[j]]
                            0 <= j < a.len() && listed_key(a[j]) == k && !known@.contains(a[j].tc_handle.0);
                        assert(b[j] == a[j]);
                    }
                    if k == listed_key(listed@[i as int]) && !known@.contains(listed@[i as int].tc_handle.0) {
                        assert(b[i as int] == listed@[i as int]);
                    }
                    if unknown_listed(known@, b).contains(k) {
                        let j = choose|j: int|
                            #![trigger b[j]]
                            0 <= j < b.len() && listed_key(b[j]) == k && !known@.contains(b[j].tc_handle.0);
                        if j < i {
                            assert(a[j] == b[j]);
                        }
                    }
                }
                assert(self.unknown_set() =~= u0.union(unknown_listed(known@, b)));
            }
            i = i + 1;
        }
        assert(listed@.take(listed@.len() as int) =~= listed@);
        self.seeded = true;
    }
}

/// What remapping one address of a migrating circuit needs: its key, its
/// `<ip>/<prefix>` text, the mapping it had and the CPU to keep.
#[derive(Debug)]
pub struct RemapStep {
    /// The address's key.
    pub key: MappingKey,
    /// `<ip>/<prefix>`.
    pub cidr: String,
    /// Its mapping before the remap, if any.
    pub previous: Option<MappingVal>,
    /// CPU to keep: the previous mapping's, else 0.
    pub cpu: u32,
}

impl IpMappingState {
    /// Prepares the remap of one address (see [`RemapStep`]).
    pub fn remap_step(&self, ip_address: &str) -> (r: RemapStep)
        requires
            self.wf(),
        ensures
            r.key.key_view() == parsed_ip(ip_address@),
            r.cidr@ == cidr_of(parsed_ip(ip_address@)),
            r.previous == self.current_map().get(parsed_ip(ip_address@)),
            r.cpu == match r.previous {
                Some(v) => v.cpu,
                None => 0,
            },
    {
        let key = mapping_key_for(ip_address);
        let cidr = mapping_key_cidr(&key);
        let previous = table_get(&self.current, &key);
        let cpu = match previous {
            Some(v) => v.cpu,
            None => 0,
        };
        RemapStep { key, cidr, previous, cpu }
    }

    /// Records that an address now maps to `handle` on `cpu`.
    pub fn record_remap(&mut self, key: MappingKey, handle: TcHandle, cpu: u32)
        requires
            old(self).wf(),
        ensures
            final(self).wf(),
            final(self).current_map() == old(self).current_map().insert(key.key_view(), MappingVal { handle, cpu }),
            final(self).staged == old(self).staged,
            final(self).unknown == old(self).unknown,
            final(self).seeded == old(self).seeded,
    {
        table_upsert(&mut self.current, key, MappingVal { handle, cpu });
    }

    /// Records that an address was put back as it was: to its previous
    /// mapping, or unmapped when it had none.
    pub fn record_rollback(&mut self, key: &MappingKey, previous: Option<MappingVal>)
        requires
            old(self).wf(),
        ensures
            final(self).wf(),
            final(self).current_map() == match previous {
                Some(v) => old(self).current_map().insert(key.key_view(), v),
                None => old(self).current_map().remove(key.key_view()),
            },
            final(self).staged == old(self).staged,
            final(self).unknown == old(self).unknown,
            final(self).seeded == old(self).seeded,
    {
        match previous {
            Some(v) => table_upsert(&mut self.current, key.duplicate(), v),
            None => table_remove(&mut self.current, key),
        }
    }
}

/// `failed to remap <cidr> to <target>: <error>; ` then `rollback also failed: <r>`
/// or `prior remaps were rolled back`.
pub open spec fn remap_failure_text(cidr: Seq<char>, target: u32, error: Seq<char>, rollback: Option<Seq<char>>) -> Seq<
    char,
> {
    "failed to remap "@ + cidr + " to "@ + tc_seq(target) + ": "@ + error + match rollback {
        Some(r) => "; rollback also failed: "@ + r,
        None => "; prior remaps were rolled back"@,
    }
}

/// Why remapping an address of a migrating circuit failed.
pub fn remap_failure_message(cidr: &str, target: TcHandle, error: &str, rollback_error: Option<&str>) -> (r: String)
    ensures
        r@ == remap_failure_text(
            cidr@,
            target.0,
            error@,
            match rollback_error {
                Some(e) => Some(e@),
                None => None,
            },
        ),
{
    let mut s = owned("failed to remap ");
    append_str(&mut s, cidr);
    append_str(&mut s, " to ");
    append_str(&mut s, target.as_tc_string().as_str());
    append_str(&mut s, ": ");
    append_str(&mut s, error);
    match rollback_error {
        Some(e) => {
            append_str(&mut s, "; rollback also failed: ");
            append_str(&mut s, e);
        },
        None => append_str(&mut s, "; prior remaps were rolled back"),
    }
    s
}

/// `remap to <target> succeeded but clearing the hot cache failed: <error>; `
/// then `rollback also failed: <r>` or `remaps were rolled back`.
pub open spec fn hot_cache_failure_text(target: u32, error: Seq<char>, rollback: Option<Seq<char>>) -> Seq<char> {
    "remap to "@ + tc_seq(target) + " succeeded but clearing the hot cache failed: "@ + error + match rollback {
        Some(r) => "; rollback also failed: "@ + r,
        None => "; remaps were rolled back"@,
    }
}

/// Why a remap that succeeded was undone: the hot cache could not be cleared.
pub fn hot_cache_failure_message(target: TcHandle, error: &str, rollback_error: Option<&str>) -> (r: String)
    ensures
        r@ == hot_cache_failure_text(
            target.0,
            error@,
            match rollback_error {
                Some(e) => Some(e@),
                None => None,
            },
        ),
{
    let mut s = owned("remap to ");
    append_str(&mut s, target.as_tc_string().as_str());
    append_str(&mut s, " succeeded but clearing the hot cache failed: ");
    append_str(&mut s, error);
    match rollback_error {
        Some(e) => {
            append_str(&mut s, "; rollback also failed: ");
            append_str(&mut s, e);
        },
        None => append_str(&mut s, "; remaps were rolled back"),
    }
    s
}

/// The failures of a rollback joined by `; `, or `None` when it all went back.
pub fn rollback_failure_summary(failures: &Vec<String>) -> (r: Option<String>)
    ensures
        failures@.len() == 0 ==> r is None,
        failures@.len() > 0 ==> (r matches Some(s) && s@ == join_seqs(string_seqs(failures@), "; "@)),
{
    if failures.len() == 0 {
        None
    } else {
        Some(join_strings(failures, "; "))
    }
}

/// The kernel's table of IP-to-class mappings.
pub trait IpFlowTable {
    /// Maps an address (`<ip>/<prefix>`) to a class and CPU.
    fn add_ip_to_tc(&mut self, cidr: &str, handle: TcHandle, cpu: u32) -> Result<(), String>;

    /// Removes an address's mapping.
    fn del_ip_from_tc(&mut self, cidr: &str) -> Result<(), String>;

    /// Drops the kernel's cache of recent lookups.
    fn clear_hot_cache(&mut self) -> Result<(), String>;
}

/// `m` after each address of `ips`, in order, was mapped to `target`,
/// keeping the CPU of its mapping at that point (0 when it had none).
pub open spec fn remapped_map(m: Map<KeyView, MappingVal>, ips: Seq<String>, target: TcHandle) -> Map<
    KeyView,
    MappingVal,
>
    decreases ips.len(),
{
    if ips.len() == 0 {
        m
    } else {
        let before = remapped_map(m, ips.drop_last(), target);
        let k = parsed_ip(ips.last()@);
        before.insert(
            k,
            MappingVal {
                handle: target,
                cpu: match before.get(k) {
                    Some(v) => v.cpu,
                    None => 0,
                },
            },
        )
    }
}

/// One rollback request's effect on the record: when the table took it
/// (`out` is `None`), the address is back at its previous mapping, or
/// unmapped when it had none; when it failed, the record stays.
pub open spec fn rollback_step(
    m: Map<KeyView, MappingVal>,
    entry: (MappingKey, Option<MappingVal>),
    out: Option<Seq<char>>,
) -> Map<KeyView, MappingVal> {
    match out {
        Some(_) => m,
        None => match entry.1 {
            Some(v) => m.insert(entry.0.key_view(), v),
            None => m.remove(entry.0.key_view()),
        },
    }
}

/// The record after the first `outs.len()` rollback requests, newest entry
/// of `remapped` first; `outs[k]` is the table's answer to the k-th request
/// (`None` for success, else the error text).
pub open spec fn rolled_back_map(
    m: Map<KeyView, MappingVal>,
    remapped: Seq<(MappingKey, Option<MappingVal>)>,
    outs: Seq<Option<Seq<char>>>,
) -> Map<KeyView, MappingVal>
    decreases outs.len(),
{
    if outs.len() == 0 {
        m
    } else {
        rollback_step(
            rolled_back_map(m, remapped, outs.drop_last()),
            remapped[remapped.len() - outs.len()],
            outs.last(),
        )
    }
}

/// `<cidr>: <error>`
pub open spec fn failure_line(what: Seq<char>, error: Seq<char>) -> Seq<char> {
    what + ": "@ + error
}

/// The failure lines of the first `outs.len()` rollback requests, in the
/// order they were made: `<cidr>: <error>` for each request that failed.
pub open spec fn rollback_failures(
    remapped: Seq<(MappingKey, Option<MappingVal>)>,
    outs: Seq<Option<Seq<char>>>,
) -> Seq<Seq<char>>
    decreases outs.len(),
{
    if outs.len() == 0 {
        Seq::empty()
    } else {
        let earlier = rollback_failures(remapped, outs.drop_last());
        match outs.last() {
            Some(e) => earlier.push(
                failure_line(cidr_of(remapped[remapped.len() - outs.len()].0.key_view()), e),
            ),
            None => earlier,
        }
    }
}

/// What a rollback of `remapped` did, given the table's answer to each
/// request (`outs`, in the order made) and to the cache clear (`hot`): the
/// record `m1` follows every request that succeeded; the result is `Ok` when
/// nothing failed, else the failure lines (the cache clear's last) joined
/// by `; `.
pub open spec fn rollback_outcome(
    m0: Map<KeyView, MappingVal>,
    m1: Map<KeyView, MappingVal>,
    remapped: Seq<(MappingKey, Option<MappingVal>)>,
    outs: Seq<Option<Seq<char>>>,
    hot: Option<Seq<char>>,
    r: Result<(), String>,
) -> bool {
    let failures = match hot {
        Some(e) => rollback_failures(remapped, outs).push(
            failure_line("clear hot cache after rollback"@, e),
        ),
        None => rollback_failures(remapped, outs),
    };
    &&& outs.len() == remapped.len()
    &&& m1 == rolled_back_map(m0, remapped, outs)
    &&& if failures.len() == 0 {
        r is Ok
    } else {
        r matches Err(e) && e@ == join_seqs(failures, "; "@)
    }
}

/// `<cidr>: <error>`
fn rollback_entry_failure(cidr: &str, error: &str) -> (r: String)
    ensures
        r@ == failure_line(cidr@, error@),
{
    let mut s = owned(cidr);
    append_str(&mut s, ": ");
    append_str(&mut s, error);
    s
}

/// Puts the remapped addresses back, newest first: each to its previous
/// mapping, or unmapped when it had none; then clears the hot cache. The
/// record follows each step that succeeded. Fails with the failures joined
/// by `; ` (see [`rollback_outcome`]). What the table answers to each
/// request is its own.
pub fn rollback_migration_ip_remaps<T: IpFlowTable>(
    remapped: &Vec<(MappingKey, Option<MappingVal>)>,
    mappings: &mut IpMappingState,
    table: &mut T,
) -> (r: Result<(), String>)
    requires
        old(mappings).wf(),
    ensures
        final(mappings).wf(),
        final(mappings).staged == old(mappings).staged,
        final(mappings).unknown == old(mappings).unknown,
        final(mappings).seeded == old(mappings).seeded,
        exists|outs: Seq<Option<Seq<char>>>, hot: Option<Seq<char>>|
            #[trigger] rollback_outcome(
                old(mappings).current_map(),
                final(mappings).current_map(),
                remapped@,
                outs,
                hot,
                r,
            ),
{
    let ghost m0 = mappings.current_map();
    let ghost mut outs: Seq<Option<Seq<char>>> = Seq::empty();
    let mut failures: Vec<String> = Vec::new();
    let mut i: usize = remapped.len();
    while i > 0
        invariant
            i <= remapped@.len(),
            outs.len() == remapped@.len() - i,
            mappings.wf(),
            mappings.staged == old(mappings).staged,
            mappings.unknown == old(mappings).unknown,
            mappings.seeded == old(mappings).seeded,
            mappings.current_map() == rolled_back_map(m0, remapped@, outs),
            string_seqs(failures@) == rollback_failures(remapped@, outs),
        decreases i,
    {
        i = i - 1;
        let key = &remapped[i].0;
        let previous = remapped[i].1;
        let cidr = mapping_key_cidr(key);
        let result = match previous {
            Some(p) => table.add_ip_to_tc(cidr.as_str(), p.handle, p.cpu),
            None => table.del_ip_from_tc(cidr.as_str()),
        };
        let ghost before = outs;
        match result {
            Ok(()) => {
                mappings.record_rollback(key, previous);
                proof {
                    outs = outs.push(None);
                    assert(outs.drop_last() =~= before);
                }
            },
            Err(error) => {
                let line = rollback_entry_failure(cidr.as_str(), error.as_str());
                let ghost f0 = failures@;
                failures.push(line);
                proof {
                    outs = outs.push(Some(error@));
                    assert(outs.drop_last() =~= before);
                    assert(string_seqs(failures@) =~= string_seqs(f0).push(line@));
                }
            },
        }
    }
    let ghost f1 = failures@;
    let ghost mut hot: Option<Seq<char>> = None;
    match table.clear_hot_cache() {
        Ok(()) => {},
        Err(error) => {
            let line = rollback_entry_failure("clear hot cache after rollback", error.as_str());
            failures.push(line);
            proof {
                hot = Some(error@);
                assert(string_seqs(failures@) =~= string_seqs(f1).push(line@));
            }
        },
    }
    let r = match rollback_failure_summary(&failures) {
        None => Ok(()),
        Some(summary) => Err(summary),
    };
    assert(rollback_outcome(m0, mappings.current_map(), remapped@, outs, hot, r));
    r
}

/// Maps each address of a migrating circuit to its class with the given
/// minor (under the circuit's new down major), keeping each address's CPU,
/// then clears the hot cache. On the first failure the remaps made so far
/// are rolled back and the failure is described (see
/// [`remap_failure_text`], [`hot_cache_failure_text`]). When every request
/// succeeds the record holds the new mappings.
pub fn remap_migration_ips<T: IpFlowTable>(
    mig: &Migration,
    target_minor: u16,
    mappings: &mut IpMappingState,
    table: &mut T,
) -> (r: Result<(), String>)
    requires
        old(mappings).wf(),
    ensures
        final(mappings).wf(),
        final(mappings).staged == old(mappings).staged,
        final(mappings).unknown == old(mappings).unknown,
        final(mappings).seeded == old(mappings).seeded,
        r is Ok ==> final(mappings).current_map() == remapped_map(
            old(mappings).current_map(),
            mig.ips@,
            TcHandle(handle_value(mig.class_major, target_minor)),
        ),
        r matches Err(e) ==> (exists|cidr: Seq<char>, error: Seq<char>, rollback: Option<Seq<char>>|
            e@ == #[trigger] remap_failure_text(cidr, handle_value(mig.class_major, target_minor), error, rollback))
            || (exists|error: Seq<char>, rollback: Option<Seq<char>>|
            e@ == #[trigger] hot_cache_failure_text(handle_value(mig.class_major, target_minor), error, rollback)),
{
    let target = TcHandle::from_major_minor(mig.class_major, target_minor);
    let ghost m0 = mappings.current_map();
    let mut remapped: Vec<(MappingKey, Option<MappingVal>)> = Vec::new();
    let mut i: usize = 0;
    while i < mig.ips.len()
        invariant
            i <= mig.ips@.len(),
            mappings.wf(),
            mappings.staged == old(mappings).staged,
            mappings.unknown == old(mappings).unknown,
            mappings.seeded == old(mappings).seeded,
            mappings.current_map() == remapped_map(m0, mig.ips@.take(i as int), target),
            target.0 == handle_value(mig.class_major, target_minor),
        decreases mig.ips@.len() - i,
    {
        let step = mappings.remap_step(mig.ips[i].as_str());
        match table.add_ip_to_tc(step.cidr.as_str(), target, step.cpu) {
            Ok(()) => {},
            Err(error) => {
                let rollback = rollback_migration_ip_remaps(&remapped, mappings, table);
                let message = match &rollback {
                    Err(rb) => remap_failure_message(step.cidr.as_str(), target, error.as_str(), Some(rb.as_str())),
                    Ok(()) => remap_failure_message(step.cidr.as_str(), target, error.as_str(), None),
                };
                proof {
                    let rbv: Option<Seq<char>> = match rollback {
                        Err(rb) => Some(rb@),
                        Ok(()) => None,
                    };
                    assert(message@ == remap_failure_text(step.cidr@, target.0, error@, rbv));
                }
                return Err(message);
            },
        }
        let RemapStep { key, cidr: _, previous, cpu } = step;
        let kept = key.duplicate();
        mappings.record_remap(key, target, cpu);
        remapped.push((kept, previous));
        proof {
            let b = mig.ips@.take(i + 1);
            assert(b.drop_last() =~= mig.ips@.take(i as int));
            assert(b.last() == mig.ips@[i as int]);
        }
        i = i + 1;
    }
    assert(mig.ips@.take(mig.ips@.len() as int) =~= mig.ips@);
    match table.clear_hot_cache() {
        Ok(()) => Ok(()),
        Err(error) => {
            let rollback = rollback_migration_ip_remaps(&remapped, mappings, table);
            let message = match &rollback {
                Err(rb) => hot_cache_failure_message(target, error.as_str(), Some(rb.as_str())),
                Ok(()) => hot_cache_failure_message(target, error.as_str(), None),
            };
            proof {
                let rbv: Option<Seq<char>> = match rollback {
                    Err(rb) => Some(rb@),
                    Ok(()) => None,
                };
                assert(message@ == hot_cache_failure_text(target.0, error@, rbv));
            }
            Err(message)
        },
    }
}

} // verus!
