//! Checks over observed `tc` state: the retained root `mq`, managed children
//! beneath it, and the root `mq` commands used by a full reload.
use vstd::prelude::*;
use std::collections::{HashMap, HashSet};
use crate::commands::{qdisc_del_parent, qdisc_del_parent_argv};
use crate::maps::map_keys;
use crate::tc_handle::{vec_eq, TcHandle};
use crate::text::{append_str, chars_of, dec_seq, dec_string, lower_seq, lowercase_contains, owned, seq_contains};

verus! {

broadcast use vstd::std_specs::hash::group_hash_axioms;

/// Major number of the root `mq` qdisc that Bakery keeps across reloads.
pub const ROOT_MQ_MAJOR: u16 = 0x7fff;

/// One observed qdisc.
#[derive(Debug)]
pub struct LiveTcQdiscEntry {
    /// Qdisc kind, e.g. `mq`, `htb`, `cake`.
    pub kind: String,
    /// Qdisc handle, if any.
    pub handle: Option<TcHandle>,
    /// Parent handle; `None` at the root.
    pub parent: Option<TcHandle>,
    /// Whether the qdisc is attached at the root.
    pub is_root: bool,
}

/// One observed class.
#[derive(Debug)]
pub struct LiveTcClassEntry {
    /// Class id.
    pub class_id: TcHandle,
    /// Parent class, `None` beneath a qdisc root.
    pub parent: Option<TcHandle>,
    /// Major of the leaf qdisc attached to the class, if any.
    pub leaf_qdisc_major: Option<u16>,
}

/// A root `mq` with handle `7fff:`.
pub open spec fn is_retained_root_mq(e: LiveTcQdiscEntry) -> bool {
    &&& e.is_root
    &&& e.kind@ == "mq"@
    &&& e.handle matches Some(h) && h.major() == ROOT_MQ_MAJOR
}

/// The snapshot holds the retained root `mq`.
pub open spec fn has_retained_root_mq(s: Seq<LiveTcQdiscEntry>) -> bool {
    exists|i: int| 0 <= i < s.len() && is_retained_root_mq(#[trigger] s[i])
}

/// The first retained root `mq` of a qdisc snapshot, if any.
pub fn retained_root_mq_entry(snapshot: &Vec<LiveTcQdiscEntry>) -> (r: Option<&LiveTcQdiscEntry>)
    ensures
        match r {
            Some(e) => exists|i: int|
                {
                    &&& 0 <= i < snapshot@.len()
                    &&& *e == snapshot@[i]
                    &&& is_retained_root_mq(snapshot@[i])
                    &&& forall|j: int| 0 <= j < i ==> !is_retained_root_mq(#[trigger] snapshot@[j])
                },
            None => !has_retained_root_mq(snapshot@),
        },
{
    let mq = chars_of("mq");
    let mut i: usize = 0;
    while i < snapshot.len()
        invariant
            i <= snapshot@.len(),
            mq@ == "mq"@,
            forall|j: int| 0 <= j < i ==> !is_retained_root_mq(#[trigger] snapshot@[j]),
        decreases snapshot@.len() - i,
    {
        let e = &snapshot[i];
        let is_mq = vec_eq(&chars_of(e.kind.as_str()), &mq);
        let major_ok = match e.handle {
            Some(h) => h.get_major_minor().0 == ROOT_MQ_MAJOR,
            None => false,
        };
        if e.is_root && is_mq && major_ok {
            return Some(e);
        }
        i = i + 1;
    }
    None
}

/// A qdisc with a handle of its own, attached directly beneath the root `mq`.
pub open spec fn is_root_child(e: LiveTcQdiscEntry) -> bool {
    &&& e.parent matches Some(p) && p.major() == ROOT_MQ_MAJOR
    &&& e.handle matches Some(h) && h.major() != 0
}

/// The parents of the qdiscs attached beneath the root `mq`.
pub open spec fn root_child_parents(s: Seq<LiveTcQdiscEntry>) -> Set<TcHandle> {
    Set::new(
        |p: TcHandle|
            exists|i: int| 0 <= i < s.len() && is_root_child(#[trigger] s[i]) && s[i].parent == Some(p),
    )
}

/// Whether a handle occurs in a list.
fn handle_in(v: &Vec<TcHandle>, h: TcHandle) -> (r: bool)
    ensures
        r == v@.contains(h),
{
    let mut i: usize = 0;
    while i < v.len()
        invariant
            i <= v@.len(),
            forall|j: int| 0 <= j < i ==> v@[j] != h,
        decreases v@.len() - i,
    {
        if v[i] == h {
            return true;
        }
        i = i + 1;
    }
    false
}

/// The distinct parents (beneath the root `mq`) of managed child qdiscs, in
/// order of first appearance.
pub fn managed_root_child_parent_handles(snapshot: &Vec<LiveTcQdiscEntry>) -> (r: Vec<TcHandle>)
    ensures
        r@.no_duplicates(),
        r@.to_set() == root_child_parents(snapshot@),
        r@.len() == root_child_parents(snapshot@).len(),
{
    let ghost s = snapshot@;
    let mut out: Vec<TcHandle> = Vec::new();
    let mut i: usize = 0;
    assert(root_child_parents(s.take(0)) =~= Set::<TcHandle>::empty());
    assert(out@.to_set() =~= Set::<TcHandle>::empty());
    while i < snapshot.len()
        invariant
            s == snapshot@,
            i <= s.len(),
            out@.no_duplicates(),
            out@.to_set() == root_child_parents(s.take(i as int)),
        decreases s.len() - i,
    {
        let e = &snapshot[i];
        let ghost before = out@;
        let ghost prev = root_child_parents(s.take(i as int));
        let child = match (e.parent, e.handle) {
            (Some(p), Some(h)) => p.get_major_minor().0 == ROOT_MQ_MAJOR && h.get_major_minor().0 != 0,
            _ => false,
        };
        if child {
            let p = e.parent.unwrap();
            if !handle_in(&out, p) {
                out.push(p);
                proof {
                    assert forall|a: int, b: int| 0 <= a < b < out@.len() implies out@[a] != out@[b] by {
                        if b == out@.len() - 1 {
                            assert(before.contains(out@[a]));
                        }
                    }
                }
            }
        }
        proof {
            let next = root_child_parents(s.take(i + 1));
            assert forall|p: TcHandle| next.contains(p) <==> #[trigger] out@.to_set().contains(p) by {
                if next.contains(p) {
                    let j = choose|j: int|
                        0 <= j < s.take(i + 1).len() && is_root_child(#[trigger] s.take(i + 1)[j])
                            && s.take(i + 1)[j].parent == Some(p);
                    if j < i {
                        assert(s.take(i as int)[j] == s[j]);
                        assert(prev.contains(p));
                        assert(before.contains(p));
                        assert(out@.contains(p)) by {
                            let k = choose|k: int| 0 <= k < before.len() && before[k] == p;
                            assert(out@[k] == p);
                        }
                    } else {
                        assert(s.take(i + 1)[j] == s[i as int]);
                        assert(out@.contains(p)) by {
                            if before.contains(p) {
                                let k = choose|k: int| 0 <= k < before.len() && before[k] == p;
                                assert(out@[k] == p);
                            } else {
                                assert(out@[out@.len() - 1] == p);
                            }
                        }
                    }
                }
                if out@.to_set().contains(p) {
                    assert(out@.contains(p));
                    let k = choose|k: int| 0 <= k < out@.len() && out@[k] == p;
                    if k < before.len() {
                        assert(before[k] == p);
                        assert(before.to_set().contains(p));
                        let j = choose|j: int|
                            0 <= j < s.take(i as int).len() && is_root_child(#[trigger] s.take(i as int)[j])
                                && s.take(i as int)[j].parent == Some(p);
                        assert(s.take(i + 1)[j] == s.take(i as int)[j]);
                    } else {
                        assert(s.take(i + 1)[i as int] == s[i as int]);
                    }
                }
            }
            assert(next =~= out@.to_set());
        }
        i = i + 1;
    }
    assert(s.take(s.len() as int) =~= s);
    proof {
        out@.unique_seq_to_set();
    }
    out
}

/// `interface <iface> does not currently have root mq handle 7fff:`
pub open spec fn missing_root_mq_message(iface: Seq<char>) -> Seq<char> {
    "interface "@ + iface + " does not currently have root mq handle 7fff:"@
}

/// Confirms that the retained root `mq` is present on an interface.
pub fn verify_root_mq_snapshot(snapshot: &Vec<LiveTcQdiscEntry>, interface: &str) -> (r: Result<(), String>)
    ensures
        r is Ok <==> has_retained_root_mq(snapshot@),
        r matches Err(m) ==> m@ == missing_root_mq_message(interface@),
{
    if retained_root_mq_entry(snapshot).is_none() {
        let mut m = owned("interface ");
        append_str(&mut m, interface);
        append_str(&mut m, " does not currently have root mq handle 7fff:");
        return Err(m);
    }
    Ok(())
}

/// Keys of the observed classes that Bakery manages (not part of the root `mq`).
pub open spec fn managed_class_keys(m: Map<u32, LiveTcClassEntry>) -> Set<u32> {
    m.dom().filter(|k: u32| m[k].class_id.major() != ROOT_MQ_MAJOR)
}

/// What checking for a clean root-child tree concludes.
pub open spec fn clean_root_child_tree(
    qdiscs: Seq<LiveTcQdiscEntry>,
    classes: Map<u32, LiveTcClassEntry>,
    iface: Seq<char>,
) -> Result<(), Seq<char>> {
    if !has_retained_root_mq(qdiscs) {
        Err(missing_root_mq_message(iface))
    } else if root_child_parents(qdiscs).len() > 0 {
        Err(
            "interface "@ + iface + " still has "@ + dec_seq(root_child_parents(qdiscs).len())
                + " managed child qdisc(s) beneath root mq 7fff:"@,
        )
    } else if managed_class_keys(classes).len() > 0 {
        Err(
            "interface "@ + iface + " still has "@ + dec_seq(managed_class_keys(classes).len())
                + " managed tc class(es) after root-child prune"@,
        )
    } else {
        Ok(())
    }
}

/// Confirms that after pruning only the root `mq` remains: no managed child
/// qdisc beneath it and no managed class (classes keyed by raw handle).
pub fn verify_clean_root_child_tree(
    qdisc_snapshot: &Vec<LiveTcQdiscEntry>,
    class_snapshot: &HashMap<u32, LiveTcClassEntry>,
    interface: &str,
) -> (r: Result<(), String>)
    ensures
        match clean_root_child_tree(qdisc_snapshot@, class_snapshot@, interface@) {
            Ok(()) => r is Ok,
            Err(m) => r matches Err(e) && e@ == m,
        },
{
    let root = verify_root_mq_snapshot(qdisc_snapshot, interface);
    if root.is_err() {
        return root;
    }
    let child_handles = managed_root_child_parent_handles(qdisc_snapshot);
    if child_handles.len() > 0 {
        let mut m = owned("interface ");
        append_str(&mut m, interface);
        append_str(&mut m, " still has ");
        let n = dec_string(child_handles.len() as u64);
        append_str(&mut m, n.as_str());
        append_str(&mut m, " managed child qdisc(s) beneath root mq 7fff:");
        return Err(m);
    }
    let keys = map_keys(class_snapshot);
    let ghost cm = class_snapshot@;
    let ghost pred = |k: u32| cm[k].class_id.major() != ROOT_MQ_MAJOR;
    let mut count: usize = 0;
    let ghost mut counted: Set<u32> = Set::empty();
    let mut i: usize = 0;
    while i < keys.len()
        invariant
            i <= keys@.len(),
            cm == class_snapshot@,
            pred == (|k: u32| cm[k].class_id.major() != ROOT_MQ_MAJOR),
            keys@.no_duplicates(),
            keys@.to_set() == cm.dom(),
            counted == keys@.take(i as int).to_set().filter(pred),
            counted.finite(),
            count == counted.len(),
            count <= i,
        decreases keys@.len() - i,
    {
        let k = keys[i];
        proof {
            assert(keys@.to_set().contains(k)) by {
                assert(keys@.contains(k));
            }
            assert(keys@.take(i + 1) =~= keys@.take(i as int).push(k));
            assert(!keys@.take(i as int).contains(k)) by {
                if keys@.take(i as int).contains(k) {
                    let j = choose|j: int| 0 <= j < i && #[trigger] keys@.take(i as int)[j] == k;
                    assert(keys@[j] == keys@[i as int]);
                }
            }
        }
        let managed = match class_snapshot.get(&k) {
            Some(entry) => {
                assert(*entry == cm[k]);
                entry.class_id.get_major_minor().0 != ROOT_MQ_MAJOR
            },
            None => {
                assert(!cm.dom().contains(k));
                false
            },
        };
        proof {
            assert(managed == pred(k));
            let prev_set = keys@.take(i as int).to_set();
            assert forall|x: u32| #[trigger] keys@.take(i + 1).to_set().contains(x) <==> prev_set.insert(
                k,
            ).contains(x) by {
                if keys@.take(i + 1).to_set().contains(x) {
                    assert(keys@.take(i + 1).contains(x));
                    let j = choose|j: int| 0 <= j < i + 1 && #[trigger] keys@.take(i + 1)[j] == x;
                    if j < i {
                        assert(keys@.take(i as int)[j] == x);
                        assert(keys@.take(i as int).contains(x));
                    }
                }
                if prev_set.insert(k).contains(x) {
                    if x == k {
                        assert(keys@.take(i + 1)[i as int] == k);
                        assert(keys@.take(i + 1).contains(x));
                    } else {
                        assert(keys@.take(i as int).contains(x));
                        let j = choose|j: int| 0 <= j < i && #[trigger] keys@.take(i as int)[j] == x;
                        assert(keys@.take(i + 1)[j] == x);
                        assert(keys@.take(i + 1).contains(x));
                    }
                }
            }
            assert(keys@.take(i + 1).to_set() =~= prev_set.insert(k));
            let next = keys@.take(i + 1).to_set().filter(pred);
            if managed {
                assert(next =~= counted.insert(k));
                assert(!counted.contains(k));
            } else {
                assert(next =~= counted);
            }
        }
        if managed {
            count = count + 1;
            proof {
                counted = counted.insert(k);
            }
        }
        i = i + 1;
    }
    proof {
        assert(keys@.take(keys@.len() as int) =~= keys@);
        assert(counted =~= managed_class_keys(cm));
    }
    if count > 0 {
        let mut m = owned("interface ");
        append_str(&mut m, interface);
        append_str(&mut m, " still has ");
        let n = dec_string(count as u64);
        append_str(&mut m, n.as_str());
        append_str(&mut m, " managed tc class(es) after root-child prune");
        return Err(m);
    }
    Ok(())
}

/// Whether a failed root `mq` replace may be retried as delete-then-add:
/// the lower-cased failure mentions the exclusivity flag or an existing file.
pub open spec fn fallbackable_summary(summary: Seq<char>) -> bool {
    ||| seq_contains(lower_seq(summary), "exclusivity flag on, cannot modify"@)
    ||| seq_contains(lower_seq(summary), "rtnetlink answers: file exists"@)
    ||| seq_contains(lower_seq(summary), "file exists"@)
}

/// Whether a failed root `mq` replace may fall back to delete-then-add.
pub fn root_replace_failure_is_fallbackable(summary: &str) -> (r: bool)
    ensures
        r == fallbackable_summary(summary@),
{
    lowercase_contains(summary, "exclusivity flag on, cannot modify")
        || lowercase_contains(summary, "rtnetlink answers: file exists")
        || lowercase_contains(summary, "file exists")
}

/// `qdisc <verb> dev <iface> root handle 7FFF: mq`
pub open spec fn root_mq_argv(verb: Seq<char>, iface: Seq<char>) -> Seq<Seq<char>> {
    seq!["qdisc"@, verb, "dev"@, iface, "root"@, "handle"@, "7FFF:"@, "mq"@]
}

/// `qdisc replace dev <iface> root handle 7FFF: mq`
pub fn root_mq_replace_command(interface_name: &str) -> (r: Vec<String>)
    ensures
        r.deep_view() == root_mq_argv("replace"@, interface_name@),
{
    let v = vec![
        owned("qdisc"),
        owned("replace"),
        owned("dev"),
        owned(interface_name),
        owned("root"),
        owned("handle"),
        owned("7FFF:"),
        owned("mq"),
    ];
    assert(v.deep_view() =~= root_mq_argv("replace"@, interface_name@));
    v
}

/// `qdisc del dev <iface> root`
pub fn root_mq_delete_command(interface_name: &str) -> (r: Vec<String>)
    ensures
        r.deep_view() == seq!["qdisc"@, "del"@, "dev"@, interface_name@, "root"@],
{
    let v = vec![owned("qdisc"), owned("del"), owned("dev"), owned(interface_name), owned("root")];
    assert(v.deep_view() =~= seq!["qdisc"@, "del"@, "dev"@, interface_name@, "root"@]);
    v
}

/// `qdisc add dev <iface> root handle 7FFF: mq`
pub fn root_mq_add_command(interface_name: &str) -> (r: Vec<String>)
    ensures
        r.deep_view() == root_mq_argv("add"@, interface_name@),
{
    let v = vec![
        owned("qdisc"),
        owned("add"),
        owned("dev"),
        owned(interface_name),
        owned("root"),
        owned("handle"),
        owned("7FFF:"),
        owned("mq"),
    ];
    assert(v.deep_view() =~= root_mq_argv("add"@, interface_name@));
    v
}

/// Minors under `major` of the classes in a snapshot (majors and minors of 0 excluded).
pub open spec fn snapshot_minors(snapshot: Map<u32, LiveTcClassEntry>, major: u32) -> Set<u32> {
    Set::new(
        |minor: u32|
            exists|h: u32|
                #[trigger] snapshot.contains_key(h) && TcHandle(h).major() as u32 == major && TcHandle(h).minor() as u32
                    == minor && major != 0 && minor != 0,
    )
}

/// The minors reserved under `major`.
pub open spec fn reserved_minors(reservations: Map<u32, HashSet<u32>>, major: u32) -> Set<u32> {
    if reservations.contains_key(major) {
        reservations[major]@
    } else {
        Set::empty()
    }
}

/// Reserves, per major, the minors of the classes live in a snapshot, so a
/// planner does not hand them out again.
pub fn reserve_live_snapshot_minors(
    reservations: &mut HashMap<u32, HashSet<u32>>,
    snapshot: &HashMap<u32, LiveTcClassEntry>,
)
    ensures
        forall|major: u32| #[trigger]
            final(reservations)@.contains_key(major) <==> (old(reservations)@.contains_key(major) || exists|h: u32|
                snapshot@.contains_key(h) && TcHandle(h).major() as u32 == major && major != 0 && TcHandle(h).minor()
                    != 0),
        forall|major: u32| #[trigger]
            reserved_minors(final(reservations)@, major) == reserved_minors(old(reservations)@, major).union(
                snapshot_minors(snapshot@, major),
            ),
{
    let ghost r0 = reservations@;
    let keys = map_keys(snapshot);
    let mut i: usize = 0;
    while i < keys.len()
        invariant
            i <= keys@.len(),
            keys@.to_set() == snapshot@.dom(),
            forall|major: u32| #[trigger]
                reservations@.contains_key(major) <==> (r0.contains_key(major) || exists|j: int|
                    0 <= j < i && TcHandle(#[trigger] keys@[j]).major() as u32 == major && major != 0 && TcHandle(
                        keys@[j],
                    ).minor() != 0),
            forall|major: u32| #[trigger]
                reserved_minors(reservations@, major) == reserved_minors(r0, major).union(
                    Set::new(
                        |minor: u32|
                            exists|j: int|
                                0 <= j < i && TcHandle(#[trigger] keys@[j]).major() as u32 == major && TcHandle(
                                    keys@[j],
                                ).minor() as u32 == minor && major != 0 && minor != 0,
                    ),
                ),
        decreases keys@.len() - i,
    {
        let h = TcHandle::from_u32(keys[i]);
        let (major, minor) = h.get_major_minor();
        let ghost before = reservations@;
        if major != 0 && minor != 0 {
            let mut set = match reservations.remove(&(major as u32)) {
                Some(s) => s,
                None => HashSet::new(),
            };
            set.insert(minor as u32);
            reservations.insert(major as u32, set);
        }
        proof {
            let ii = i as int;
            assert forall|mj: u32| #[trigger]
                reservations@.contains_key(mj) <==> (r0.contains_key(mj) || exists|j: int|
                    0 <= j < ii + 1 && TcHandle(#[trigger] keys@[j]).major() as u32 == mj && mj != 0 && TcHandle(
                        keys@[j],
                    ).minor() != 0) by {
                if exists|j: int|
                    0 <= j < ii + 1 && TcHandle(#[trigger] keys@[j]).major() as u32 == mj && mj != 0 && TcHandle(
                        keys@[j],
                    ).minor() != 0 {
                    let j = choose|j: int|
                        0 <= j < ii + 1 && TcHandle(#[trigger] keys@[j]).major() as u32 == mj && mj != 0 && TcHandle(
                            keys@[j],
                        ).minor() != 0;
                    if j < ii {
                        assert(before.contains_key(mj));
                    }
                }
                if before.contains_key(mj) && !(r0.contains_key(mj)) {
                    let j = choose|j: int|
                        0 <= j < ii && TcHandle(#[trigger] keys@[j]).major() as u32 == mj && mj != 0 && TcHandle(
                            keys@[j],
                        ).minor() != 0;
                    assert(0 <= j < ii + 1);
                }
            }
            assert forall|mj: u32| #[trigger]
                reserved_minors(reservations@, mj) == reserved_minors(r0, mj).union(
                    Set::new(
                        |minor: u32|
                            exists|j: int|
                                0 <= j < ii + 1 && TcHandle(#[trigger] keys@[j]).major() as u32 == mj && TcHandle(
                                    keys@[j],
                                ).minor() as u32 == minor && mj != 0 && minor != 0,
                    ),
                ) by {
                let prev = Set::new(
                    |minor: u32|
                        exists|j: int|
                            0 <= j < ii && TcHandle(#[trigger] keys@[j]).major() as u32 == mj && TcHandle(
                                keys@[j],
                            ).minor() as u32 == minor && mj != 0 && minor != 0,
                );
                let next = Set::new(
                    |minor: u32|
                        exists|j: int|
                            0 <= j < ii + 1 && TcHandle(#[trigger] keys@[j]).major() as u32 == mj && TcHandle(
                                keys@[j],
                            ).minor() as u32 == minor && mj != 0 && minor != 0,
                );
                assert(reserved_minors(before, mj) == reserved_minors(r0, mj).union(prev));
                if major as u32 == mj && major != 0 && minor != 0 {
                    assert(next =~= prev.insert(minor as u32)) by {
                        assert forall|x: u32| next.contains(x) <==> prev.insert(minor as u32).contains(x) by {
                            if next.contains(x) {
                                let j = choose|j: int|
                                    0 <= j < ii + 1 && TcHandle(#[trigger] keys@[j]).major() as u32 == mj && TcHandle(
                                        keys@[j],
                                    ).minor() as u32 == x && mj != 0 && x != 0;
                                if j < ii {
                                    assert(prev.contains(x));
                                }
                            }
                            if x == minor as u32 {
                                assert(TcHandle(keys@[ii]).major() as u32 == mj);
                            }
                        }
                    }
                    assert(reserved_minors(reservations@, mj) =~= reserved_minors(before, mj).insert(minor as u32));
                    assert(reserved_minors(reservations@, mj) =~= reserved_minors(r0, mj).union(next));
                } else {
                    assert(next =~= prev) by {
                        assert forall|x: u32| next.contains(x) <==> prev.contains(x) by {
                            if next.contains(x) {
                                let j = choose|j: int|
                                    0 <= j < ii + 1 && TcHandle(#[trigger] keys@[j]).major() as u32 == mj && TcHandle(
                                        keys@[j],
                                    ).minor() as u32 == x && mj != 0 && x != 0;
                                if j == ii {
                                    assert(false);
                                }
                            }
                        }
                    }
                    assert(reserved_minors(reservations@, mj) =~= reserved_minors(before, mj));
                }
            }
        }
        i = i + 1;
    }
    proof {
        assert forall|major: u32| #[trigger]
            reservations@.contains_key(major) <==> (r0.contains_key(major) || exists|h: u32|
                snapshot@.contains_key(h) && TcHandle(h).major() as u32 == major && major != 0 && TcHandle(h).minor()
                    != 0) by {
            if exists|h: u32|
                snapshot@.contains_key(h) && TcHandle(h).major() as u32 == major && major != 0 && TcHandle(h).minor()
                    != 0 {
                let h = choose|h: u32|
                    snapshot@.contains_key(h) && TcHandle(h).major() as u32 == major && major != 0 && TcHandle(
                        h,
                    ).minor() != 0;
                assert(keys@.to_set().contains(h));
                let j = choose|j: int| 0 <= j < keys@.len() && keys@[j] == h;
                assert(TcHandle(keys@[j]).major() as u32 == major);
            }
            if exists|j: int|
                0 <= j < keys@.len() && TcHandle(#[trigger] keys@[j]).major() as u32 == major && major != 0 && TcHandle(
                    keys@[j],
                ).minor() != 0 {
                let j = choose|j: int|
                    0 <= j < keys@.len() && TcHandle(#[trigger] keys@[j]).major() as u32 == major && major != 0
                        && TcHandle(keys@[j]).minor() != 0;
                assert(keys@.contains(keys@[j]));
                assert(snapshot@.contains_key(keys@[j]));
            }
        }
        assert forall|major: u32| #[trigger]
            reserved_minors(reservations@, major) == reserved_minors(r0, major).union(snapshot_minors(snapshot@, major)) by {
            let all = Set::new(
                |minor: u32|
                    exists|j: int|
                        0 <= j < keys@.len() && TcHandle(#[trigger] keys@[j]).major() as u32 == major && TcHandle(
                            keys@[j],
                        ).minor() as u32 == minor && major != 0 && minor != 0,
            );
            assert(all =~= snapshot_minors(snapshot@, major)) by {
                assert forall|x: u32| all.contains(x) <==> snapshot_minors(snapshot@, major).contains(x) by {
                    if all.contains(x) {
                        let j = choose|j: int|
                            0 <= j < keys@.len() && TcHandle(#[trigger] keys@[j]).major() as u32 == major && TcHandle(
                                keys@[j],
                            ).minor() as u32 == x && major != 0 && x != 0;
                        assert(keys@.contains(keys@[j]));
                        assert(snapshot@.contains_key(keys@[j]));
                    }
                    if snapshot_minors(snapshot@, major).contains(x) {
                        let h = choose|h: u32|
                            #[trigger] snapshot@.contains_key(h) && TcHandle(h).major() as u32 == major && TcHandle(
                                h,
                            ).minor() as u32 == x && major != 0 && x != 0;
                        assert(keys@.to_set().contains(h));
                        let j = choose|j: int| 0 <= j < keys@.len() && keys@[j] == h;
                        assert(TcHandle(keys@[j]).major() as u32 == major);
                    }
                }
            }
        }
    }
}

/// Before a full reload, the deletions that clear what hangs under a
/// retained root `mq`: one `qdisc del` per parent of a managed child qdisc.
/// `None` when the interface has no retained root `mq`.
pub fn retained_root_child_prune_commands(interface: &String, snapshot: &Vec<LiveTcQdiscEntry>) -> (r: Option<
    Vec<Vec<String>>,
>)
    ensures
        !has_retained_root_mq(snapshot@) ==> r is None,
        has_retained_root_mq(snapshot@) ==> (r matches Some(c) && exists|parents: Seq<TcHandle>|
            {
                &&& parents.no_duplicates()
                &&& parents.to_set() == root_child_parents(snapshot@)
                &&& c.deep_view() == parents.map_values(
                    |p: TcHandle| qdisc_del_parent_argv(interface@, p.major(), p.minor()),
                )
            }),
{
    if retained_root_mq_entry(snapshot).is_none() {
        return None;
    }
    let parents = managed_root_child_parent_handles(snapshot);
    let mut commands: Vec<Vec<String>> = Vec::new();
    let mut i: usize = 0;
    while i < parents.len()
        invariant
            i <= parents@.len(),
            commands.deep_view() == parents@.take(i as int).map_values(
                |p: TcHandle| qdisc_del_parent_argv(interface@, p.major(), p.minor()),
            ),
        decreases parents@.len() - i,
    {
        let (major, minor) = parents[i].get_major_minor();
        let cmd = qdisc_del_parent(interface, major, minor);
        let ghost before = commands.deep_view();
        let ghost added = cmd.deep_view();
        commands.push(cmd);
        proof {
            assert(commands.deep_view() =~= before.push(added));
            assert(parents@.take(i + 1) =~= parents@.take(i as int).push(parents@[i as int]));
            assert(commands.deep_view() =~= parents@.take(i + 1).map_values(
                |p: TcHandle| qdisc_del_parent_argv(interface@, p.major(), p.minor()),
            ));
        }
        i = i + 1;
    }
    assert(parents@.take(parents@.len() as int) =~= parents@);
    Some(commands)
}

} // verus!
