//! Circuit-level diff between the current Bakery state and a new batch.
use vstd::prelude::*;
use std::collections::HashMap;
use crate::commands::{opt_view, BakeryCommands};
use crate::maps::map_keys;
use crate::summary::{lemma_push_contains, lemma_push_distinct};

verus! {

broadcast use vstd::std_specs::hash::group_hash_axioms;

/// How a circuit present in both the old state and the batch changed.
#[derive(Clone, Copy, Debug, PartialEq, Eq, Structural)]
pub enum CircuitChange {
    /// Nothing relevant changed.
    Unchanged,
    /// The circuit moved to other parents, minor or majors.
    Migration,
    /// Rates or the SQM override changed.
    Speed,
    /// The IP list changed.
    Ip,
    /// Both rates (or SQM override) and IP list changed.
    SpeedAndIp,
}

/// Circuits of the batch, sorted by the kind of change.
#[derive(Debug)]
pub struct CircuitDiffCategories<'a> {
    /// Circuits of the batch that the old state lacks.
    pub newly_added: Vec<&'a BakeryCommands>,
    /// Hashes of old circuits that the batch lacks.
    pub removed_circuits: Vec<i64>,
    /// Batch circuits whose rates or SQM override changed.
    pub speed_changed: Vec<&'a BakeryCommands>,
    /// Batch circuits whose IP list changed.
    pub ip_changed: Vec<&'a BakeryCommands>,
    /// Batch circuits that moved in the class tree.
    pub migrated: Vec<&'a BakeryCommands>,
    /// Reserved for structural changes that cannot migrate (always empty).
    pub structural_changed: Vec<&'a BakeryCommands>,
}

/// Outcome of the circuit diff.
#[derive(Debug)]
pub enum CircuitDiffResult<'a> {
    /// Nothing changed.
    NoChange,
    /// At least one category is non-empty.
    Categorized(CircuitDiffCategories<'a>),
}

/// Circuit hash of a circuit command.
pub open spec fn circuit_hash_of(c: BakeryCommands) -> Option<i64> {
    match c {
        BakeryCommands::AddCircuit { circuit_hash, .. } => Some(circuit_hash),
        _ => None,
    }
}

/// Index of the last `AddCircuit` for each circuit hash in a batch.
pub open spec fn circuit_index_map(b: Seq<BakeryCommands>) -> Map<i64, int>
    decreases b.len(),
{
    if b.len() == 0 {
        Map::empty()
    } else {
        let prev = circuit_index_map(b.drop_last());
        match b.last() {
            BakeryCommands::AddCircuit { circuit_hash, .. } => prev.insert(circuit_hash, b.len() - 1),
            _ => prev,
        }
    }
}

/// The circuits of a batch keyed by hash; a later `AddCircuit` for the same hash wins.
pub open spec fn batch_circuits(b: Seq<BakeryCommands>) -> Map<i64, BakeryCommands> {
    let idx = circuit_index_map(b);
    Map::new(|k: i64| idx.contains_key(k), |k: i64| b[idx[k]])
}

pub proof fn lemma_circuit_index_map(b: Seq<BakeryCommands>)
    ensures
        forall|k: i64| #[trigger] circuit_index_map(b).contains_key(k) ==> {
            let i = circuit_index_map(b)[k];
            &&& 0 <= i < b.len()
            &&& circuit_hash_of(b[i]) == Some(k)
        },
    decreases b.len(),
{
    if b.len() > 0 {
        lemma_circuit_index_map(b.drop_last());
    }
}

/// Classification of the change from `a` to `b`.
pub open spec fn circuit_change(a: BakeryCommands, b: BakeryCommands) -> CircuitChange {
    match (a, b) {
        (
            BakeryCommands::AddCircuit {
                parent_class_id,
                up_parent_class_id,
                class_minor,
                download_bandwidth_min,
                upload_bandwidth_min,
                download_bandwidth_max,
                upload_bandwidth_max,
                class_major,
                up_class_major,
                ip_addresses,
                sqm_override,
                ..
            },
            BakeryCommands::AddCircuit {
                parent_class_id: o_parent,
                up_parent_class_id: o_up_parent,
                class_minor: o_minor,
                download_bandwidth_min: o_dmin,
                upload_bandwidth_min: o_umin,
                download_bandwidth_max: o_dmax,
                upload_bandwidth_max: o_umax,
                class_major: o_major,
                up_class_major: o_up_major,
                ip_addresses: o_ips,
                sqm_override: o_sqm,
                ..
            },
        ) => {
            if parent_class_id != o_parent || up_parent_class_id != o_up_parent || class_minor
                != o_minor || class_major != o_major || up_class_major != o_up_major {
                CircuitChange::Migration
            } else {
                let speed = download_bandwidth_min != o_dmin || upload_bandwidth_min != o_umin
                    || download_bandwidth_max != o_dmax || upload_bandwidth_max != o_umax
                    || opt_view(sqm_override) != opt_view(o_sqm);
                let ip = ip_addresses@ != o_ips@;
                if speed && ip {
                    CircuitChange::SpeedAndIp
                } else if speed {
                    CircuitChange::Speed
                } else if ip {
                    CircuitChange::Ip
                } else {
                    CircuitChange::Unchanged
                }
            }
        },
        _ => CircuitChange::Unchanged,
    }
}

fn opt_string_eq(a: &Option<String>, b: &Option<String>) -> (r: bool)
    ensures
        r == (opt_view(*a) == opt_view(*b)),
{
    match (a, b) {
        (Some(x), Some(y)) => *x == *y,
        (None, None) => true,
        _ => false,
    }
}

/// Classifies how a circuit changed between two commands.
pub fn classify_circuit_change(a: &BakeryCommands, b: &BakeryCommands) -> (r: CircuitChange)
    ensures
        r == circuit_change(*a, *b),
{
    match (a, b) {
        (
            BakeryCommands::AddCircuit {
                parent_class_id,
                up_parent_class_id,
                class_minor,
                download_bandwidth_min,
                upload_bandwidth_min,
                download_bandwidth_max,
                upload_bandwidth_max,
                class_major,
                up_class_major,
                ip_addresses,
                sqm_override,
                ..
            },
            BakeryCommands::AddCircuit {
                parent_class_id: o_parent,
                up_parent_class_id: o_up_parent,
                class_minor: o_minor,
                download_bandwidth_min: o_dmin,
                upload_bandwidth_min: o_umin,
                download_bandwidth_max: o_dmax,
                upload_bandwidth_max: o_umax,
                class_major: o_major,
                up_class_major: o_up_major,
                ip_addresses: o_ips,
                sqm_override: o_sqm,
                ..
            },
        ) => {
            let structural = parent_class_id.0 != o_parent.0 || up_parent_class_id.0
                != o_up_parent.0 || *class_minor != *o_minor || *class_major != *o_major
                || *up_class_major != *o_up_major;
            if structural {
                return CircuitChange::Migration;
            }
            let speed = *download_bandwidth_min != *o_dmin || *upload_bandwidth_min != *o_umin
                || *download_bandwidth_max != *o_dmax || *upload_bandwidth_max != *o_umax
                || !opt_string_eq(sqm_override, o_sqm);
            let ip = !(*ip_addresses == *o_ips);
            if speed && ip {
                CircuitChange::SpeedAndIp
            } else if speed {
                CircuitChange::Speed
            } else if ip {
                CircuitChange::Ip
            } else {
                CircuitChange::Unchanged
            }
        },
        _ => CircuitChange::Unchanged,
    }
}

/// Old circuit `k` is in the batch with a change of one of the given kinds.
pub open spec fn changed_as(
    old: Map<i64, BakeryCommands>,
    new: Map<i64, BakeryCommands>,
    k: i64,
    speed: bool,
    ip: bool,
    migration: bool,
) -> bool {
    old.contains_key(k) && new.contains_key(k) && {
        let c = circuit_change(old[k], new[k]);
        (speed && (c == CircuitChange::Speed || c == CircuitChange::SpeedAndIp)) || (ip && (c
            == CircuitChange::Ip || c == CircuitChange::SpeedAndIp)) || (migration && c
            == CircuitChange::Migration)
    }
}

/// `list` holds, once each, the batch circuits of the keys satisfying `pred`.
pub open spec fn lists_circuits(
    list: Seq<&BakeryCommands>,
    new: Map<i64, BakeryCommands>,
    pred: spec_fn(i64) -> bool,
) -> bool {
    &&& list.no_duplicates()
    &&& forall|c: &BakeryCommands| #[trigger] list.contains(c) <==> exists|k: i64|
        new.contains_key(k) && pred(k) && *c == new[k]
}

/// The categories describe exactly the changes from `old` to `new`.
pub open spec fn categories_match(
    old: Map<i64, BakeryCommands>,
    new: Map<i64, BakeryCommands>,
    cat: CircuitDiffCategories,
) -> bool {
    &&& lists_circuits(cat.newly_added@, new, |k: i64| !old.contains_key(k))
    &&& cat.removed_circuits@.no_duplicates()
    &&& cat.removed_circuits@.to_set() == old.dom().difference(new.dom())
    &&& lists_circuits(cat.speed_changed@, new, |k: i64| changed_as(old, new, k, true, false, false))
    &&& lists_circuits(cat.ip_changed@, new, |k: i64| changed_as(old, new, k, false, true, false))
    &&& lists_circuits(cat.migrated@, new, |k: i64| changed_as(old, new, k, false, false, true))
    &&& cat.structural_changed@.len() == 0
}

/// Whether anything differs between the old circuits and the batch circuits.
pub open spec fn circuits_differ(old: Map<i64, BakeryCommands>, new: Map<i64, BakeryCommands>) -> bool {
    (exists|k: i64| new.contains_key(k) && !old.contains_key(k)) || (exists|k: i64|
        old.contains_key(k) && !new.contains_key(k)) || (exists|k: i64|
        changed_as(old, new, k, true, true, true))
}

/// Collects, in the order of `keys`, the batch circuits for keys accepted by `want`.
fn collect_circuits<'a>(
    batch: &'a Vec<BakeryCommands>,
    index: &HashMap<i64, usize>,
    keys: &Vec<i64>,
    new: Ghost<Map<i64, BakeryCommands>>,
    pred: Ghost<spec_fn(i64) -> bool>,
    want: &Vec<bool>,
) -> (r: Vec<&'a BakeryCommands>)
    requires
        keys@.no_duplicates(),
        keys@.to_set() == new@.dom(),
        want@.len() == keys@.len(),
        forall|n: int| 0 <= n < keys@.len() ==> #[trigger] want@[n] == pred@(keys@[n]),
        index@.dom() == new@.dom(),
        forall|k: i64| index@.contains_key(k) ==> (index@[k] as int) < batch@.len() && batch@[index@[k] as int]
            == #[trigger] new@[k],
        forall|k: i64| #[trigger] new@.contains_key(k) ==> circuit_hash_of(new@[k]) == Some(k),
    ensures
        lists_circuits(r@, new@, pred@),
{
    let mut out: Vec<&'a BakeryCommands> = Vec::new();
    let mut i: usize = 0;
    while i < keys.len()
        invariant
            i <= keys@.len(),
            keys@.no_duplicates(),
            keys@.to_set() == new@.dom(),
            want@.len() == keys@.len(),
            forall|n: int| 0 <= n < keys@.len() ==> #[trigger] want@[n] == pred@(keys@[n]),
            index@.dom() == new@.dom(),
            forall|k: i64| index@.contains_key(k) ==> (index@[k] as int) < batch@.len() && batch@[index@[k] as int]
                == #[trigger] new@[k],
            forall|k: i64| #[trigger] new@.contains_key(k) ==> circuit_hash_of(new@[k]) == Some(k),
            out@.no_duplicates(),
            forall|c: &BakeryCommands| #[trigger] out@.contains(c) <==> exists|n: int|
                0 <= n < i && pred@(keys@[n]) && *c == new@[keys@[n]],
        decreases keys.len() - i,
    {
        let k = keys[i];
        assert(keys@.to_set().contains(k));
        if want[i] {
            let j = *index.get(&k).unwrap();
            let cmd: &'a BakeryCommands = &batch[j];
            let ghost prev = out@;
            proof {
                if prev.contains(cmd) {
                    let n = choose|n: int| 0 <= n < i && pred@(keys@[n]) && *cmd == new@[keys@[n]];
                    assert(new@.contains_key(keys@[n]));
                    assert(keys@[n] != keys@[i as int]);
                }
                lemma_push_distinct(prev, cmd);
            }
            out.push(cmd);
            proof {
                assert forall|c: &BakeryCommands| #[trigger] out@.contains(c) <==> exists|n: int|
                    0 <= n < i + 1 && pred@(keys@[n]) && *c == new@[keys@[n]] by {
                    lemma_push_contains(prev, cmd, c);
                    if exists|n: int| 0 <= n < i + 1 && pred@(keys@[n]) && *c == new@[keys@[n]] {
                        let n = choose|n: int| 0 <= n < i + 1 && pred@(keys@[n]) && *c == new@[keys@[n]];
                        if n < i {
                            assert(prev.contains(c));
                        }
                    }
                }
            }
        } else {
            proof {
                assert forall|c: &BakeryCommands| #[trigger] out@.contains(c) <==> exists|n: int|
                    0 <= n < i + 1 && pred@(keys@[n]) && *c == new@[keys@[n]] by {
                    if exists|n: int| 0 <= n < i + 1 && pred@(keys@[n]) && *c == new@[keys@[n]] {
                        let n = choose|n: int| 0 <= n < i + 1 && pred@(keys@[n]) && *c == new@[keys@[n]];
                        assert(n != i);
                    }
                }
            }
        }
        i = i + 1;
    }
    proof {
        assert forall|c: &BakeryCommands| #[trigger] out@.contains(c) <==> exists|k: i64|
            new@.contains_key(k) && pred@(k) && *c == new@[k] by {
            if exists|k: i64| new@.contains_key(k) && pred@(k) && *c == new@[k] {
                let k = choose|k: i64| new@.contains_key(k) && pred@(k) && *c == new@[k];
                assert(keys@.to_set().contains(k));
                let n = choose|n: int| 0 <= n < keys@.len() && keys@[n] == k;
                assert(pred@(keys@[n]));
            }
        }
    }
    out
}

fn index_batch_circuits(batch: &Vec<BakeryCommands>) -> (r: HashMap<i64, usize>)
    ensures
        forall|k: i64| #[trigger] r@.contains_key(k) <==> circuit_index_map(batch@).contains_key(k),
        forall|k: i64| r@.contains_key(k) ==> r@[k] as int == #[trigger] circuit_index_map(batch@)[k],
{
    let mut m: HashMap<i64, usize> = HashMap::new();
    let mut i: usize = 0;
    while i < batch.len()
        invariant
            i <= batch@.len(),
            forall|k: i64| #[trigger] m@.contains_key(k) <==> circuit_index_map(
                batch@.take(i as int),
            ).contains_key(k),
            forall|k: i64| m@.contains_key(k) ==> m@[k] as int == #[trigger] circuit_index_map(
                batch@.take(i as int),
            )[k],
        decreases batch.len() - i,
    {
        proof {
            assert(batch@.take(i + 1).drop_last() =~= batch@.take(i as int));
            assert(batch@.take(i + 1).last() == batch@[i as int]);
        }
        match &batch[i] {
            BakeryCommands::AddCircuit { circuit_hash, .. } => {
                m.insert(*circuit_hash, i);
            },
            _ => {},
        }
        i = i + 1;
    }
    assert(batch@.take(batch@.len() as int) =~= batch@);
    m
}

/// Compares the circuits of `batch` with `old_circuits` and sorts every
/// difference into its category (a circuit whose rates and IP list both
/// changed is listed under both). `NoChange` exactly when no circuit was
/// added, removed or changed.
pub fn diff_circuits<'a>(
    batch: &'a Vec<BakeryCommands>,
    old_circuits: &HashMap<i64, BakeryCommands>,
) -> (r: CircuitDiffResult<'a>)
    ensures
        match r {
            CircuitDiffResult::NoChange => !circuits_differ(
                old_circuits@,
                batch_circuits(batch@),
            ),
            CircuitDiffResult::Categorized(cat) => circuits_differ(
                old_circuits@,
                batch_circuits(batch@),
            ) && categories_match(old_circuits@, batch_circuits(batch@), cat),
        },
{
    let ghost old = old_circuits@;
    let ghost new = batch_circuits(batch@);
    let index = index_batch_circuits(batch);
    proof {
        lemma_circuit_index_map(batch@);
        assert(index@.dom() =~= new.dom());
        assert forall|k: i64| #[trigger] new.contains_key(k) implies circuit_hash_of(new[k]) == Some(k) by {
            assert(circuit_index_map(batch@).contains_key(k));
        }
    }
    let new_keys = map_keys(&index);
    let old_keys = map_keys(old_circuits);
    // Keys of the batch absent from the old state.
    let mut want_added: Vec<bool> = Vec::new();
    let mut i: usize = 0;
    while i < new_keys.len()
        invariant
            i <= new_keys@.len(),
            want_added@.len() == i,
            forall|n: int| 0 <= n < i ==> #[trigger] want_added@[n] == !old.contains_key(new_keys@[n]),
            old == old_circuits@,
        decreases new_keys.len() - i,
    {
        want_added.push(!old_circuits.contains_key(&new_keys[i]));
        i = i + 1;
    }
    // Classify every key of the batch that the old state also has.
    let mut want_speed: Vec<bool> = Vec::new();
    let mut want_ip: Vec<bool> = Vec::new();
    let mut want_migrated: Vec<bool> = Vec::new();
    let mut j: usize = 0;
    while j < new_keys.len()
        invariant
            j <= new_keys@.len(),
            new_keys@.to_set() == new.dom(),
            index@.dom() == new.dom(),
            forall|k: i64| index@.contains_key(k) ==> (index@[k] as int) < batch@.len() && batch@[index@[k] as int]
                == #[trigger] new[k],
            old == old_circuits@,
            new == batch_circuits(batch@),
            want_speed@.len() == j,
            want_ip@.len() == j,
            want_migrated@.len() == j,
            forall|n: int| 0 <= n < j ==> #[trigger] want_speed@[n] == changed_as(old, new, new_keys@[n], true, false, false),
            forall|n: int| 0 <= n < j ==> #[trigger] want_ip@[n] == changed_as(old, new, new_keys@[n], false, true, false),
            forall|n: int| 0 <= n < j ==> #[trigger] want_migrated@[n] == changed_as(old, new, new_keys@[n], false, false, true),
        decreases new_keys.len() - j,
    {
        let k = new_keys[j];
        assert(new_keys@.to_set().contains(k));
        let (s, p, m) = match old_circuits.get(&k) {
            Some(old_cmd) => {
                assert(index@.contains_key(k));
                assert(batch@[index@[k] as int] == new[k]);
                let idx = *index.get(&k).unwrap();
                let change = classify_circuit_change(old_cmd, &batch[idx]);
                (
                    change == CircuitChange::Speed || change == CircuitChange::SpeedAndIp,
                    change == CircuitChange::Ip || change == CircuitChange::SpeedAndIp,
                    change == CircuitChange::Migration,
                )
            },
            None => (false, false, false),
        };
        want_speed.push(s);
        want_ip.push(p);
        want_migrated.push(m);
        j = j + 1;
    }
    let newly_added = collect_circuits(
        batch,
        &index,
        &new_keys,
        Ghost(new),
        Ghost(|k: i64| !old.contains_key(k)),
        &want_added,
    );
    let speed_changed = collect_circuits(
        batch,
        &index,
        &new_keys,
        Ghost(new),
        Ghost(|k: i64| changed_as(old, new, k, true, false, false)),
        &want_speed,
    );
    let ip_changed = collect_circuits(
        batch,
        &index,
        &new_keys,
        Ghost(new),
        Ghost(|k: i64| changed_as(old, new, k, false, true, false)),
        &want_ip,
    );
    let migrated = collect_circuits(
        batch,
        &index,
        &new_keys,
        Ghost(new),
        Ghost(|k: i64| changed_as(old, new, k, false, false, true)),
        &want_migrated,
    );
    let mut removed_circuits: Vec<i64> = Vec::new();
    let mut n: usize = 0;
    while n < old_keys.len()
        invariant
            n <= old_keys@.len(),
            old_keys@.no_duplicates(),
            index@.dom() == new.dom(),
            removed_circuits@.no_duplicates(),
            forall|x: i64| removed_circuits@.contains(x) <==> (old_keys@.take(n as int).contains(x)
                && !new.contains_key(x)),
        decreases old_keys.len() - n,
    {
        let h = old_keys[n];
        let ghost prev = removed_circuits@;
        proof {
            assert(old_keys@.take(n + 1) =~= old_keys@.take(n as int).push(h));
            if old_keys@.take(n as int).contains(h) {
                let p = choose|p: int| 0 <= p < n && old_keys@.take(n as int)[p] == h;
                assert(old_keys@[p] == old_keys@[n as int]);
            }
            assert(!old_keys@.take(n as int).contains(h));
        }
        if !index.contains_key(&h) {
            proof {
                lemma_push_distinct(prev, h);
            }
            removed_circuits.push(h);
        }
        proof {
            assert forall|x: i64| removed_circuits@.contains(x) <==> (old_keys@.take(n + 1).contains(x)
                && !new.contains_key(x)) by {
                lemma_push_contains(old_keys@.take(n as int), h, x);
                lemma_push_contains(prev, h, x);
            }
        }
        n = n + 1;
    }
    proof {
        assert(old_keys@.take(old_keys@.len() as int) =~= old_keys@);
        assert forall|x: i64| removed_circuits@.to_set().contains(x) <==> old.dom().difference(
            new.dom(),
        ).contains(x) by {
            assert(old_keys@.to_set().contains(x) == old_keys@.contains(x));
        }
        assert(removed_circuits@.to_set() =~= old.dom().difference(new.dom()));
    }
    let structural_changed: Vec<&'a BakeryCommands> = Vec::new();
    if newly_added.len() > 0 || removed_circuits.len() > 0 || speed_changed.len() > 0
        || ip_changed.len() > 0 || migrated.len() > 0 {
        let cat = CircuitDiffCategories {
            newly_added,
            removed_circuits,
            speed_changed,
            ip_changed,
            migrated,
            structural_changed,
        };
        proof {
            if cat.newly_added@.len() > 0 {
                let c = cat.newly_added@[0];
                assert(cat.newly_added@.contains(c));
                let k = choose|k: i64| new.contains_key(k) && !old.contains_key(k) && *c == new[k];
                assert(new.contains_key(k) && !old.contains_key(k));
            } else if cat.removed_circuits@.len() > 0 {
                let k = cat.removed_circuits@[0];
                assert(cat.removed_circuits@.to_set().contains(k));
                assert(old.contains_key(k) && !new.contains_key(k));
            } else if cat.speed_changed@.len() > 0 {
                let c = cat.speed_changed@[0];
                assert(cat.speed_changed@.contains(c));
                let k = choose|k: i64| new.contains_key(k) && changed_as(old, new, k, true, false, false) && *c == new[k];
                assert(changed_as(old, new, k, true, true, true));
            } else if cat.ip_changed@.len() > 0 {
                let c = cat.ip_changed@[0];
                assert(cat.ip_changed@.contains(c));
                let k = choose|k: i64| new.contains_key(k) && changed_as(old, new, k, false, true, false) && *c == new[k];
                assert(changed_as(old, new, k, true, true, true));
            } else {
                let c = cat.migrated@[0];
                assert(cat.migrated@.contains(c));
                let k = choose|k: i64| new.contains_key(k) && changed_as(old, new, k, false, false, true) && *c == new[k];
                assert(changed_as(old, new, k, true, true, true));
            }
            assert(circuits_differ(old, new));
            assert(categories_match(old, new, cat));
        }
        CircuitDiffResult::Categorized(cat)
    } else {
        proof {
            assert forall|k: i64| !(new.contains_key(k) && !old.contains_key(k)) by {
                if new.contains_key(k) && !old.contains_key(k) {
                    assert(newly_added@.contains(&new[k]));
                }
            }
            assert forall|k: i64| !(old.contains_key(k) && !new.contains_key(k)) by {
                if old.contains_key(k) && !new.contains_key(k) {
                    assert(removed_circuits@.to_set().contains(k));
                }
            }
            assert forall|k: i64| !changed_as(old, new, k, true, true, true) by {
                if changed_as(old, new, k, true, false, false) {
                    assert(speed_changed@.contains(&new[k]));
                }
                if changed_as(old, new, k, false, true, false) {
                    assert(ip_changed@.contains(&new[k]));
                }
                if changed_as(old, new, k, false, false, true) {
                    assert(migrated@.contains(&new[k]));
                }
            }
            assert(!circuits_differ(old, new));
            assert(old == old_circuits@);
            assert(new == batch_circuits(batch@));
        }
        CircuitDiffResult::NoChange
    }
}

} // verus!
