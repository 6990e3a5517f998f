//! The shaping tree as the planner sees it while nodes are virtualized at
//! runtime: each virtualized node's active branch overlaid on the tracked
//! commands, and the tree as it was before any node was virtualized.
//!
//! The virtualized nodes are visited in the map's iteration order, which is
//! unspecified; when two nodes carry an entry for the same hash, the one
//! visited later wins. The contracts therefore hold for some order of the
//! nodes (each visited once).
use vstd::prelude::*;
use std::collections::HashMap;
use crate::commands::{same_command, BakeryCommands};
use crate::maps::map_keys;
use crate::runtime::{RuntimeVirtualizedActiveBranch, VirtualizedSiteState};

verus! {

broadcast use vstd::std_specs::hash::group_hash_axioms;

/// Two command maps hold the same keys with the same commands.
pub open spec fn same_commands(a: Map<i64, BakeryCommands>, b: Map<i64, BakeryCommands>) -> bool {
    &&& a.dom() == b.dom()
    &&& forall|k: i64| #[trigger] a.contains_key(k) ==> same_command(a[k], b[k])
}

/// Two command lists hold the same commands in the same order.
pub open spec fn same_command_seq(a: Seq<BakeryCommands>, b: Seq<BakeryCommands>) -> bool {
    &&& a.len() == b.len()
    &&& forall|i: int| 0 <= i < a.len() ==> same_command(#[trigger] a[i], b[i])
}

/// `order` lists every virtualized node exactly once.
pub open spec fn is_node_order(order: Seq<i64>, vs: Map<i64, VirtualizedSiteState>) -> bool {
    &&& order.no_duplicates()
    &&& order.to_set() == vs.dom()
}

/// The active-branch sites of the nodes in `order`, later nodes winning.
pub open spec fn active_site_overrides(vs: Map<i64, VirtualizedSiteState>, order: Seq<i64>) -> Map<
    i64,
    BakeryCommands,
>
    decreases order.len(),
{
    if order.len() == 0 {
        Map::empty()
    } else {
        active_site_overrides(vs, order.drop_last()).union_prefer_right(vs[order.last()].active_sites@)
    }
}

/// The active-branch circuits of the nodes in `order`, later nodes winning.
pub open spec fn active_circuit_overrides(vs: Map<i64, VirtualizedSiteState>, order: Seq<i64>) -> Map<
    i64,
    BakeryCommands,
>
    decreases order.len(),
{
    if order.len() == 0 {
        Map::empty()
    } else {
        active_circuit_overrides(vs, order.drop_last()).union_prefer_right(
            vs[order.last()].active_circuits@,
        )
    }
}

/// The node is virtualized and its shadow branch hides its own site.
pub open spec fn hides_site(vs: Map<i64, VirtualizedSiteState>, site_hash: i64) -> bool {
    vs.contains_key(site_hash) && vs[site_hash].active_branch == RuntimeVirtualizedActiveBranch::Shadow
}

/// What one batch command becomes: a hidden node's site is dropped, a site or
/// circuit of an active branch is replaced by the branch's command, anything
/// else is kept.
pub open spec fn overlay_command(
    c: BakeryCommands,
    vs: Map<i64, VirtualizedSiteState>,
    sites: Map<i64, BakeryCommands>,
    circuits: Map<i64, BakeryCommands>,
) -> Option<BakeryCommands> {
    match c {
        BakeryCommands::AddSite { site_hash, .. } => if hides_site(vs, site_hash) {
            None
        } else if sites.contains_key(site_hash) {
            Some(sites[site_hash])
        } else {
            Some(c)
        },
        BakeryCommands::AddCircuit { circuit_hash, .. } => if circuits.contains_key(circuit_hash) {
            Some(circuits[circuit_hash])
        } else {
            Some(c)
        },
        _ => Some(c),
    }
}

/// The batch with every command overlaid, dropped ones left out.
pub open spec fn overlay_batch(
    batch: Seq<BakeryCommands>,
    vs: Map<i64, VirtualizedSiteState>,
    sites: Map<i64, BakeryCommands>,
    circuits: Map<i64, BakeryCommands>,
) -> Seq<BakeryCommands>
    decreases batch.len(),
{
    if batch.len() == 0 {
        Seq::empty()
    } else {
        let rest = overlay_batch(batch.drop_last(), vs, sites, circuits);
        match overlay_command(batch.last(), vs, sites, circuits) {
            Some(x) => rest.push(x),
            None => rest,
        }
    }
}

/// `r` is the batch overlaid with the nodes visited in `order`.
pub open spec fn overlay_result(
    order: Seq<i64>,
    batch: Seq<BakeryCommands>,
    vs: Map<i64, VirtualizedSiteState>,
    r: Seq<BakeryCommands>,
) -> bool {
    &&& is_node_order(order, vs)
    &&& same_command_seq(
        r,
        overlay_batch(batch, vs, active_site_overrides(vs, order), active_circuit_overrides(vs, order)),
    )
}

/// Copies every entry of `source` into `target`, replacing what was there.
fn insert_all(target: &mut HashMap<i64, BakeryCommands>, source: &HashMap<i64, BakeryCommands>)
    ensures
        final(target)@.dom() == old(target)@.dom() + source@.dom(),
        forall|k: i64| #[trigger]
            final(target)@.contains_key(k) ==> if source@.contains_key(k) {
                same_command(final(target)@[k], source@[k])
            } else {
                final(target)@[k] == old(target)@[k]
            },
{
    let keys = map_keys(source);
    let ghost t0 = target@;
    let mut i: usize = 0;
    while i < keys.len()
        invariant
            i <= keys@.len(),
            keys@.to_set() == source@.dom(),
            target@.dom() == t0.dom() + keys@.take(i as int).to_set(),
            forall|k: i64| #[trigger]
                target@.contains_key(k) ==> if keys@.take(i as int).contains(k) {
                    same_command(target@[k], source@[k])
                } else {
                    target@[k] == t0[k]
                },
        decreases keys@.len() - i,
    {
        let k = keys[i];
        assert(keys@.contains(k));
        match source.get(&k) {
            Some(c) => {
                target.insert(k, c.duplicate());
            },
            None => {},
        }
        proof {
            assert(keys@.take(i + 1) =~= keys@.take(i as int).push(k));
            assert forall|x: i64| #[trigger] keys@.take(i + 1).to_set().contains(x)
                <==> keys@.take(i as int).to_set().insert(k).contains(x) by {
                crate::summary::lemma_push_contains(keys@.take(i as int), k, x);
            }
            assert forall|x: i64| keys@.take(i + 1).contains(x) <==> (keys@.take(i as int).contains(x) || x == k) by {
                crate::summary::lemma_push_contains(keys@.take(i as int), k, x);
            }
            assert(target@.dom() =~= t0.dom() + keys@.take(i + 1).to_set());
        }
        i = i + 1;
    }
    proof {
        assert(keys@.take(keys@.len() as int) =~= keys@);
        assert forall|k: i64| keys@.contains(k) <==> source@.contains_key(k) by {
            assert(keys@.to_set().contains(k) <==> keys@.contains(k));
        }
    }
}

/// `same_command` is an equivalence.
pub proof fn lemma_same_command_trans(a: BakeryCommands, b: BakeryCommands, c: BakeryCommands)
    ensures
        same_command(a, a),
        same_command(a, b) ==> same_command(b, a),
        same_command(a, b) && same_command(b, c) ==> same_command(a, c),
{
}

/// Overlays each virtualized node's active branch on a batch of commands:
/// the site of a node whose shadow branch is active is dropped, and sites
/// and circuits that an active branch carries are replaced by the branch's
/// commands. The order of the batch is kept.
pub fn apply_runtime_virtualization_overlay(
    batch: Vec<BakeryCommands>,
    virtualized_sites: &HashMap<i64, VirtualizedSiteState>,
) -> (r: Vec<BakeryCommands>)
    ensures
        exists|order: Seq<i64>| #[trigger] overlay_result(order, batch@, virtualized_sites@, r@),
{
    let keys = map_keys(virtualized_sites);
    let ghost vs = virtualized_sites@;
    let mut site_overrides: HashMap<i64, BakeryCommands> = HashMap::new();
    let mut circuit_overrides: HashMap<i64, BakeryCommands> = HashMap::new();
    let mut i: usize = 0;
    while i < keys.len()
        invariant
            i <= keys@.len(),
            vs == virtualized_sites@,
            keys@.to_set() == vs.dom(),
            same_commands(site_overrides@, active_site_overrides(vs, keys@.take(i as int))),
            same_commands(circuit_overrides@, active_circuit_overrides(vs, keys@.take(i as int))),
        decreases keys@.len() - i,
    {
        let k = keys[i];
        assert(keys@.contains(k));
        let ghost so0 = site_overrides@;
        let ghost co0 = circuit_overrides@;
        match virtualized_sites.get(&k) {
            Some(state) => {
                insert_all(&mut site_overrides, &state.active_sites);
                insert_all(&mut circuit_overrides, &state.active_circuits);
            },
            None => {},
        }
        proof {
            let t = keys@.take(i + 1);
            assert(t.drop_last() =~= keys@.take(i as int));
            assert(t.last() == k);
            let fs = active_site_overrides(vs, t);
            let fc = active_circuit_overrides(vs, t);
            assert(site_overrides@.dom() =~= fs.dom());
            assert forall|h: i64| #[trigger] site_overrides@.contains_key(h) implies same_command(
                site_overrides@[h],
                fs[h],
            ) by {
                if !vs[k].active_sites@.contains_key(h) {
                    assert(site_overrides@[h] == so0[h]);
                }
            }
            assert(circuit_overrides@.dom() =~= fc.dom());
            assert forall|h: i64| #[trigger] circuit_overrides@.contains_key(h) implies same_command(
                circuit_overrides@[h],
                fc[h],
            ) by {
                if !vs[k].active_circuits@.contains_key(h) {
                    assert(circuit_overrides@[h] == co0[h]);
                }
            }
        }
        i = i + 1;
    }
    assert(keys@.take(keys@.len() as int) =~= keys@);
    let ghost so = active_site_overrides(vs, keys@);
    let ghost co = active_circuit_overrides(vs, keys@);
    let mut out: Vec<BakeryCommands> = Vec::new();
    let mut j: usize = 0;
    while j < batch.len()
        invariant
            j <= batch@.len(),
            vs == virtualized_sites@,
            same_commands(site_overrides@, so),
            same_commands(circuit_overrides@, co),
            same_command_seq(out@, overlay_batch(batch@.take(j as int), vs, so, co)),
        decreases batch@.len() - j,
    {
        let c = &batch[j];
        let ghost before = out@;
        let ghost expect = overlay_command(batch@[j as int], vs, so, co);
        match c {
            BakeryCommands::AddSite { site_hash, .. } => {
                let hidden = match virtualized_sites.get(site_hash) {
                    Some(state) => state.active_branch_hides_original_site(),
                    None => false,
                };
                if !hidden {
                    match site_overrides.get(site_hash) {
                        Some(o) => {
                            out.push(o.duplicate());
                        },
                        None => {
                            out.push(c.duplicate());
                        },
                    }
                }
            },
            BakeryCommands::AddCircuit { circuit_hash, .. } => {
                match circuit_overrides.get(circuit_hash) {
                    Some(o) => {
                        out.push(o.duplicate());
                    },
                    None => {
                        out.push(c.duplicate());
                    },
                }
            },
            _ => {
                out.push(c.duplicate());
            },
        }
        proof {
            let t = batch@.take(j + 1);
            assert(t.drop_last() =~= batch@.take(j as int));
            assert(t.last() == batch@[j as int]);
            let want = overlay_batch(t, vs, so, co);
            match expect {
                Some(x) => {
                    assert(out@.len() == before.len() + 1);
                    assert(same_command(out@.last(), x)) by {
                        lemma_same_command_trans(out@.last(), x, x);
                        if let BakeryCommands::AddSite { site_hash, .. } = batch@[j as int] {
                            if site_overrides@.contains_key(site_hash) {
                                lemma_same_command_trans(out@.last(), site_overrides@[site_hash], so[site_hash]);
                            }
                        }
                        if let BakeryCommands::AddCircuit { circuit_hash, .. } = batch@[j as int] {
                            if circuit_overrides@.contains_key(circuit_hash) {
                                lemma_same_command_trans(out@.last(), circuit_overrides@[circuit_hash], co[circuit_hash]);
                            }
                        }
                    }
                    assert forall|x2: int| 0 <= x2 < out@.len() implies same_command(#[trigger] out@[x2], want[x2]) by {
                        if x2 < before.len() {
                            assert(out@[x2] == before[x2]);
                        }
                    }
                },
                None => {
                    assert(out@ == before);
                },
            }
        }
        j = j + 1;
    }
    assert(batch@.take(batch@.len() as int) =~= batch@);
    assert(overlay_result(keys@, batch@, virtualized_sites@, out@));
    out
}

/// The tracked sites with the nodes in `order` applied: a node whose shadow
/// branch is active loses its own site, then its active-branch sites are put
/// in place.
pub open spec fn effective_sites(
    sites: Map<i64, BakeryCommands>,
    vs: Map<i64, VirtualizedSiteState>,
    order: Seq<i64>,
) -> Map<i64, BakeryCommands>
    decreases order.len(),
{
    if order.len() == 0 {
        sites
    } else {
        let prev = effective_sites(sites, vs, order.drop_last());
        let k = order.last();
        let kept = if vs[k].active_branch == RuntimeVirtualizedActiveBranch::Shadow {
            prev.remove(k)
        } else {
            prev
        };
        kept.union_prefer_right(vs[k].active_sites@)
    }
}

/// The tracked circuits with the active-branch circuits of the nodes in
/// `order` put in place.
pub open spec fn effective_circuits(
    circuits: Map<i64, BakeryCommands>,
    vs: Map<i64, VirtualizedSiteState>,
    order: Seq<i64>,
) -> Map<i64, BakeryCommands>
    decreases order.len(),
{
    if order.len() == 0 {
        circuits
    } else {
        effective_circuits(circuits, vs, order.drop_last()).union_prefer_right(
            vs[order.last()].active_circuits@,
        )
    }
}

/// `r` is the effective state with the nodes visited in `order`.
pub open spec fn effective_result(
    order: Seq<i64>,
    sites: Map<i64, BakeryCommands>,
    circuits: Map<i64, BakeryCommands>,
    vs: Map<i64, VirtualizedSiteState>,
    r_sites: Map<i64, BakeryCommands>,
    r_circuits: Map<i64, BakeryCommands>,
) -> bool {
    &&& is_node_order(order, vs)
    &&& same_commands(r_sites, effective_sites(sites, vs, order))
    &&& same_commands(r_circuits, effective_circuits(circuits, vs, order))
}

/// A copy of a command map.
fn copy_commands(m: &HashMap<i64, BakeryCommands>) -> (r: HashMap<i64, BakeryCommands>)
    ensures
        same_commands(r@, m@),
{
    let mut r: HashMap<i64, BakeryCommands> = HashMap::new();
    insert_all(&mut r, m);
    assert(r@.dom() =~= m@.dom());
    r
}

/// The sites and circuits that are live while nodes are virtualized: the
/// tracked commands with every node's active branch in place (see
/// [`effective_sites`] and [`effective_circuits`]).
pub fn build_effective_runtime_state(
    sites: &HashMap<i64, BakeryCommands>,
    circuits: &HashMap<i64, BakeryCommands>,
    virtualized_sites: &HashMap<i64, VirtualizedSiteState>,
) -> (r: (HashMap<i64, BakeryCommands>, HashMap<i64, BakeryCommands>))
    ensures
        exists|order: Seq<i64>|
            #[trigger] effective_result(order, sites@, circuits@, virtualized_sites@, r.0@, r.1@),
{
    let keys = map_keys(virtualized_sites);
    let ghost vs = virtualized_sites@;
    let mut out_sites = copy_commands(sites);
    let mut out_circuits = copy_commands(circuits);
    let mut i: usize = 0;
    while i < keys.len()
        invariant
            i <= keys@.len(),
            vs == virtualized_sites@,
            keys@.to_set() == vs.dom(),
            same_commands(out_sites@, effective_sites(sites@, vs, keys@.take(i as int))),
            same_commands(out_circuits@, effective_circuits(circuits@, vs, keys@.take(i as int))),
        decreases keys@.len() - i,
    {
        let k = keys[i];
        assert(keys@.contains(k));
        let ghost s0 = out_sites@;
        let ghost c0 = out_circuits@;
        match virtualized_sites.get(&k) {
            Some(state) => {
                if state.active_branch_hides_original_site() {
                    out_sites.remove(&k);
                }
                let ghost s1 = out_sites@;
                insert_all(&mut out_sites, &state.active_sites);
                insert_all(&mut out_circuits, &state.active_circuits);
                proof {
                    let t = keys@.take(i + 1);
                    assert(t.drop_last() =~= keys@.take(i as int));
                    assert(t.last() == k);
                    let fs = effective_sites(sites@, vs, t);
                    let fc = effective_circuits(circuits@, vs, t);
                    assert(out_sites@.dom() =~= fs.dom());
                    assert forall|h: i64| #[trigger] out_sites@.contains_key(h) implies same_command(
                        out_sites@[h],
                        fs[h],
                    ) by {
                        if !vs[k].active_sites@.contains_key(h) {
                            assert(out_sites@[h] == s1[h]);
                            assert(s1[h] == s0[h]);
                        }
                    }
                    assert(out_circuits@.dom() =~= fc.dom());
                    assert forall|h: i64| #[trigger] out_circuits@.contains_key(h) implies same_command(
                        out_circuits@[h],
                        fc[h],
                    ) by {
                        if !vs[k].active_circuits@.contains_key(h) {
                            assert(out_circuits@[h] == c0[h]);
                        }
                    }
                }
            },
            None => {},
        }
        i = i + 1;
    }
    assert(keys@.take(keys@.len() as int) =~= keys@);
    let r = (out_sites, out_circuits);
    assert(effective_result(keys@, sites@, circuits@, virtualized_sites@, r.0@, r.1@));
    r
}

/// The tracked sites as they were before the nodes in `order` were
/// virtualized: each node's own site and its saved descendant sites back in
/// place.
pub open spec fn baseline_sites(
    sites: Map<i64, BakeryCommands>,
    vs: Map<i64, VirtualizedSiteState>,
    order: Seq<i64>,
) -> Map<i64, BakeryCommands>
    decreases order.len(),
{
    if order.len() == 0 {
        sites
    } else {
        let k = order.last();
        baseline_sites(sites, vs, order.drop_last()).insert(k, vs[k].site).union_prefer_right(
            vs[k].saved_sites@,
        )
    }
}

/// The tracked circuits with the saved descendant circuits of the nodes in
/// `order` back in place.
pub open spec fn baseline_circuits(
    circuits: Map<i64, BakeryCommands>,
    vs: Map<i64, VirtualizedSiteState>,
    order: Seq<i64>,
) -> Map<i64, BakeryCommands>
    decreases order.len(),
{
    if order.len() == 0 {
        circuits
    } else {
        baseline_circuits(circuits, vs, order.drop_last()).union_prefer_right(
            vs[order.last()].saved_circuits@,
        )
    }
}

/// `r` is the structural baseline with the nodes visited in `order`.
pub open spec fn baseline_result(
    order: Seq<i64>,
    sites: Map<i64, BakeryCommands>,
    circuits: Map<i64, BakeryCommands>,
    vs: Map<i64, VirtualizedSiteState>,
    r_sites: Map<i64, BakeryCommands>,
    r_circuits: Map<i64, BakeryCommands>,
) -> bool {
    &&& is_node_order(order, vs)
    &&& same_commands(r_sites, baseline_sites(sites, vs, order))
    &&& same_commands(r_circuits, baseline_circuits(circuits, vs, order))
}

/// The tree as it was before any node was virtualized (see
/// [`baseline_sites`] and [`baseline_circuits`]), for structural diffs.
pub fn reconstruct_structural_baseline_state(
    sites: &HashMap<i64, BakeryCommands>,
    circuits: &HashMap<i64, BakeryCommands>,
    virtualized_sites: &HashMap<i64, VirtualizedSiteState>,
) -> (r: (HashMap<i64, BakeryCommands>, HashMap<i64, BakeryCommands>))
    ensures
        exists|order: Seq<i64>|
            #[trigger] baseline_result(order, sites@, circuits@, virtualized_sites@, r.0@, r.1@),
{
    let keys = map_keys(virtualized_sites);
    let ghost vs = virtualized_sites@;
    let mut out_sites = copy_commands(sites);
    let mut out_circuits = copy_commands(circuits);
    let mut i: usize = 0;
    while i < keys.len()
        invariant
            i <= keys@.len(),
            vs == virtualized_sites@,
            keys@.to_set() == vs.dom(),
            same_commands(out_sites@, baseline_sites(sites@, vs, keys@.take(i as int))),
            same_commands(out_circuits@, baseline_circuits(circuits@, vs, keys@.take(i as int))),
        decreases keys@.len() - i,
    {
        let k = keys[i];
        assert(keys@.contains(k));
        let ghost s0 = out_sites@;
        let ghost c0 = out_circuits@;
        match virtualized_sites.get(&k) {
            Some(state) => {
                out_sites.insert(k, state.site.duplicate());
                let ghost s1 = out_sites@;
                insert_all(&mut out_sites, &state.saved_sites);
                insert_all(&mut out_circuits, &state.saved_circuits);
                proof {
                    let t = keys@.take(i + 1);
                    assert(t.drop_last() =~= keys@.take(i as int));
                    assert(t.last() == k);
                    let fs = baseline_sites(sites@, vs, t);
                    let fc = baseline_circuits(circuits@, vs, t);
                    assert(out_sites@.dom() =~= fs.dom());
                    assert forall|h: i64| #[trigger] out_sites@.contains_key(h) implies same_command(
                        out_sites@[h],
                        fs[h],
                    ) by {
                        if !vs[k].saved_sites@.contains_key(h) {
                            assert(out_sites@[h] == s1[h]);
                            if h != k {
                                assert(s1[h] == s0[h]);
                            }
                        }
                    }
                    assert(out_circuits@.dom() =~= fc.dom());
                    assert forall|h: i64| #[trigger] out_circuits@.contains_key(h) implies same_command(
                        out_circuits@[h],
                        fc[h],
                    ) by {
                        if !vs[k].saved_circuits@.contains_key(h) {
                            assert(out_circuits@[h] == c0[h]);
                        }
                    }
                }
            },
            None => {},
        }
        i = i + 1;
    }
    assert(keys@.take(keys@.len() as int) =~= keys@);
    let r = (out_sites, out_circuits);
    assert(baseline_result(keys@, sites@, circuits@, virtualized_sites@, r.0@, r.1@));
    r
}

} // verus!
