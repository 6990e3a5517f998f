//! One pass of the deferred prune of a virtualized node's inactive branch.
//!
//! A pass deletes at most one thing: the first circuit that still has live
//! classes, else the first site (children before parents) whose classes are
//! still live, else the node's own site once the shadow branch hides it.
//! Entries that need no deletion are dropped from the state on the way. The
//! pass is split around the `tc` calls: [`plan_runtime_virtualized_subtree_prune`]
//! decides what to delete, the caller runs the commands and reads the live
//! classes again, and [`finish_runtime_virtualized_subtree_prune`] records the
//! outcome.
use vstd::prelude::*;
use std::collections::HashMap;
use std::collections::HashSet;
use crate::commands::{opt_cmds_view, BakeryCommands};
use crate::config::BakeryConfig;
use crate::hierarchy::{
    depth, ordered_prune_circuit_hashes, ordered_prune_site_hashes, owner_index_valid, parent_map,
    parents_ranked, prune_ordered,
};
use crate::live_tc::LiveTcClassEntry;
use crate::prune::{
    classify_inactive_branch_observed_children, inactive_branch_handles, inactive_branch_reported,
    observed_prune_argvs, observed_site_class_argvs, remaining_inactive_branch_class_handles,
    site_prune_class_commands_for_observed_state, unexpected_children, circuit_handle_is,
    observed_circuit_prune_commands,
};
use crate::runtime::{RuntimeVirtualizedActiveBranch, VirtualizedSiteQdiscHandles, VirtualizedSiteState};
use crate::runtime_branch::{
    site_has_children, site_has_observed_child_classes,
    sync_runtime_virtualized_site_qdisc_handles_from_live_snapshot,
};
use crate::site_tree::{
    circuit_class_handles, site_class_handles, site_handles_of, site_prune_class_argvs,
    site_prune_commands, site_prune_qdisc_argvs, site_prune_qdisc_commands,
};
use crate::summary::sorted_listing;
use crate::tc_handle::TcHandle;
use crate::text::owned;

verus! {

broadcast use vstd::std_specs::hash::group_hash_axioms;

/// Outcome of one prune pass.
#[derive(Debug)]
pub enum RuntimePrunePassResult {
    /// Nothing is left to prune.
    Completed,
    /// Something was deleted; the live classes must be read again.
    Progress(String),
    /// Child classes are still attached; wait for them to go.
    Pending(String),
    /// The pass failed.
    Failed(String),
}

/// What a prune pass does next.
#[derive(Debug)]
pub enum RuntimePruneStep {
    /// The pass ends with this result.
    Finished(RuntimePrunePassResult),
    /// Delete a circuit's live classes, then check its classes are gone.
    PruneCircuit {
        /// The circuit.
        circuit_hash: i64,
        /// The deletions to run.
        commands: Vec<Vec<String>>,
        /// Its down/up classes; `None` when the entry is not a circuit.
        classes: Option<(TcHandle, TcHandle)>,
    },
    /// Delete a site's live classes, then check they are gone.
    PruneSite {
        /// The site.
        site_hash: i64,
        /// The deletions to run.
        commands: Vec<Vec<String>>,
        /// Its down/up classes.
        classes: (TcHandle, TcHandle),
    },
    /// Delete the node's own leaf qdiscs (a missing one is harmless) and live
    /// classes, then check the classes are gone.
    PruneRoot {
        /// Qdisc deletions, if any handle is known.
        qdisc_commands: Option<Vec<Vec<String>>>,
        /// Class deletions, if any class is live.
        class_commands: Option<Vec<Vec<String>>>,
        /// Its down/up classes.
        classes: Option<(TcHandle, TcHandle)>,
    },
}

/// Message of a pass that waits for child classes to go.
pub open spec fn children_attached_message() -> Seq<char> {
    "Observed live child classes still attached"@
}

/// The site command's place under the other sites has no cycle.
pub open spec fn prune_sites_acyclic(sites: Map<i64, BakeryCommands>) -> bool {
    forall|owner: Map<u64, i64>|
        owner_index_valid(sites, owner) ==> exists|rank: spec_fn(i64) -> nat|
            parents_ranked(parent_map(sites, owner), rank)
}

/// `order` lists the sites children first (deeper first, then by hash).
pub open spec fn site_prune_order(sites: Map<i64, BakeryCommands>, order: Seq<i64>) -> bool {
    &&& order.no_duplicates()
    &&& order.to_set() == sites.dom()
    &&& exists|owner: Map<u64, i64>|
        owner_index_valid(sites, owner) && forall|rank: spec_fn(i64) -> nat|
            parents_ranked(parent_map(sites, owner), rank) ==> prune_ordered(
                order,
                |s: i64| depth(parent_map(sites, owner), rank, s),
            )
}

/// The classes of the active branch's circuits, which no prune may delete.
pub open spec fn protected_classes(state: VirtualizedSiteState, uplink: bool) -> Set<u32> {
    Set::new(
        |h: u32|
            exists|c: BakeryCommands|
                state.active_circuits@.values().contains(c) && #[trigger] circuit_handle_is(c, uplink, h),
    )
}

/// The deletions that prune a circuit of the inactive branch.
pub open spec fn circuit_prune_argvs(
    state: VirtualizedSiteState,
    cfg: BakeryConfig,
    c: BakeryCommands,
    down: Map<u32, LiveTcClassEntry>,
    up: Map<u32, LiveTcClassEntry>,
) -> Option<Seq<Seq<Seq<char>>>> {
    observed_prune_argvs(cfg, c, Some(down), Some(up), protected_classes(state, false), protected_classes(state, true))
}

/// A circuit still has something to delete.
pub open spec fn circuit_prune_due(
    state: VirtualizedSiteState,
    cfg: BakeryConfig,
    c: BakeryCommands,
    down: Map<u32, LiveTcClassEntry>,
    up: Map<u32, LiveTcClassEntry>,
) -> bool {
    circuit_prune_argvs(state, cfg, c, down, up) matches Some(v) && v.len() > 0
}

/// Position of the first circuit in `order`, from `i`, that still has
/// something to delete (`order.len()` when none has).
pub open spec fn first_due_circuit(
    state: VirtualizedSiteState,
    cfg: BakeryConfig,
    order: Seq<i64>,
    down: Map<u32, LiveTcClassEntry>,
    up: Map<u32, LiveTcClassEntry>,
    i: int,
) -> int
    decreases order.len() - i,
{
    if i < 0 || i >= order.len() {
        order.len() as int
    } else if circuit_prune_due(state, cfg, state.prune_circuits@[order[i]], down, up) {
        i
    } else {
        first_due_circuit(state, cfg, order, down, up, i + 1)
    }
}

/// The live-class deletions of a site, limited to the directions still live.
pub open spec fn site_live_class_argvs(
    cfg: BakeryConfig,
    site: BakeryCommands,
    down: Map<u32, LiveTcClassEntry>,
    up: Map<u32, LiveTcClassEntry>,
) -> Option<Seq<Seq<Seq<char>>>> {
    match site_handles_of(site) {
        Some(h) => observed_site_class_argvs(cfg, site, down.contains_key(h.0.0), up.contains_key(h.1.0)),
        None => None,
    }
}

/// A site stops the pass: it still has child classes, or classes to delete.
pub open spec fn site_stops_pass(
    cfg: BakeryConfig,
    site: BakeryCommands,
    down: Map<u32, LiveTcClassEntry>,
    up: Map<u32, LiveTcClassEntry>,
) -> bool {
    site_has_children(site, down, up) || site_live_class_argvs(cfg, site, down, up) is Some
}

/// Position of the first site in `order`, from `i`, that stops the pass
/// (`order.len()` when none does).
pub open spec fn first_stopping_site(
    cfg: BakeryConfig,
    sites: Map<i64, BakeryCommands>,
    order: Seq<i64>,
    down: Map<u32, LiveTcClassEntry>,
    up: Map<u32, LiveTcClassEntry>,
    i: int,
) -> int
    decreases order.len() - i,
{
    if i < 0 || i >= order.len() {
        order.len() as int
    } else if site_stops_pass(cfg, sites[order[i]], down, up) {
        i
    } else {
        first_stopping_site(cfg, sites, order, down, up, i + 1)
    }
}

/// The result of a pass that found child classes beneath `site`: a failure
/// reporting the unexpected ones, or a wait when all are expected.
pub open spec fn children_outcome(
    before: VirtualizedSiteState,
    site: BakeryCommands,
    down: Map<u32, LiveTcClassEntry>,
    up: Map<u32, LiveTcClassEntry>,
    r: RuntimePruneStep,
) -> bool {
    let p = site_handles_of(site)->0;
    let ud = unexpected_children(down, p.0, inactive_branch_handles(before, false));
    let uu = unexpected_children(up, p.1, inactive_branch_handles(before, true));
    if ud == Set::<TcHandle>::empty() && uu == Set::<TcHandle>::empty() {
        r matches RuntimePruneStep::Finished(RuntimePrunePassResult::Pending(m)) && m@
            == children_attached_message()
    } else {
        r matches RuntimePruneStep::Finished(RuntimePrunePassResult::Failed(m))
            && inactive_branch_reported(ud, uu, m@)
    }
}

/// Everything but the prune sets and the qdisc handles is unchanged.
pub open spec fn same_except_prunes(a: VirtualizedSiteState, b: VirtualizedSiteState) -> bool {
    &&& a.site_name == b.site_name
    &&& a.site == b.site
    &&& a.saved_sites == b.saved_sites
    &&& a.saved_circuits == b.saved_circuits
    &&& a.active_sites == b.active_sites
    &&& a.active_circuits == b.active_circuits
    &&& a.active_branch == b.active_branch
    &&& a.lifecycle == b.lifecycle
    &&& a.pending_prune == b.pending_prune
    &&& a.next_prune_attempt_unix == b.next_prune_attempt_unix
}

/// The qdisc handles with the leaf qdiscs observed beneath the node's classes
/// filled in where none was known.
pub open spec fn synced_handles(
    state: VirtualizedSiteState,
    down: Map<u32, LiveTcClassEntry>,
    up: Map<u32, LiveTcClassEntry>,
) -> VirtualizedSiteQdiscHandles {
    match site_handles_of(state.site) {
        None => state.qdisc_handles,
        Some(h) => VirtualizedSiteQdiscHandles {
            down: if state.qdisc_handles.down is None && down.contains_key(h.0.0) {
                down[h.0.0].leaf_qdisc_major
            } else {
                state.qdisc_handles.down
            },
            up: if state.qdisc_handles.up is None && up.contains_key(h.1.0) {
                up[h.1.0].leaf_qdisc_major
            } else {
                state.qdisc_handles.up
            },
        },
    }
}

/// The plan once no circuit and no site stops the pass: the node's own site.
pub open spec fn root_plan(
    cfg: BakeryConfig,
    before: VirtualizedSiteState,
    after: VirtualizedSiteState,
    down: Map<u32, LiveTcClassEntry>,
    up: Map<u32, LiveTcClassEntry>,
    r: RuntimePruneStep,
) -> bool {
    if before.active_branch != RuntimeVirtualizedActiveBranch::Shadow {
        &&& r matches RuntimePruneStep::Finished(RuntimePrunePassResult::Completed)
        &&& after.qdisc_handles == before.qdisc_handles
    } else if site_has_children(before.site, down, up) {
        &&& children_outcome(before, before.site, down, up, r)
        &&& after.qdisc_handles == before.qdisc_handles
    } else if site_prune_class_argvs(cfg, before.site) is None {
        &&& r matches RuntimePruneStep::Finished(RuntimePrunePassResult::Completed)
        &&& after.qdisc_handles == before.qdisc_handles
    } else {
        let handles = synced_handles(before, down, up);
        let q = site_prune_qdisc_argvs(cfg, handles);
        &&& after.qdisc_handles == handles
        &&& r matches RuntimePruneStep::PruneRoot { qdisc_commands, class_commands, classes }
        &&& opt_cmds_view(qdisc_commands) == if q.len() > 0 {
            Some(q)
        } else {
            None
        }
        &&& opt_cmds_view(class_commands) == site_live_class_argvs(cfg, before.site, down, up)
        &&& classes == site_handles_of(before.site)
    }
}

/// What a pass plans, for circuits visited in `corder` and sites in `sorder`.
pub open spec fn prune_plan(
    cfg: BakeryConfig,
    before: VirtualizedSiteState,
    after: VirtualizedSiteState,
    down: Map<u32, LiveTcClassEntry>,
    up: Map<u32, LiveTcClassEntry>,
    corder: Seq<i64>,
    sorder: Seq<i64>,
    r: RuntimePruneStep,
) -> bool {
    let k = first_due_circuit(before, cfg, corder, down, up, 0);
    let m = first_stopping_site(cfg, before.prune_sites@, sorder, down, up, 0);
    &&& sorted_listing(corder, before.prune_circuits@.dom())
    &&& site_prune_order(before.prune_sites@, sorder)
    &&& same_except_prunes(after, before)
    &&& if k < corder.len() {
        let c = before.prune_circuits@[corder[k]];
        &&& after.prune_circuits@ == before.prune_circuits@.remove_keys(corder.take(k).to_set())
        &&& after.prune_sites@ == before.prune_sites@
        &&& after.qdisc_handles == before.qdisc_handles
        &&& r matches RuntimePruneStep::PruneCircuit { circuit_hash, commands, classes }
        &&& circuit_hash == corder[k]
        &&& Some(commands.deep_view()) == circuit_prune_argvs(before, cfg, c, down, up)
        &&& classes == crate::site_tree::circuit_handles_of(c)
    } else {
        &&& after.prune_circuits@ == Map::<i64, BakeryCommands>::empty()
        &&& if m < sorder.len() {
            let s = before.prune_sites@[sorder[m]];
            &&& after.prune_sites@ == before.prune_sites@.remove_keys(sorder.take(m).to_set())
            &&& after.qdisc_handles == before.qdisc_handles
            &&& if site_has_children(s, down, up) {
                children_outcome(before, s, down, up, r)
            } else {
                &&& r matches RuntimePruneStep::PruneSite { site_hash, commands, classes }
                &&& site_hash == sorder[m]
                &&& Some(commands.deep_view()) == site_live_class_argvs(cfg, s, down, up)
                &&& Some(classes) == site_handles_of(s)
            }
        } else {
            &&& after.prune_sites@ == Map::<i64, BakeryCommands>::empty()
            &&& root_plan(cfg, before, after, down, up, r)
        }
    }
}

/// The first due circuit is the first one, from `start`, that is due.
proof fn lemma_first_due_circuit(
    state: VirtualizedSiteState,
    cfg: BakeryConfig,
    order: Seq<i64>,
    down: Map<u32, LiveTcClassEntry>,
    up: Map<u32, LiveTcClassEntry>,
    start: int,
    i: int,
)
    requires
        0 <= start <= i <= order.len(),
        forall|j: int|
            start <= j < i ==> !#[trigger] circuit_prune_due(state, cfg, state.prune_circuits@[order[j]], down, up),
        i == order.len() || circuit_prune_due(state, cfg, state.prune_circuits@[order[i]], down, up),
    ensures
        first_due_circuit(state, cfg, order, down, up, start) == i,
    decreases i - start,
{
    if start < i {
        assert(!circuit_prune_due(state, cfg, state.prune_circuits@[order[start]], down, up));
        lemma_first_due_circuit(state, cfg, order, down, up, start + 1, i);
    }
}

/// The first stopping site is the first one, from `start`, that stops.
proof fn lemma_first_stopping_site(
    cfg: BakeryConfig,
    sites: Map<i64, BakeryCommands>,
    order: Seq<i64>,
    down: Map<u32, LiveTcClassEntry>,
    up: Map<u32, LiveTcClassEntry>,
    start: int,
    i: int,
)
    requires
        0 <= start <= i <= order.len(),
        forall|j: int| start <= j < i ==> !#[trigger] site_stops_pass(cfg, sites[order[j]], down, up),
        i == order.len() || site_stops_pass(cfg, sites[order[i]], down, up),
    ensures
        first_stopping_site(cfg, sites, order, down, up, start) == i,
    decreases i - start,
{
    if start < i {
        assert(!site_stops_pass(cfg, sites[order[start]], down, up));
        lemma_first_stopping_site(cfg, sites, order, down, up, start + 1, i);
    }
}

/// Removing the keys of a prefix one more element long removes that element too.
proof fn lemma_remove_prefix_step<V>(m: Map<i64, V>, order: Seq<i64>, i: int)
    requires
        0 <= i < order.len(),
    ensures
        m.remove_keys(order.take(i).to_set()).remove(order[i]) == m.remove_keys(order.take(i + 1).to_set()),
{
    assert(order.take(i + 1) =~= order.take(i).push(order[i]));
    assert forall|x: i64| #[trigger] order.take(i + 1).to_set().contains(x) <==> order.take(i).to_set().insert(order[i]).contains(x) by {
        crate::summary::lemma_push_contains(order.take(i), order[i], x);
    }
    assert(m.remove_keys(order.take(i).to_set()).remove(order[i]) =~= m.remove_keys(order.take(i + 1).to_set()));
}

/// The result of a classification of observed children, as a pass result.
fn children_step(
    site: &BakeryCommands,
    down_snapshot: &HashMap<u32, LiveTcClassEntry>,
    up_snapshot: &HashMap<u32, LiveTcClassEntry>,
    expected_down: &HashSet<u32>,
    expected_up: &HashSet<u32>,
    before: Ghost<VirtualizedSiteState>,
) -> (r: RuntimePruneStep)
    requires
        site_has_children(*site, down_snapshot@, up_snapshot@),
        expected_down@ == inactive_branch_handles(before@, false),
        expected_up@ == inactive_branch_handles(before@, true),
    ensures
        children_outcome(before@, *site, down_snapshot@, up_snapshot@, r),
{
    match classify_inactive_branch_observed_children(site, down_snapshot, up_snapshot, expected_down, expected_up) {
        Err(m) => RuntimePruneStep::Finished(RuntimePrunePassResult::Failed(m)),
        Ok(()) => RuntimePruneStep::Finished(
            RuntimePrunePassResult::Pending(owned("Observed live child classes still attached")),
        ),
    }
}

/// Plans one prune pass over the inactive branch (see [`prune_plan`]): drops
/// the entries that need no deletion and returns the first deletion to run,
/// or how the pass ends.
pub fn plan_runtime_virtualized_subtree_prune(
    config: &BakeryConfig,
    state: &mut VirtualizedSiteState,
    down_snapshot: &HashMap<u32, LiveTcClassEntry>,
    up_snapshot: &HashMap<u32, LiveTcClassEntry>,
) -> (r: RuntimePruneStep)
    requires
        prune_sites_acyclic(old(state).prune_sites@),
    ensures
        exists|corder: Seq<i64>, sorder: Seq<i64>|
            #[trigger] prune_plan(
                *config,
                *old(state),
                *final(state),
                down_snapshot@,
                up_snapshot@,
                corder,
                sorder,
                r,
            ),
{
    let ghost s0 = *state;
    let ghost down = down_snapshot@;
    let ghost up = up_snapshot@;
    let (expected_down, expected_up) = remaining_inactive_branch_class_handles(state);
    let mut protected_down: HashSet<u32> = HashSet::new();
    let mut protected_up: HashSet<u32> = HashSet::new();
    crate::prune::add_circuit_class_handles(&state.active_circuits, &mut protected_down, &mut protected_up);
    assert(protected_down@ =~= protected_classes(s0, false));
    assert(protected_up@ =~= protected_classes(s0, true));
    let corder = ordered_prune_circuit_hashes(&state.prune_circuits);
    let sorder = ordered_prune_site_hashes(&state.prune_sites);
    let mut i: usize = 0;
    while i < corder.len()
        invariant
            i <= corder@.len(),
            s0 == *old(state),
            sorted_listing(corder@, s0.prune_circuits@.dom()),
            site_prune_order(s0.prune_sites@, sorder@),
            same_except_prunes(*state, s0),
            state.qdisc_handles == s0.qdisc_handles,
            state.prune_sites@ == s0.prune_sites@,
            state.prune_circuits@ == s0.prune_circuits@.remove_keys(corder@.take(i as int).to_set()),
            forall|j: int|
                0 <= j < i ==> !#[trigger] circuit_prune_due(s0, *config, s0.prune_circuits@[corder@[j]], down, up),
            protected_down@ == protected_classes(s0, false),
            protected_up@ == protected_classes(s0, true),
            expected_down@ == inactive_branch_handles(s0, false),
            expected_up@ == inactive_branch_handles(s0, true),
            down == down_snapshot@,
            up == up_snapshot@,
        decreases corder@.len() - i,
    {
        let h = corder[i];
        proof {
            assert(corder@.contains(h));
            assert(corder@.to_set().contains(h));
            assert(!corder@.take(i as int).contains(h)) by {
                if corder@.take(i as int).contains(h) {
                    let j = choose|j: int| 0 <= j < i && corder@.take(i as int)[j] == h;
                    assert(corder@[j] < corder@[i as int]);
                }
            }
            assert(state.prune_circuits@.contains_key(h));
            assert(state.prune_circuits@[h] == s0.prune_circuits@[h]);
        }
        let (commands, classes) = match state.prune_circuits.get(&h) {
            Some(c) => (
                observed_circuit_prune_commands(
                    config,
                    c,
                    Some(down_snapshot),
                    Some(up_snapshot),
                    &protected_down,
                    &protected_up,
                ),
                circuit_class_handles(c),
            ),
            None => (None, None),
        };
        let due = match &commands {
            Some(v) => v.len() > 0,
            None => false,
        };
        if due {
            proof {
                lemma_first_due_circuit(s0, *config, corder@, down, up, 0, i as int);
            }
            let r = RuntimePruneStep::PruneCircuit {
                circuit_hash: h,
                commands: match commands {
                    Some(v) => v,
                    None => Vec::new(),
                },
                classes,
            };
            assert(prune_plan(*config, s0, *state, down, up, corder@, sorder@, r));
            return r;
        }
        state.prune_circuits.remove(&h);
        proof {
            lemma_remove_prefix_step(s0.prune_circuits@, corder@, i as int);
        }
        i = i + 1;
    }
    proof {
        lemma_first_due_circuit(s0, *config, corder@, down, up, 0, corder@.len() as int);
        assert(corder@.take(corder@.len() as int) =~= corder@);
        assert(state.prune_circuits@ =~= Map::<i64, BakeryCommands>::empty());
    }
    let ghost s1 = *state;
    let mut j: usize = 0;
    while j < sorder.len()
        invariant
            j <= sorder@.len(),
            s0 == *old(state),
            sorted_listing(corder@, s0.prune_circuits@.dom()),
            site_prune_order(s0.prune_sites@, sorder@),
            first_due_circuit(s0, *config, corder@, down, up, 0) == corder@.len(),
            same_except_prunes(*state, s0),
            state.qdisc_handles == s0.qdisc_handles,
            state.prune_circuits@ == Map::<i64, BakeryCommands>::empty(),
            state.prune_sites@ == s0.prune_sites@.remove_keys(sorder@.take(j as int).to_set()),
            forall|x: int|
                0 <= x < j ==> !#[trigger] site_stops_pass(*config, s0.prune_sites@[sorder@[x]], down, up),
            expected_down@ == inactive_branch_handles(s0, false),
            expected_up@ == inactive_branch_handles(s0, true),
            down == down_snapshot@,
            up == up_snapshot@,
        decreases sorder@.len() - j,
    {
        let h = sorder[j];
        proof {
            assert(sorder@.contains(h));
            assert(sorder@.to_set().contains(h));
            assert(!sorder@.take(j as int).contains(h)) by {
                if sorder@.take(j as int).contains(h) {
                    let x = choose|x: int| 0 <= x < j && sorder@.take(j as int)[x] == h;
                    assert(sorder@[x] == sorder@[j as int]);
                }
            }
            assert(state.prune_sites@.contains_key(h));
            assert(state.prune_sites@[h] == s0.prune_sites@[h]);
        }
        let mut stop: Option<RuntimePruneStep> = None;
        match state.prune_sites.get(&h) {
            Some(site) => {
                if site_has_observed_child_classes(site, down_snapshot, up_snapshot) {
                    stop = Some(children_step(site, down_snapshot, up_snapshot, &expected_down, &expected_up, Ghost(s0)));
                } else {
                    match site_class_handles(site) {
                        Some((down_class, up_class)) => {
                            match site_prune_class_commands_for_observed_state(
                                config,
                                site,
                                down_snapshot.contains_key(&down_class.as_u32()),
                                up_snapshot.contains_key(&up_class.as_u32()),
                            ) {
                                Some(commands) => {
                                    stop = Some(RuntimePruneStep::PruneSite {
                                        site_hash: h,
                                        commands,
                                        classes: (down_class, up_class),
                                    });
                                },
                                None => {},
                            }
                        },
                        None => {},
                    }
                }
            },
            None => {},
        }
        match stop {
            Some(r) => {
                proof {
                    lemma_first_stopping_site(*config, s0.prune_sites@, sorder@, down, up, 0, j as int);
                }
                assert(prune_plan(*config, s0, *state, down, up, corder@, sorder@, r));
                return r;
            },
            None => {},
        }
        state.prune_sites.remove(&h);
        proof {
            lemma_remove_prefix_step(s0.prune_sites@, sorder@, j as int);
        }
        j = j + 1;
    }
    proof {
        lemma_first_stopping_site(*config, s0.prune_sites@, sorder@, down, up, 0, sorder@.len() as int);
        assert(sorder@.take(sorder@.len() as int) =~= sorder@);
        assert(state.prune_sites@ =~= Map::<i64, BakeryCommands>::empty());
    }
    let r = if !state.active_branch_hides_original_site() {
        RuntimePruneStep::Finished(RuntimePrunePassResult::Completed)
    } else if site_has_observed_child_classes(&state.site, down_snapshot, up_snapshot) {
        children_step(&state.site, down_snapshot, up_snapshot, &expected_down, &expected_up, Ghost(s0))
    } else if site_prune_commands(config, state).is_none() {
        RuntimePruneStep::Finished(RuntimePrunePassResult::Completed)
    } else {
        sync_runtime_virtualized_site_qdisc_handles_from_live_snapshot(state, down_snapshot, up_snapshot);
        let qdisc_commands = site_prune_qdisc_commands(config, &state.qdisc_handles);
        let classes = site_class_handles(&state.site);
        let class_commands = match classes {
            Some((down_class, up_class)) => site_prune_class_commands_for_observed_state(
                config,
                &state.site,
                down_snapshot.contains_key(&down_class.as_u32()),
                up_snapshot.contains_key(&up_class.as_u32()),
            ),
            None => None,
        };
        RuntimePruneStep::PruneRoot { qdisc_commands, class_commands, classes }
    };
    assert(prune_plan(*config, s0, *state, down, up, corder@, sorder@, r));
    r
}

/// The result of a pass once its deletion ran successfully and the live
/// classes were read again: `verified` says whether the deleted classes are
/// gone (see [`crate::prune::verify_pruned_handles_absent`]). A verified
/// circuit or site leaves the branch and the pass reports progress; the
/// root reports progress, or completion when it has no classes.
pub fn finish_runtime_virtualized_subtree_prune(
    state: &mut VirtualizedSiteState,
    step: RuntimePruneStep,
    verified: Result<(), String>,
) -> (r: RuntimePrunePassResult)
    ensures
        match step {
            RuntimePruneStep::Finished(res) => r == res && *final(state) == *old(state),
            RuntimePruneStep::PruneCircuit { circuit_hash, classes, .. } => match (classes, verified) {
                (None, _) => *final(state) == *old(state) && (r matches RuntimePrunePassResult::Failed(m)
                    && m@ == "TreeGuard runtime deferred child circuit prune targeted a non-circuit command"@),
                (Some(_), Err(e)) => *final(state) == *old(state) && r == RuntimePrunePassResult::Failed(e),
                (Some(_), Ok(())) => {
                    &&& final(state).prune_circuits@ == old(state).prune_circuits@.remove(circuit_hash)
                    &&& final(state).prune_sites == old(state).prune_sites
                    &&& final(state).qdisc_handles == old(state).qdisc_handles
                    &&& same_except_prunes(*final(state), *old(state))
                    &&& r matches RuntimePrunePassResult::Progress(m)
                    &&& m@ == "Inactive branch circuit cleanup applied; refreshing live verification"@
                },
            },
            RuntimePruneStep::PruneSite { site_hash, .. } => match verified {
                Err(e) => *final(state) == *old(state) && r == RuntimePrunePassResult::Failed(e),
                Ok(()) => {
                    &&& final(state).prune_sites@ == old(state).prune_sites@.remove(site_hash)
                    &&& final(state).prune_circuits == old(state).prune_circuits
                    &&& final(state).qdisc_handles == old(state).qdisc_handles
                    &&& same_except_prunes(*final(state), *old(state))
                    &&& r matches RuntimePrunePassResult::Progress(m)
                    &&& m@ == "Inactive branch site cleanup applied; refreshing live verification"@
                },
            },
            RuntimePruneStep::PruneRoot { classes, .. } => *final(state) == *old(state) && match (
                classes,
                verified,
            ) {
                (None, _) => r == RuntimePrunePassResult::Completed,
                (Some(_), Err(e)) => r == RuntimePrunePassResult::Failed(e),
                (Some(_), Ok(())) => (r matches RuntimePrunePassResult::Progress(m)
                    && m@ == "Inactive branch root cleanup applied; refreshing live verification"@),
            },
        },
{
    match step {
        RuntimePruneStep::Finished(res) => res,
        RuntimePruneStep::PruneCircuit { circuit_hash, classes, .. } => match classes {
            None => RuntimePrunePassResult::Failed(
                owned("TreeGuard runtime deferred child circuit prune targeted a non-circuit command"),
            ),
            Some(_) => match verified {
                Err(e) => RuntimePrunePassResult::Failed(e),
                Ok(()) => {
                    state.prune_circuits.remove(&circuit_hash);
                    RuntimePrunePassResult::Progress(
                        owned("Inactive branch circuit cleanup applied; refreshing live verification"),
                    )
                },
            },
        },
        RuntimePruneStep::PruneSite { site_hash, .. } => match verified {
            Err(e) => RuntimePrunePassResult::Failed(e),
            Ok(()) => {
                state.prune_sites.remove(&site_hash);
                RuntimePrunePassResult::Progress(
                    owned("Inactive branch site cleanup applied; refreshing live verification"),
                )
            },
        },
        RuntimePruneStep::PruneRoot { classes, .. } => match classes {
            None => RuntimePrunePassResult::Completed,
            Some(_) => match verified {
                Err(e) => RuntimePrunePassResult::Failed(e),
                Ok(()) => RuntimePrunePassResult::Progress(
                    owned("Inactive branch root cleanup applied; refreshing live verification"),
                ),
            },
        },
    }
}

} // verus!
