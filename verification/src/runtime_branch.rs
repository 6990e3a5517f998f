//! Decisions about a virtualized node's retained branches: restoring, keeping
//! observed qdisc handles in step, serializing top-level operations, and
//! publishing runtime state to telemetry.
use vstd::prelude::*;
use std::collections::HashMap;
use crate::commands::{opt_view, BakeryCommands};
use crate::live_tc::LiveTcClassEntry;
use crate::maps::map_keys;
use crate::runtime::{
    rebuild_runtime_branch_snapshots, rebuild_runtime_operations_snapshot, status_in_flight,
    RuntimeNodeOperation, RuntimeVirtualizedActiveBranch, RuntimeVirtualizedBranchLifecycle,
    VirtualizedSiteQdiscHandles, VirtualizedSiteState, RUNTIME_DIRTY_SUBTREE_RELOAD_THRESHOLD,
    RUNTIME_SITE_PRUNE_RETRY_SECONDS,
};
use crate::site_tree::{is_top_level_site, site_class_handles, site_handles_of, site_is_top_level};
use crate::tc_handle::TcHandle;
use crate::telemetry::{mark_reload_required, BakeryTelemetryState};
use crate::text::{append_str, dec_seq, dec_string, owned};

verus! {

broadcast use vstd::std_specs::hash::group_hash_axioms;

/// The state kept after restoring a node's physical branch: the shadow branch
/// becomes the branch to prune, the given branch becomes active, and a prune is
/// scheduled. `None` when the shadow branch is empty (nothing to clean up).
pub fn build_post_restore_virtualized_state(
    saved_state: VirtualizedSiteState,
    restore_active_sites: HashMap<i64, BakeryCommands>,
    restore_active_circuits: HashMap<i64, BakeryCommands>,
    now_unix: u64,
) -> (r: Option<VirtualizedSiteState>)
    ensures
        saved_state.active_sites@.len() == 0 && saved_state.active_circuits@.len() == 0 ==> r is None,
        !(saved_state.active_sites@.len() == 0 && saved_state.active_circuits@.len() == 0) ==> r
            == Some(
            VirtualizedSiteState {
                active_sites: restore_active_sites,
                active_circuits: restore_active_circuits,
                prune_sites: saved_state.active_sites,
                prune_circuits: saved_state.active_circuits,
                qdisc_handles: VirtualizedSiteQdiscHandles { down: None, up: None },
                active_branch: RuntimeVirtualizedActiveBranch::Original,
                lifecycle: RuntimeVirtualizedBranchLifecycle::PhysicalActiveCleanupPending,
                pending_prune: true,
                next_prune_attempt_unix: if now_unix + RUNTIME_SITE_PRUNE_RETRY_SECONDS <= u64::MAX {
                    (now_unix + RUNTIME_SITE_PRUNE_RETRY_SECONDS) as u64
                } else {
                    u64::MAX
                },
                ..saved_state
            },
        ),
{
    if saved_state.active_sites.len() == 0 && saved_state.active_circuits.len() == 0 {
        return None;
    }
    Some(
        VirtualizedSiteState {
            site_name: saved_state.site_name,
            site: saved_state.site,
            saved_sites: saved_state.saved_sites,
            saved_circuits: saved_state.saved_circuits,
            active_sites: restore_active_sites,
            active_circuits: restore_active_circuits,
            prune_sites: saved_state.active_sites,
            prune_circuits: saved_state.active_circuits,
            qdisc_handles: VirtualizedSiteQdiscHandles { down: None, up: None },
            active_branch: RuntimeVirtualizedActiveBranch::Original,
            lifecycle: RuntimeVirtualizedBranchLifecycle::PhysicalActiveCleanupPending,
            pending_prune: true,
            next_prune_attempt_unix: now_unix.saturating_add(RUNTIME_SITE_PRUNE_RETRY_SECONDS),
        },
    )
}

/// The site command a runtime operation targets: the current site, else the
/// node retained by a virtualized state.
pub open spec fn target_site(
    site_hash: i64,
    sites: Map<i64, BakeryCommands>,
    states: Map<i64, VirtualizedSiteState>,
) -> Option<BakeryCommands> {
    if sites.contains_key(site_hash) {
        Some(sites[site_hash])
    } else if states.contains_key(site_hash) {
        Some(states[site_hash].site)
    } else {
        None
    }
}

/// The site command a runtime operation on `site_hash` targets, if any.
pub fn runtime_virtualization_target_site<'a>(
    site_hash: i64,
    sites: &'a HashMap<i64, BakeryCommands>,
    virtualized_sites: &'a HashMap<i64, VirtualizedSiteState>,
) -> (r: Option<&'a BakeryCommands>)
    ensures
        match r {
            Some(c) => target_site(site_hash, sites@, virtualized_sites@) == Some(*c),
            None => target_site(site_hash, sites@, virtualized_sites@) is None,
        },
{
    match sites.get(&site_hash) {
        Some(s) => Some(s),
        None => match virtualized_sites.get(&site_hash) {
            Some(state) => Some(&state.site),
            None => None,
        },
    }
}

/// Whether the site a runtime operation targets is top-level.
pub open spec fn target_is_top_level(
    site_hash: i64,
    sites: Map<i64, BakeryCommands>,
    states: Map<i64, VirtualizedSiteState>,
) -> bool {
    target_site(site_hash, sites, states) matches Some(s) && is_top_level_site(s)
}

/// Whether the site a runtime operation on `site_hash` targets is top-level.
pub fn runtime_virtualization_target_is_top_level(
    site_hash: i64,
    sites: &HashMap<i64, BakeryCommands>,
    virtualized_sites: &HashMap<i64, VirtualizedSiteState>,
) -> (r: bool)
    ensures
        r == target_is_top_level(site_hash, sites@, virtualized_sites@),
{
    match runtime_virtualization_target_site(site_hash, sites, virtualized_sites) {
        Some(site) => site_is_top_level(site),
        None => false,
    }
}

/// Another site with an in-flight operation on a top-level target.
pub open spec fn top_level_conflict(
    site_hash: i64,
    other: i64,
    ops: Map<i64, RuntimeNodeOperation>,
    sites: Map<i64, BakeryCommands>,
    states: Map<i64, VirtualizedSiteState>,
) -> bool {
    &&& other != site_hash
    &&& ops.contains_key(other)
    &&& status_in_flight(ops[other].status)
    &&& target_is_top_level(other, sites, states)
}

/// Some other site whose top-level runtime operation is still in flight (one
/// at a time is allowed), if any; which one, among several, follows the map's order.
pub fn active_top_level_runtime_operation_conflict(
    site_hash: i64,
    runtime_node_operations: &HashMap<i64, RuntimeNodeOperation>,
    sites: &HashMap<i64, BakeryCommands>,
    virtualized_sites: &HashMap<i64, VirtualizedSiteState>,
) -> (r: Option<i64>)
    ensures
        match r {
            Some(other) => top_level_conflict(
                site_hash,
                other,
                runtime_node_operations@,
                sites@,
                virtualized_sites@,
            ),
            None => forall|other: i64|
                !#[trigger] top_level_conflict(
                    site_hash,
                    other,
                    runtime_node_operations@,
                    sites@,
                    virtualized_sites@,
                ),
        },
{
    let keys = map_keys(runtime_node_operations);
    let ghost ops = runtime_node_operations@;
    let mut i: usize = 0;
    while i < keys.len()
        invariant
            ops == runtime_node_operations@,
            i <= keys@.len(),
            keys@.to_set() == ops.dom(),
            forall|j: int|
                0 <= j < i ==> !#[trigger] top_level_conflict(
                    site_hash,
                    keys@[j],
                    ops,
                    sites@,
                    virtualized_sites@,
                ),
        decreases keys@.len() - i,
    {
        let other = keys[i];
        assert(keys@.to_set().contains(other)) by {
            assert(keys@.contains(other));
        }
        match runtime_node_operations.get(&other) {
            Some(op) => {
                assert(*op == ops[other]);
                if other != site_hash && crate::runtime::runtime_node_operation_is_active(op.status)
                    && runtime_virtualization_target_is_top_level(other, sites, virtualized_sites) {
                    return Some(other);
                }
            },
            None => {},
        }
        i = i + 1;
    }
    proof {
        assert forall|other: i64|
            !#[trigger] top_level_conflict(site_hash, other, ops, sites@, virtualized_sites@) by {
            if ops.contains_key(other) {
                assert(keys@.to_set().contains(other));
                assert(keys@.contains(other));
                let j = choose|j: int| 0 <= j < keys@.len() && keys@[j] == other;
                assert(!top_level_conflict(site_hash, keys@[j], ops, sites@, virtualized_sites@));
            }
        }
    }
    None
}

/// Fills in a virtualized node's unknown root qdisc majors from the leaf qdiscs
/// observed on its classes (known majors are kept).
pub fn sync_runtime_virtualized_site_qdisc_handles_from_live_snapshot(
    state: &mut VirtualizedSiteState,
    down_snapshot: &HashMap<u32, LiveTcClassEntry>,
    up_snapshot: &HashMap<u32, LiveTcClassEntry>,
)
    ensures
        match site_handles_of(old(state).site) {
            None => *final(state) == *old(state),
            Some(h) => *final(state) == (VirtualizedSiteState {
                qdisc_handles: VirtualizedSiteQdiscHandles {
                    down: if old(state).qdisc_handles.down is None && down_snapshot@.contains_key(h.0.0) {
                        down_snapshot@[h.0.0].leaf_qdisc_major
                    } else {
                        old(state).qdisc_handles.down
                    },
                    up: if old(state).qdisc_handles.up is None && up_snapshot@.contains_key(h.1.0) {
                        up_snapshot@[h.1.0].leaf_qdisc_major
                    } else {
                        old(state).qdisc_handles.up
                    },
                },
                ..*old(state)
            }),
        },
{
    let (down_class, up_class) = match site_class_handles(&state.site) {
        Some(h) => h,
        None => {
            return;
        },
    };
    if state.qdisc_handles.down.is_none() {
        match down_snapshot.get(&down_class.as_u32()) {
            Some(entry) => {
                state.qdisc_handles.down = entry.leaf_qdisc_major;
            },
            None => {},
        }
    }
    if state.qdisc_handles.up.is_none() {
        match up_snapshot.get(&up_class.as_u32()) {
            Some(entry) => {
                state.qdisc_handles.up = entry.leaf_qdisc_major;
            },
            None => {},
        }
    }
}

/// Some observed class hangs directly beneath `parent`.
pub open spec fn has_child_under(snapshot: Map<u32, LiveTcClassEntry>, parent: TcHandle) -> bool {
    exists|k: u32| #[trigger] snapshot.contains_key(k) && snapshot[k].parent == Some(parent)
}

/// Whether any observed class hangs directly beneath `parent`.
fn snapshot_has_child_under(snapshot: &HashMap<u32, LiveTcClassEntry>, parent: TcHandle) -> (r: bool)
    ensures
        r == has_child_under(snapshot@, parent),
{
    let keys = map_keys(snapshot);
    let ghost m = snapshot@;
    let mut i: usize = 0;
    while i < keys.len()
        invariant
            m == snapshot@,
            i <= keys@.len(),
            keys@.to_set() == m.dom(),
            forall|j: int| 0 <= j < i ==> m[#[trigger] keys@[j]].parent != Some(parent),
        decreases keys@.len() - i,
    {
        let k = keys[i];
        assert(keys@.to_set().contains(k)) by {
            assert(keys@.contains(k));
        }
        match snapshot.get(&k) {
            Some(e) => {
                assert(*e == m[k]);
                if e.parent == Some(parent) {
                    return true;
                }
            },
            None => {},
        }
        i = i + 1;
    }
    proof {
        assert forall|k: u32| #[trigger] m.contains_key(k) implies m[k].parent != Some(parent) by {
            assert(keys@.to_set().contains(k));
            assert(keys@.contains(k));
            let j = choose|j: int| 0 <= j < keys@.len() && keys@[j] == k;
            assert(m[keys@[j]].parent != Some(parent));
        }
    }
    false
}

/// A site still has observed child classes beneath either of its classes.
pub open spec fn site_has_children(
    site: BakeryCommands,
    down: Map<u32, LiveTcClassEntry>,
    up: Map<u32, LiveTcClassEntry>,
) -> bool {
    match site_handles_of(site) {
        Some(h) => has_child_under(down, h.0) || has_child_under(up, h.1),
        None => false,
    }
}

/// Whether a site still has observed child classes beneath either of its classes.
pub fn site_has_observed_child_classes(
    site: &BakeryCommands,
    down_snapshot: &HashMap<u32, LiveTcClassEntry>,
    up_snapshot: &HashMap<u32, LiveTcClassEntry>,
) -> (r: bool)
    ensures
        r == site_has_children(*site, down_snapshot@, up_snapshot@),
{
    match site_class_handles(site) {
        Some((down_class, up_class)) => snapshot_has_child_under(down_snapshot, down_class)
            || snapshot_has_child_under(up_snapshot, up_class),
        None => false,
    }
}

/// Whether a virtualized node still has observed child classes beneath its own classes.
pub fn runtime_virtualized_site_has_remaining_observed_child_classes(
    state: &VirtualizedSiteState,
    down_snapshot: &HashMap<u32, LiveTcClassEntry>,
    up_snapshot: &HashMap<u32, LiveTcClassEntry>,
) -> (r: bool)
    ensures
        r == site_has_children(state.site, down_snapshot@, up_snapshot@),
{
    site_has_observed_child_classes(&state.site, down_snapshot, up_snapshot)
}

/// `Bakery detected <n> dirty runtime subtree operations; a full reload is now
/// required before further incremental topology mutations.`
pub open spec fn dirty_subtrees_reason(n: nat) -> Seq<char> {
    "Bakery detected "@ + dec_seq(n)
        + " dirty runtime subtree operations; a full reload is now required before further incremental topology mutations."@
}

/// Telemetry `t1` publishes the runtime operations and branches over `t0`:
/// the operation summary and per-site snapshots, the branch snapshots, the
/// dirty count, and a required reload once too many subtrees are dirty.
pub open spec fn desync_published(
    t0: BakeryTelemetryState,
    t1: BakeryTelemetryState,
    ops: Map<i64, RuntimeNodeOperation>,
    vs: Map<i64, VirtualizedSiteState>,
) -> bool {
    let dirty = t1.runtime_operations.dirty_count;
    let escalate = dirty >= RUNTIME_DIRTY_SUBTREE_RELOAD_THRESHOLD && !(t0.reload_required
        && t0.reload_required_reason is Some);
    &&& t1.wf()
    &&& crate::runtime::operations_summary(ops, t1.runtime_operations)
    &&& t1.dirty_subtree_count == dirty
    &&& t1.runtime_operations_by_site@.dom() == ops.dom()
    &&& forall|k: i64| #[trigger]
        t1.runtime_operations_by_site@.contains_key(k) ==> t1.runtime_operations_by_site@[k]
            == crate::runtime::operation_snapshot_of(ops[k])
    &&& t1.runtime_branch_states_by_site@.dom() == vs.dom()
    &&& forall|k: i64| #[trigger]
        t1.runtime_branch_states_by_site@.contains_key(k) ==> crate::runtime::branch_snapshot_reflects(
            t1.runtime_branch_states_by_site@[k],
            k,
            vs[k],
        )
    &&& escalate ==> t1.reload_required && opt_view(t1.reload_required_reason) == Some(
        dirty_subtrees_reason(dirty as nat),
    )
    &&& !escalate ==> t1.reload_required == t0.reload_required && t1.reload_required_reason
        == t0.reload_required_reason
}

/// Publishes the runtime operations and branches to telemetry; once
/// [`RUNTIME_DIRTY_SUBTREE_RELOAD_THRESHOLD`] operations are dirty and no
/// reload is already required, a full reload becomes required.
pub fn update_desync_state_from_runtime_state(
    telemetry: &mut BakeryTelemetryState,
    now_unix: u64,
    runtime_node_operations: &HashMap<i64, RuntimeNodeOperation>,
    virtualized_sites: &HashMap<i64, VirtualizedSiteState>,
)
    requires
        old(telemetry).wf(),
    ensures
        desync_published(*old(telemetry), *final(telemetry), runtime_node_operations@, virtualized_sites@),
{
    let snapshot = rebuild_runtime_operations_snapshot(runtime_node_operations);
    let dirty_count = snapshot.dirty_count;
    let keys = map_keys(runtime_node_operations);
    let ghost ops = runtime_node_operations@;
    let mut by_site: HashMap<i64, crate::commands::RuntimeNodeOperationSnapshot> = HashMap::new();
    let mut i: usize = 0;
    while i < keys.len()
        invariant
            ops == runtime_node_operations@,
            i <= keys@.len(),
            keys@.to_set() == ops.dom(),
            by_site@.dom() == keys@.take(i as int).to_set(),
            forall|k: i64| #[trigger]
                by_site@.contains_key(k) ==> by_site@[k] == crate::runtime::operation_snapshot_of(ops[k]),
        decreases keys@.len() - i,
    {
        let k = keys[i];
        assert(keys@.to_set().contains(k)) by {
            assert(keys@.contains(k));
        }
        match runtime_node_operations.get(&k) {
            Some(op) => {
                by_site.insert(k, op.snapshot());
            },
            None => {},
        }
        proof {
            assert(keys@.take(i + 1) =~= keys@.take(i as int).push(k));
            assert forall|x: i64| #[trigger] keys@.take(i + 1).to_set().contains(x)
                <==> keys@.take(i as int).to_set().insert(k).contains(x) by {
                crate::summary::lemma_push_contains(keys@.take(i as int), k, x);
            }
            assert(by_site@.dom() =~= keys@.take(i + 1).to_set());
        }
        i = i + 1;
    }
    assert(keys@.take(keys@.len() as int) =~= keys@);
    let branches = rebuild_runtime_branch_snapshots(virtualized_sites);
    telemetry.runtime_operations = snapshot;
    telemetry.dirty_subtree_count = dirty_count;
    telemetry.runtime_operations_by_site = by_site;
    telemetry.runtime_branch_states_by_site = branches;
    let already = telemetry.reload_required && telemetry.reload_required_reason.is_some();
    if dirty_count >= RUNTIME_DIRTY_SUBTREE_RELOAD_THRESHOLD && !already {
        let mut s = owned("Bakery detected ");
        let n = dec_string(dirty_count as u64);
        append_str(&mut s, n.as_str());
        append_str(
            &mut s,
            " dirty runtime subtree operations; a full reload is now required before further incremental topology mutations.",
        );
        mark_reload_required(telemetry, now_unix, s);
    }
}

} // verus!
