//! Runtime node virtualization bookkeeping: branch lifecycles, node
//! operations and the status summaries built from them.
use vstd::prelude::*;
use std::collections::HashMap;
use crate::commands::{
    opt_view, BakeryCommands, RuntimeNodeOperationAction, RuntimeNodeOperationFailureReason,
    RuntimeNodeOperationSnapshot, RuntimeNodeOperationStatus,
};
use crate::maps::{lemma_filter_prefix_ends, lemma_filter_prefix_step, map_keys};
use crate::summary::{sorted_insert, sorted_listing, strictly_sorted};
use crate::telemetry::{
    BakeryRuntimeNodeBranchSnapshot, BakeryRuntimeOperationHeadlineSnapshot,
    BakeryRuntimeOperationsSnapshot,
};
use crate::text::{append_str, dec_int, dec_string_i64, lower_seq, lowercase_contains, owned, seq_contains};

verus! {

broadcast use vstd::std_specs::hash::group_hash_axioms;

/// Seconds between retries of a deferred runtime site prune.
pub const RUNTIME_SITE_PRUNE_RETRY_SECONDS: u64 = 30;
/// Attempts at a runtime site prune before giving up.
pub const RUNTIME_SITE_PRUNE_MAX_ATTEMPTS: u32 = 5;
/// Seconds between retries of a runtime cutover.
pub const RUNTIME_CUTOVER_RETRY_SECONDS: u64 = 1;
/// Dirty runtime subtrees tolerated before a full reload is required.
pub const RUNTIME_DIRTY_SUBTREE_RELOAD_THRESHOLD: usize = 3;
/// Runtime node operations that may be in flight at once.
pub const RUNTIME_NODE_OPERATION_CAPACITY: usize = 32;
/// Seconds before a deferred runtime node operation is retried.
pub const RUNTIME_NODE_OPERATION_DEFERRED_RETRY_SECONDS: u64 = 60;

/// Which retained branch of a virtualized node carries traffic.
#[derive(Clone, Copy, Debug, PartialEq, Eq, Structural)]
pub enum RuntimeVirtualizedActiveBranch {
    /// The flattened shadow branch.
    Shadow,
    /// The original physical branch.
    Original,
}

/// Lifecycle of a virtualized node's branches.
#[derive(Clone, Copy, Debug, PartialEq, Eq, Structural)]
pub enum RuntimeVirtualizedBranchLifecycle {
    /// The physical branch is active.
    PhysicalActive,
    /// The flattened branch is being built.
    FlattenBuildPending,
    /// Traffic is being moved to the flattened branch.
    CutoverPending,
    /// The flattened branch is active.
    FlattenedActive,
    /// The physical branch is being restored.
    RestorePending,
    /// The physical branch is active and the flattened one awaits cleanup.
    PhysicalActiveCleanupPending,
    /// The branches are in an unknown state.
    Failed,
}

/// Observed qdisc majors of a virtualized node's root.
#[derive(Clone, Copy, Debug, PartialEq, Eq, Structural)]
pub struct VirtualizedSiteQdiscHandles {
    /// Downlink major.
    pub down: Option<u16>,
    /// Uplink major.
    pub up: Option<u16>,
}

/// Retained state of a virtualized node.
#[derive(Debug)]
pub struct VirtualizedSiteState {
    /// Human site name.
    pub site_name: String,
    /// The node's own site command.
    pub site: BakeryCommands,
    /// Original descendant sites, kept for restore.
    pub saved_sites: HashMap<i64, BakeryCommands>,
    /// Original descendant circuits, kept for restore.
    pub saved_circuits: HashMap<i64, BakeryCommands>,
    /// Sites of the active branch.
    pub active_sites: HashMap<i64, BakeryCommands>,
    /// Circuits of the active branch.
    pub active_circuits: HashMap<i64, BakeryCommands>,
    /// Sites of the inactive branch, waiting to be pruned.
    pub prune_sites: HashMap<i64, BakeryCommands>,
    /// Circuits of the inactive branch, waiting to be pruned.
    pub prune_circuits: HashMap<i64, BakeryCommands>,
    /// Observed root qdisc majors.
    pub qdisc_handles: VirtualizedSiteQdiscHandles,
    /// Branch carrying traffic.
    pub active_branch: RuntimeVirtualizedActiveBranch,
    /// Lifecycle stage.
    pub lifecycle: RuntimeVirtualizedBranchLifecycle,
    /// Whether the inactive branch still has to be pruned.
    pub pending_prune: bool,
    /// Next prune attempt (unix seconds).
    pub next_prune_attempt_unix: u64,
}

impl VirtualizedSiteState {
    /// Whether traffic runs through the shadow branch, hiding the original site.
    pub fn active_branch_hides_original_site(&self) -> (r: bool)
        ensures
            r == (self.active_branch == RuntimeVirtualizedActiveBranch::Shadow),
    {
        match self.active_branch {
            RuntimeVirtualizedActiveBranch::Shadow => true,
            RuntimeVirtualizedActiveBranch::Original => false,
        }
    }
}

/// Lifecycle implied by the active branch and whether a prune is pending.
pub open spec fn lifecycle_for(
    active_branch: RuntimeVirtualizedActiveBranch,
    pending_prune: bool,
) -> RuntimeVirtualizedBranchLifecycle {
    match active_branch {
        RuntimeVirtualizedActiveBranch::Shadow => RuntimeVirtualizedBranchLifecycle::FlattenedActive,
        RuntimeVirtualizedActiveBranch::Original => if pending_prune {
            RuntimeVirtualizedBranchLifecycle::PhysicalActiveCleanupPending
        } else {
            RuntimeVirtualizedBranchLifecycle::PhysicalActive
        },
    }
}

/// The lifecycle implied by the active branch and pending prune.
pub fn lifecycle_from_active_branch(
    active_branch: RuntimeVirtualizedActiveBranch,
    pending_prune: bool,
) -> (r: RuntimeVirtualizedBranchLifecycle)
    ensures
        r == lifecycle_for(active_branch, pending_prune),
{
    match active_branch {
        RuntimeVirtualizedActiveBranch::Shadow => RuntimeVirtualizedBranchLifecycle::FlattenedActive,
        RuntimeVirtualizedActiveBranch::Original => {
            if pending_prune {
                RuntimeVirtualizedBranchLifecycle::PhysicalActiveCleanupPending
            } else {
                RuntimeVirtualizedBranchLifecycle::PhysicalActive
            }
        },
    }
}

/// A pending cutover stays pending; otherwise the lifecycle follows the
/// active branch.
pub fn preserve_cutover_pending_or_lifecycle_from_active_branch(state: &VirtualizedSiteState) -> (r:
    RuntimeVirtualizedBranchLifecycle)
    ensures
        r == if state.lifecycle == RuntimeVirtualizedBranchLifecycle::CutoverPending {
            RuntimeVirtualizedBranchLifecycle::CutoverPending
        } else {
            lifecycle_for(state.active_branch, state.pending_prune)
        },
{
    if state.lifecycle == RuntimeVirtualizedBranchLifecycle::CutoverPending {
        RuntimeVirtualizedBranchLifecycle::CutoverPending
    } else {
        lifecycle_from_active_branch(state.active_branch, state.pending_prune)
    }
}

/// Operation status reported for a virtualized node's lifecycle.
pub open spec fn status_for_lifecycle(
    lifecycle: RuntimeVirtualizedBranchLifecycle,
    pending_prune: bool,
) -> RuntimeNodeOperationStatus {
    match lifecycle {
        RuntimeVirtualizedBranchLifecycle::Failed => RuntimeNodeOperationStatus::Dirty,
        RuntimeVirtualizedBranchLifecycle::FlattenBuildPending
        | RuntimeVirtualizedBranchLifecycle::CutoverPending
        | RuntimeVirtualizedBranchLifecycle::RestorePending => RuntimeNodeOperationStatus::Applying,
        RuntimeVirtualizedBranchLifecycle::FlattenedActive
        | RuntimeVirtualizedBranchLifecycle::PhysicalActiveCleanupPending => if pending_prune {
            RuntimeNodeOperationStatus::AppliedAwaitingCleanup
        } else {
            RuntimeNodeOperationStatus::Completed
        },
        RuntimeVirtualizedBranchLifecycle::PhysicalActive => RuntimeNodeOperationStatus::Completed,
    }
}

/// The operation status that a virtualized node's state reports.
pub fn runtime_status_for_virtualized_state(state: &VirtualizedSiteState) -> (r:
    RuntimeNodeOperationStatus)
    ensures
        r == status_for_lifecycle(state.lifecycle, state.pending_prune),
{
    match state.lifecycle {
        RuntimeVirtualizedBranchLifecycle::Failed => RuntimeNodeOperationStatus::Dirty,
        RuntimeVirtualizedBranchLifecycle::FlattenedActive
        | RuntimeVirtualizedBranchLifecycle::PhysicalActiveCleanupPending => {
            if state.pending_prune {
                RuntimeNodeOperationStatus::AppliedAwaitingCleanup
            } else {
                RuntimeNodeOperationStatus::Completed
            }
        },
        RuntimeVirtualizedBranchLifecycle::FlattenBuildPending
        | RuntimeVirtualizedBranchLifecycle::CutoverPending
        | RuntimeVirtualizedBranchLifecycle::RestorePending => RuntimeNodeOperationStatus::Applying,
        RuntimeVirtualizedBranchLifecycle::PhysicalActive => RuntimeNodeOperationStatus::Completed,
    }
}

/// Name of a lifecycle stage.
pub open spec fn lifecycle_label(lifecycle: RuntimeVirtualizedBranchLifecycle) -> Seq<char> {
    match lifecycle {
        RuntimeVirtualizedBranchLifecycle::PhysicalActive => "PhysicalActive"@,
        RuntimeVirtualizedBranchLifecycle::FlattenBuildPending => "FlattenBuildPending"@,
        RuntimeVirtualizedBranchLifecycle::CutoverPending => "CutoverPending"@,
        RuntimeVirtualizedBranchLifecycle::FlattenedActive => "FlattenedActive"@,
        RuntimeVirtualizedBranchLifecycle::RestorePending => "RestorePending"@,
        RuntimeVirtualizedBranchLifecycle::PhysicalActiveCleanupPending => "PhysicalActiveCleanupPending"@,
        RuntimeVirtualizedBranchLifecycle::Failed => "Failed"@,
    }
}

/// The name of a lifecycle stage.
pub fn runtime_lifecycle_label(lifecycle: RuntimeVirtualizedBranchLifecycle) -> (r: &'static str)
    ensures
        r@ == lifecycle_label(lifecycle),
{
    match lifecycle {
        RuntimeVirtualizedBranchLifecycle::PhysicalActive => "PhysicalActive",
        RuntimeVirtualizedBranchLifecycle::FlattenBuildPending => "FlattenBuildPending",
        RuntimeVirtualizedBranchLifecycle::CutoverPending => "CutoverPending",
        RuntimeVirtualizedBranchLifecycle::FlattenedActive => "FlattenedActive",
        RuntimeVirtualizedBranchLifecycle::RestorePending => "RestorePending",
        RuntimeVirtualizedBranchLifecycle::PhysicalActiveCleanupPending => "PhysicalActiveCleanupPending",
        RuntimeVirtualizedBranchLifecycle::Failed => "Failed",
    }
}

/// Name of an active branch.
pub open spec fn active_branch_label(active_branch: RuntimeVirtualizedActiveBranch) -> Seq<char> {
    match active_branch {
        RuntimeVirtualizedActiveBranch::Shadow => "Shadow"@,
        RuntimeVirtualizedActiveBranch::Original => "Original"@,
    }
}

/// The name of an active branch.
pub fn runtime_active_branch_label(active_branch: RuntimeVirtualizedActiveBranch) -> (r:
    &'static str)
    ensures
        r@ == active_branch_label(active_branch),
{
    match active_branch {
        RuntimeVirtualizedActiveBranch::Shadow => "Shadow",
        RuntimeVirtualizedActiveBranch::Original => "Original",
    }
}

/// A runtime virtualize or restore request for one node.
#[derive(Debug)]
pub struct RuntimeNodeOperation {
    /// Monotonic operation identifier.
    pub operation_id: u64,
    /// Target site hash.
    pub site_hash: i64,
    /// Human site name, if known.
    pub site_name: Option<String>,
    /// Requested action.
    pub action: RuntimeNodeOperationAction,
    /// Current status.
    pub status: RuntimeNodeOperationStatus,
    /// Attempts so far.
    pub attempt_count: u32,
    /// Submission time (unix seconds).
    pub submitted_at_unix: u64,
    /// Last status change (unix seconds).
    pub updated_at_unix: u64,
    /// Next retry, if waiting.
    pub next_retry_at_unix: Option<u64>,
    /// Last error, if any.
    pub last_error: Option<String>,
    /// Structural failure reason, if any.
    pub failure_reason: Option<RuntimeNodeOperationFailureReason>,
}

impl RuntimeNodeOperation {
    /// A freshly submitted operation.
    pub fn new(
        operation_id: u64,
        site_hash: i64,
        site_name: Option<String>,
        action: RuntimeNodeOperationAction,
        now_unix: u64,
    ) -> (r: Self)
        ensures
            r.operation_id == operation_id,
            r.site_hash == site_hash,
            r.site_name == site_name,
            r.action == action,
            r.status == RuntimeNodeOperationStatus::Submitted,
            r.attempt_count == 0,
            r.submitted_at_unix == now_unix,
            r.updated_at_unix == now_unix,
            r.next_retry_at_unix is None,
            r.last_error is None,
            r.failure_reason is None,
    {
        RuntimeNodeOperation {
            operation_id,
            site_hash,
            site_name,
            action,
            status: RuntimeNodeOperationStatus::Submitted,
            attempt_count: 0,
            submitted_at_unix: now_unix,
            updated_at_unix: now_unix,
            next_retry_at_unix: None,
            last_error: None,
            failure_reason: None,
        }
    }

    /// The status-consumer view of this operation.
    pub fn snapshot(&self) -> (r: RuntimeNodeOperationSnapshot)
        ensures
            r == operation_snapshot_of(*self),
    {
        RuntimeNodeOperationSnapshot {
            operation_id: self.operation_id,
            site_hash: self.site_hash,
            action: self.action,
            status: self.status,
            attempt_count: self.attempt_count,
            submitted_at_unix: self.submitted_at_unix,
            updated_at_unix: self.updated_at_unix,
            next_retry_at_unix: self.next_retry_at_unix,
            last_error: crate::commands::clone_exact(&self.last_error),
            failure_reason: self.failure_reason,
        }
    }

    /// Moves to `status` at `now_unix`, clearing any structural failure reason.
    pub fn update_status(
        &mut self,
        status: RuntimeNodeOperationStatus,
        now_unix: u64,
        last_error: Option<String>,
        next_retry_at_unix: Option<u64>,
    )
        ensures
            *final(self) == (RuntimeNodeOperation {
                status,
                updated_at_unix: now_unix,
                last_error,
                failure_reason: None,
                next_retry_at_unix,
                ..*old(self)
            }),
    {
        self.update_status_with_reason(status, now_unix, last_error, None, next_retry_at_unix);
    }

    /// Moves to `status` at `now_unix` with the given error and failure reason.
    pub fn update_status_with_reason(
        &mut self,
        status: RuntimeNodeOperationStatus,
        now_unix: u64,
        last_error: Option<String>,
        failure_reason: Option<RuntimeNodeOperationFailureReason>,
        next_retry_at_unix: Option<u64>,
    )
        ensures
            *final(self) == (RuntimeNodeOperation {
                status,
                updated_at_unix: now_unix,
                last_error,
                failure_reason,
                next_retry_at_unix,
                ..*old(self)
            }),
    {
        self.status = status;
        self.updated_at_unix = now_unix;
        self.last_error = last_error;
        self.failure_reason = failure_reason;
        self.next_retry_at_unix = next_retry_at_unix;
    }
}

/// The status-consumer view of an operation (the site name is left out).
pub open spec fn operation_snapshot_of(o: RuntimeNodeOperation) -> RuntimeNodeOperationSnapshot {
    RuntimeNodeOperationSnapshot {
        operation_id: o.operation_id,
        site_hash: o.site_hash,
        action: o.action,
        status: o.status,
        attempt_count: o.attempt_count,
        submitted_at_unix: o.submitted_at_unix,
        updated_at_unix: o.updated_at_unix,
        next_retry_at_unix: o.next_retry_at_unix,
        last_error: o.last_error,
        failure_reason: o.failure_reason,
    }
}

/// `Virtualize` for a virtualize request, `Restore` otherwise.
pub fn runtime_node_operation_action(virtualized: bool) -> (r: RuntimeNodeOperationAction)
    ensures
        r == if virtualized {
            RuntimeNodeOperationAction::Virtualize
        } else {
            RuntimeNodeOperationAction::Restore
        },
{
    if virtualized {
        RuntimeNodeOperationAction::Virtualize
    } else {
        RuntimeNodeOperationAction::Restore
    }
}

/// Submitted, applying or awaiting cleanup.
pub open spec fn status_in_flight(status: RuntimeNodeOperationStatus) -> bool {
    ||| status == RuntimeNodeOperationStatus::Submitted
    ||| status == RuntimeNodeOperationStatus::Applying
    ||| status == RuntimeNodeOperationStatus::AppliedAwaitingCleanup
}

/// Whether an operation with this status is still in progress.
pub fn runtime_node_operation_is_active(status: RuntimeNodeOperationStatus) -> (r: bool)
    ensures
        r == status_in_flight(status),
{
    match status {
        RuntimeNodeOperationStatus::Submitted
        | RuntimeNodeOperationStatus::Applying
        | RuntimeNodeOperationStatus::AppliedAwaitingCleanup => true,
        _ => false,
    }
}

/// Whether an operation with this status takes one of the in-flight slots.
pub fn runtime_node_operation_consumes_capacity(status: RuntimeNodeOperationStatus) -> (r: bool)
    ensures
        r == status_in_flight(status),
{
    match status {
        RuntimeNodeOperationStatus::Submitted
        | RuntimeNodeOperationStatus::Applying
        | RuntimeNodeOperationStatus::AppliedAwaitingCleanup => true,
        _ => false,
    }
}

/// Sites whose operation satisfies `p`.
pub open spec fn sites_where(
    ops: Map<i64, RuntimeNodeOperation>,
    p: spec_fn(RuntimeNodeOperation) -> bool,
) -> Set<i64> {
    ops.dom().filter(|k: i64| p(ops[k]))
}

/// Number of operations occupying an in-flight slot.
pub fn active_runtime_node_operation_count(ops: &HashMap<i64, RuntimeNodeOperation>) -> (r: usize)
    ensures
        r == sites_where(ops@, |o: RuntimeNodeOperation| status_in_flight(o.status)).len(),
{
    let keys = map_keys(ops);
    let ghost m = ops@;
    let ghost q = |k: i64| status_in_flight(m[k].status);
    let mut count: usize = 0;
    let mut i: usize = 0;
    proof {
        lemma_filter_prefix_ends(keys@, q);
    }
    while i < keys.len()
        invariant
            m == ops@,
            q == (|k: i64| status_in_flight(m[k].status)),
            keys@.no_duplicates(),
            keys@.to_set() == m.dom(),
            i <= keys@.len(),
            count <= i,
            count == keys@.take(i as int).to_set().filter(q).len(),
        decreases keys@.len() - i,
    {
        let k = keys[i];
        proof {
            lemma_filter_prefix_step(keys@, i as int, q);
            assert(keys@.to_set().contains(k)) by {
                assert(keys@.contains(k));
            }
        }
        let hit = match ops.get(&k) {
            Some(o) => {
                assert(*o == m[k]);
                runtime_node_operation_consumes_capacity(o.status)
            },
            None => false,
        };
        if hit {
            count = count + 1;
        }
        i = i + 1;
    }
    proof {
        lemma_filter_prefix_ends(keys@, q);
        assert(keys@.to_set().filter(q) =~= sites_where(
            m,
            |o: RuntimeNodeOperation| status_in_flight(o.status),
        ));
    }
    count
}

/// The headline of an operation.
pub open spec fn headline_of(o: RuntimeNodeOperation) -> BakeryRuntimeOperationHeadlineSnapshot {
    BakeryRuntimeOperationHeadlineSnapshot {
        operation_id: o.operation_id,
        site_hash: o.site_hash,
        site_name: o.site_name,
        action: o.action,
        status: o.status,
        attempt_count: o.attempt_count,
        updated_at_unix: o.updated_at_unix,
        next_retry_at_unix: o.next_retry_at_unix,
        last_error: o.last_error,
    }
}

/// Failed with a structural reason: blocked until the topology changes.
pub open spec fn op_blocked(o: RuntimeNodeOperation) -> bool {
    o.status == RuntimeNodeOperationStatus::Failed && o.failure_reason is Some
}

/// Failed without a structural reason.
pub open spec fn op_failed(o: RuntimeNodeOperation) -> bool {
    o.status == RuntimeNodeOperationStatus::Failed && o.failure_reason is None
}

/// The summary counts each status (failures split into blocked and failed) and
/// names a most recently updated operation.
pub open spec fn operations_summary(
    ops: Map<i64, RuntimeNodeOperation>,
    r: BakeryRuntimeOperationsSnapshot,
) -> bool {
    &&& r.submitted_count == sites_where(
        ops,
        |o: RuntimeNodeOperation| o.status == RuntimeNodeOperationStatus::Submitted,
    ).len()
    &&& r.deferred_count == sites_where(
        ops,
        |o: RuntimeNodeOperation| o.status == RuntimeNodeOperationStatus::Deferred,
    ).len()
    &&& r.applying_count == sites_where(
        ops,
        |o: RuntimeNodeOperation| o.status == RuntimeNodeOperationStatus::Applying,
    ).len()
    &&& r.awaiting_cleanup_count == sites_where(
        ops,
        |o: RuntimeNodeOperation| o.status == RuntimeNodeOperationStatus::AppliedAwaitingCleanup,
    ).len()
    &&& r.failed_count == sites_where(ops, |o: RuntimeNodeOperation| op_failed(o)).len()
    &&& r.blocked_count == sites_where(ops, |o: RuntimeNodeOperation| op_blocked(o)).len()
    &&& r.dirty_count == sites_where(
        ops,
        |o: RuntimeNodeOperation| o.status == RuntimeNodeOperationStatus::Dirty,
    ).len()
    &&& (r.latest is None <==> ops.dom().len() == 0)
    &&& (r.latest matches Some(h) ==> exists|k: i64|
        {
            &&& #[trigger] ops.dom().contains(k)
            &&& h == headline_of(ops[k])
            &&& forall|j: i64| ops.dom().contains(j) ==> #[trigger] ops[j].updated_at_unix
                <= ops[k].updated_at_unix
        })
}

/// Counts the tracked operations by status and picks a most recently updated
/// one as the headline (among equally recent ones, whichever the map yields last).
pub fn rebuild_runtime_operations_snapshot(ops: &HashMap<i64, RuntimeNodeOperation>) -> (r:
    BakeryRuntimeOperationsSnapshot)
    ensures
        operations_summary(ops@, r),
{
    let keys = map_keys(ops);
    let ghost m = ops@;
    let ghost q_sub = |k: i64| m[k].status == RuntimeNodeOperationStatus::Submitted;
    let ghost q_def = |k: i64| m[k].status == RuntimeNodeOperationStatus::Deferred;
    let ghost q_app = |k: i64| m[k].status == RuntimeNodeOperationStatus::Applying;
    let ghost q_aw = |k: i64| m[k].status == RuntimeNodeOperationStatus::AppliedAwaitingCleanup;
    let ghost q_fail = |k: i64| op_failed(m[k]);
    let ghost q_blk = |k: i64| op_blocked(m[k]);
    let ghost q_dirty = |k: i64| m[k].status == RuntimeNodeOperationStatus::Dirty;
    let mut submitted: usize = 0;
    let mut deferred: usize = 0;
    let mut applying: usize = 0;
    let mut awaiting: usize = 0;
    let mut failed: usize = 0;
    let mut blocked: usize = 0;
    let mut dirty: usize = 0;
    let mut best: Option<usize> = None;
    let mut i: usize = 0;
    proof {
        lemma_filter_prefix_ends(keys@, q_sub);
        lemma_filter_prefix_ends(keys@, q_def);
        lemma_filter_prefix_ends(keys@, q_app);
        lemma_filter_prefix_ends(keys@, q_aw);
        lemma_filter_prefix_ends(keys@, q_fail);
        lemma_filter_prefix_ends(keys@, q_blk);
        lemma_filter_prefix_ends(keys@, q_dirty);
    }
    while i < keys.len()
        invariant
            m == ops@,
            q_sub == (|k: i64| m[k].status == RuntimeNodeOperationStatus::Submitted),
            q_def == (|k: i64| m[k].status == RuntimeNodeOperationStatus::Deferred),
            q_app == (|k: i64| m[k].status == RuntimeNodeOperationStatus::Applying),
            q_aw == (|k: i64| m[k].status == RuntimeNodeOperationStatus::AppliedAwaitingCleanup),
            q_fail == (|k: i64| op_failed(m[k])),
            q_blk == (|k: i64| op_blocked(m[k])),
            q_dirty == (|k: i64| m[k].status == RuntimeNodeOperationStatus::Dirty),
            keys@.no_duplicates(),
            keys@.to_set() == m.dom(),
            i <= keys@.len(),
            submitted <= i && deferred <= i && applying <= i && awaiting <= i,
            failed <= i && blocked <= i && dirty <= i,
            submitted == keys@.take(i as int).to_set().filter(q_sub).len(),
            deferred == keys@.take(i as int).to_set().filter(q_def).len(),
            applying == keys@.take(i as int).to_set().filter(q_app).len(),
            awaiting == keys@.take(i as int).to_set().filter(q_aw).len(),
            failed == keys@.take(i as int).to_set().filter(q_fail).len(),
            blocked == keys@.take(i as int).to_set().filter(q_blk).len(),
            dirty == keys@.take(i as int).to_set().filter(q_dirty).len(),
            best is None <==> i == 0,
            best matches Some(b) ==> b < i && forall|j: int|
                0 <= j < i ==> #[trigger] m[keys@[j]].updated_at_unix <= m[keys@[b as int]].updated_at_unix,
        decreases keys@.len() - i,
    {
        let k = keys[i];
        proof {
            lemma_filter_prefix_step(keys@, i as int, q_sub);
            lemma_filter_prefix_step(keys@, i as int, q_def);
            lemma_filter_prefix_step(keys@, i as int, q_app);
            lemma_filter_prefix_step(keys@, i as int, q_aw);
            lemma_filter_prefix_step(keys@, i as int, q_fail);
            lemma_filter_prefix_step(keys@, i as int, q_blk);
            lemma_filter_prefix_step(keys@, i as int, q_dirty);
            assert(keys@.to_set().contains(k)) by {
                assert(keys@.contains(k));
            }
        }
        match ops.get(&k) {
            Some(o) => {
                assert(*o == m[k]);
                match o.status {
                    RuntimeNodeOperationStatus::Submitted => submitted = submitted + 1,
                    RuntimeNodeOperationStatus::Deferred => deferred = deferred + 1,
                    RuntimeNodeOperationStatus::Applying => applying = applying + 1,
                    RuntimeNodeOperationStatus::AppliedAwaitingCleanup => awaiting = awaiting + 1,
                    RuntimeNodeOperationStatus::Failed => {
                        if o.failure_reason.is_some() {
                            blocked = blocked + 1;
                        } else {
                            failed = failed + 1;
                        }
                    },
                    RuntimeNodeOperationStatus::Dirty => dirty = dirty + 1,
                    RuntimeNodeOperationStatus::Completed => {},
                }
                let better = match best {
                    None => true,
                    Some(b) => {
                        let bk = keys[b];
                        assert(keys@.to_set().contains(bk)) by {
                            assert(keys@.contains(bk));
                        }
                        match ops.get(&bk) {
                            Some(bo) => {
                                assert(*bo == m[bk]);
                                bo.updated_at_unix <= o.updated_at_unix
                            },
                            None => false,
                        }
                    },
                };
                if better {
                    best = Some(i);
                }
            },
            None => {
                assert(false);
            },
        }
        i = i + 1;
    }
    proof {
        lemma_filter_prefix_ends(keys@, q_sub);
    }
    let latest = match best {
        None => None,
        Some(b) => {
            let bk = keys[b];
            match ops.get(&bk) {
                Some(o) => Some(
                    BakeryRuntimeOperationHeadlineSnapshot {
                        operation_id: o.operation_id,
                        site_hash: o.site_hash,
                        site_name: crate::commands::clone_exact(&o.site_name),
                        action: o.action,
                        status: o.status,
                        attempt_count: o.attempt_count,
                        updated_at_unix: o.updated_at_unix,
                        next_retry_at_unix: o.next_retry_at_unix,
                        last_error: crate::commands::clone_exact(&o.last_error),
                    },
                ),
                None => None,
            }
        },
    };
    proof {
        assert(keys@.to_set().filter(q_sub) =~= sites_where(
            m,
            |o: RuntimeNodeOperation| o.status == RuntimeNodeOperationStatus::Submitted,
        ));
        assert(keys@.to_set().filter(q_def) =~= sites_where(
            m,
            |o: RuntimeNodeOperation| o.status == RuntimeNodeOperationStatus::Deferred,
        ));
        assert(keys@.to_set().filter(q_app) =~= sites_where(
            m,
            |o: RuntimeNodeOperation| o.status == RuntimeNodeOperationStatus::Applying,
        ));
        assert(keys@.to_set().filter(q_aw) =~= sites_where(
            m,
            |o: RuntimeNodeOperation| o.status == RuntimeNodeOperationStatus::AppliedAwaitingCleanup,
        ));
        assert(keys@.to_set().filter(q_fail) =~= sites_where(m, |o: RuntimeNodeOperation| op_failed(o)));
        assert(keys@.to_set().filter(q_blk) =~= sites_where(m, |o: RuntimeNodeOperation| op_blocked(o)));
        assert(keys@.to_set().filter(q_dirty) =~= sites_where(
            m,
            |o: RuntimeNodeOperation| o.status == RuntimeNodeOperationStatus::Dirty,
        ));
        keys@.unique_seq_to_set();
        if let Some(b) = best {
            let bk = keys@[b as int];
            assert(keys@.contains(bk));
            assert(m.dom().contains(bk));
            assert forall|j: i64| m.dom().contains(j) implies #[trigger] m[j].updated_at_unix
                <= m[bk].updated_at_unix by {
                assert(keys@.to_set().contains(j));
                assert(keys@.contains(j));
                let x = choose|x: int| 0 <= x < keys@.len() && keys@[x] == j;
                assert(m[keys@[x]].updated_at_unix <= m[keys@[b as int]].updated_at_unix);
            }
        } else {
            assert(keys@.len() == 0);
        }
    }
    BakeryRuntimeOperationsSnapshot {
        submitted_count: submitted,
        deferred_count: deferred,
        applying_count: applying,
        awaiting_cleanup_count: awaiting,
        failed_count: failed,
        blocked_count: blocked,
        dirty_count: dirty,
        latest,
    }
}

/// Failure text that indicates the live tree no longer matches Bakery's model.
pub open spec fn suggests_material_desync(summary: Seq<char>) -> bool {
    let lower = lower_seq(summary);
    ||| seq_contains(lower, "rtnetlink"@)
    ||| seq_contains(lower, "specified class not found"@)
    ||| seq_contains(lower, "cannot find specified qdisc"@)
    ||| seq_contains(lower, "cannot move an existing qdisc"@)
    ||| seq_contains(lower, "device or resource busy"@)
    ||| seq_contains(lower, "top-level runtime cutover failed"@)
    ||| seq_contains(lower, "top-level runtime cutover verification failed"@)
    ||| seq_contains(lower, "unexpected live child classes"@)
}

/// Whether a runtime failure suggests the live tree has drifted from Bakery's
/// model (case-insensitive match against known `tc` errors).
pub fn runtime_error_suggests_material_desync(summary: &str) -> (r: bool)
    ensures
        r == suggests_material_desync(summary@),
{
    lowercase_contains(summary, "rtnetlink")
        || lowercase_contains(summary, "specified class not found")
        || lowercase_contains(summary, "cannot find specified qdisc")
        || lowercase_contains(summary, "cannot move an existing qdisc")
        || lowercase_contains(summary, "device or resource busy")
        || lowercase_contains(summary, "top-level runtime cutover failed")
        || lowercase_contains(summary, "top-level runtime cutover verification failed")
        || lowercase_contains(summary, "unexpected live child classes")
}

/// Whether a runtime prune failed only because the qdisc was already gone.
pub fn runtime_site_prune_missing_qdisc_is_harmless(summary: &str) -> (r: bool)
    ensures
        r == seq_contains(lower_seq(summary@), "cannot find specified qdisc on specified device"@),
{
    lowercase_contains(summary, "cannot find specified qdisc on specified device")
}

/// The keys of a map in increasing order.
pub fn sorted_keys<V>(m: &HashMap<i64, V>) -> (r: Vec<i64>)
    ensures
        sorted_listing(r@, m@.dom()),
{
    let keys = map_keys(m);
    let mut out: Vec<i64> = Vec::new();
    let mut i: usize = 0;
    while i < keys.len()
        invariant
            i <= keys@.len(),
            keys@.no_duplicates(),
            strictly_sorted(out@),
            out@.to_set() == keys@.take(i as int).to_set(),
        decreases keys@.len() - i,
    {
        let k = keys[i];
        proof {
            assert(!out@.contains(k)) by {
                if out@.contains(k) {
                    assert(out@.to_set().contains(k));
                    assert(keys@.take(i as int).contains(k));
                    let j = choose|j: int| 0 <= j < i && #[trigger] keys@.take(i as int)[j] == k;
                    assert(keys@[j] == keys@[i as int]);
                }
            }
        }
        sorted_insert(&mut out, k);
        proof {
            assert(keys@.take(i + 1) =~= keys@.take(i as int).push(k));
            assert(keys@.take(i + 1).to_set() =~= keys@.take(i as int).to_set().insert(k)) by {
                assert forall|x: i64| #[trigger] keys@.take(i + 1).to_set().contains(x)
                    <==> keys@.take(i as int).to_set().insert(k).contains(x) by {
                    crate::summary::lemma_push_contains(keys@.take(i as int), k, x);
                }
            }
        }
        i = i + 1;
    }
    assert(keys@.take(keys@.len() as int) =~= keys@);
    out
}

/// The branch snapshot that a virtualized node's state reports.
pub open spec fn branch_snapshot_reflects(
    b: BakeryRuntimeNodeBranchSnapshot,
    site_hash: i64,
    state: VirtualizedSiteState,
) -> bool {
    &&& b.site_hash == site_hash
    &&& b.site_name@ == state.site_name@
    &&& b.active_branch@ == active_branch_label(state.active_branch)
    &&& b.lifecycle@ == lifecycle_label(state.lifecycle)
    &&& b.pending_prune == state.pending_prune
    &&& b.next_prune_attempt_unix == if state.pending_prune {
        Some(state.next_prune_attempt_unix)
    } else {
        None
    }
    &&& sorted_listing(b.active_site_hashes@, state.active_sites@.dom())
    &&& sorted_listing(b.saved_site_hashes@, state.saved_sites@.dom())
    &&& sorted_listing(b.prune_site_hashes@, state.prune_sites@.dom())
    &&& b.qdisc_down_major == state.qdisc_handles.down
    &&& b.qdisc_up_major == state.qdisc_handles.up
}

/// The branch snapshot of one virtualized node.
pub fn runtime_branch_snapshot(site_hash: i64, state: &VirtualizedSiteState) -> (r:
    BakeryRuntimeNodeBranchSnapshot)
    ensures
        branch_snapshot_reflects(r, site_hash, *state),
{
    BakeryRuntimeNodeBranchSnapshot {
        site_hash,
        site_name: owned(state.site_name.as_str()),
        active_branch: owned(runtime_active_branch_label(state.active_branch)),
        lifecycle: owned(runtime_lifecycle_label(state.lifecycle)),
        pending_prune: state.pending_prune,
        next_prune_attempt_unix: if state.pending_prune {
            Some(state.next_prune_attempt_unix)
        } else {
            None
        },
        active_site_hashes: sorted_keys(&state.active_sites),
        saved_site_hashes: sorted_keys(&state.saved_sites),
        prune_site_hashes: sorted_keys(&state.prune_sites),
        qdisc_down_major: state.qdisc_handles.down,
        qdisc_up_major: state.qdisc_handles.up,
    }
}

/// Branch snapshots of every virtualized node, keyed like the states.
pub fn rebuild_runtime_branch_snapshots(states: &HashMap<i64, VirtualizedSiteState>) -> (r: HashMap<
    i64,
    BakeryRuntimeNodeBranchSnapshot,
>)
    ensures
        r@.dom() == states@.dom(),
        forall|k: i64| #[trigger]
            r@.contains_key(k) ==> branch_snapshot_reflects(r@[k], k, states@[k]),
{
    let keys = map_keys(states);
    let ghost m = states@;
    let mut out: HashMap<i64, BakeryRuntimeNodeBranchSnapshot> = HashMap::new();
    let mut i: usize = 0;
    while i < keys.len()
        invariant
            m == states@,
            i <= keys@.len(),
            keys@.to_set() == m.dom(),
            out@.dom() == keys@.take(i as int).to_set(),
            forall|k: i64| #[trigger]
                out@.contains_key(k) ==> branch_snapshot_reflects(out@[k], k, m[k]),
        decreases keys@.len() - i,
    {
        let k = keys[i];
        proof {
            assert(keys@.to_set().contains(k)) by {
                assert(keys@.contains(k));
            }
        }
        match states.get(&k) {
            Some(st) => {
                assert(*st == m[k]);
                let snap = runtime_branch_snapshot(k, st);
                out.insert(k, snap);
            },
            None => {
                assert(false);
            },
        }
        proof {
            assert(keys@.take(i + 1) =~= keys@.take(i as int).push(k));
            assert forall|x: i64| #[trigger] keys@.take(i + 1).to_set().contains(x)
                <==> keys@.take(i as int).to_set().insert(k).contains(x) by {
                crate::summary::lemma_push_contains(keys@.take(i as int), k, x);
            }
            assert(out@.dom() =~= keys@.take(i + 1).to_set());
        }
        i = i + 1;
    }
    assert(keys@.take(keys@.len() as int) =~= keys@);
    out
}

/// `<name> (<hash>)` for a named entity, `<hash>` otherwise.
pub open spec fn labelled(hash: i64, name: Option<Seq<char>>) -> Seq<char> {
    match name {
        Some(n) if n.len() > 0 => n + " ("@ + dec_int(hash as int) + ")"@,
        _ => dec_int(hash as int),
    }
}

/// `<name>` for a named entity, `<hash>` otherwise.
pub open spec fn display_name(hash: i64, name: Option<Seq<char>>) -> Seq<char> {
    match name {
        Some(n) if n.len() > 0 => n,
        _ => dec_int(hash as int),
    }
}

/// View of an optional string slice.
pub open spec fn opt_str_view(o: Option<&str>) -> Option<Seq<char>> {
    match o {
        Some(s) => Some(s@),
        None => None,
    }
}

/// `<name> (<hash>)`, or the hash alone when the name is missing or empty.
pub fn runtime_site_label(site_hash: i64, site_name: Option<&str>) -> (r: String)
    ensures
        r@ == labelled(site_hash, opt_str_view(site_name)),
{
    match site_name {
        Some(name) if name.unicode_len() > 0 => {
            let mut s = owned(name);
            append_str(&mut s, " (");
            let h = dec_string_i64(site_hash);
            append_str(&mut s, h.as_str());
            append_str(&mut s, ")");
            s
        },
        _ => dec_string_i64(site_hash),
    }
}

/// The site's name, or its hash when the name is missing or empty.
pub fn runtime_site_display_name(site_hash: i64, site_name: Option<&str>) -> (r: String)
    ensures
        r@ == display_name(site_hash, opt_str_view(site_name)),
{
    match site_name {
        Some(name) if name.unicode_len() > 0 => owned(name),
        _ => dec_string_i64(site_hash),
    }
}

/// `<name> (<hash>)`, or the hash alone when the name is missing or empty.
pub fn runtime_circuit_label(circuit_hash: i64, circuit_name: Option<&str>) -> (r: String)
    ensures
        r@ == labelled(circuit_hash, opt_str_view(circuit_name)),
{
    runtime_site_label(circuit_hash, circuit_name)
}

/// Why a node cannot be virtualized, with a structural reason when the
/// topology itself prevents it.
#[derive(Debug)]
pub struct RuntimeNodeEligibilityError {
    /// Operator-facing message.
    pub message: String,
    /// Structural reason, if any.
    pub failure_reason: Option<RuntimeNodeOperationFailureReason>,
}

impl RuntimeNodeEligibilityError {
    /// An error without a structural reason.
    pub fn plain(message: String) -> (r: Self)
        ensures
            r.message == message,
            r.failure_reason is None,
    {
        RuntimeNodeEligibilityError { message, failure_reason: None }
    }

    /// An error with a structural reason.
    pub fn new(message: String, failure_reason: RuntimeNodeOperationFailureReason) -> (r: Self)
        ensures
            r.message == message,
            r.failure_reason == Some(failure_reason),
    {
        RuntimeNodeEligibilityError { message, failure_reason: Some(failure_reason) }
    }
}

/// The message for a retained branch whose node or a retained child site has
/// left the topology.
pub open spec fn stale_branch_message(label: Seq<char>, missing_child: Option<i64>) -> Seq<char> {
    match missing_child {
        None => "Bakery dropped stale retained runtime branch for "@ + label
            + " because the backing node is no longer present in current topology."@,
        Some(h) => "Bakery dropped stale retained runtime branch for "@ + label
            + " because retained child site hash "@ + dec_int(h as int)
            + " is no longer present in current topology."@,
    }
}

/// Why a retained runtime branch is stale, if it is: its node left the topology
/// (checked first), or one of its retained child sites did (any one of them,
/// in the map's order).
pub fn stale_retained_runtime_branch_summary(
    site_hash: i64,
    saved_state: &VirtualizedSiteState,
    current_site_names: &HashMap<i64, String>,
) -> (r: Option<String>)
    ensures
        !current_site_names@.contains_key(site_hash) ==> opt_view(r) == Some(
            stale_branch_message(labelled(site_hash, Some(saved_state.site_name@)), None),
        ),
        current_site_names@.contains_key(site_hash) ==> (r is None <==> saved_state.saved_sites@.dom().subset_of(
            current_site_names@.dom(),
        )),
        current_site_names@.contains_key(site_hash) && r is Some ==> exists|h: i64|
            #[trigger] saved_state.saved_sites@.contains_key(h) && !current_site_names@.contains_key(h)
                && opt_view(r) == Some(
                stale_branch_message(labelled(site_hash, Some(saved_state.site_name@)), Some(h)),
            ),
{
    let label = runtime_site_label(site_hash, Some(saved_state.site_name.as_str()));
    if !current_site_names.contains_key(&site_hash) {
        let mut s = owned("Bakery dropped stale retained runtime branch for ");
        append_str(&mut s, label.as_str());
        append_str(&mut s, " because the backing node is no longer present in current topology.");
        return Some(s);
    }
    let saved = map_keys(&saved_state.saved_sites);
    let mut i: usize = 0;
    while i < saved.len()
        invariant
            i <= saved@.len(),
            saved@.to_set() == saved_state.saved_sites@.dom(),
            current_site_names@.contains_key(site_hash),
            label@ == labelled(site_hash, Some(saved_state.site_name@)),
            forall|j: int| 0 <= j < i ==> current_site_names@.contains_key(#[trigger] saved@[j]),
        decreases saved@.len() - i,
    {
        let h = saved[i];
        if !current_site_names.contains_key(&h) {
            assert(saved@.to_set().contains(h)) by {
                assert(saved@.contains(h));
            }
            let mut s = owned("Bakery dropped stale retained runtime branch for ");
            append_str(&mut s, label.as_str());
            append_str(&mut s, " because retained child site hash ");
            let hs = dec_string_i64(h);
            append_str(&mut s, hs.as_str());
            append_str(&mut s, " is no longer present in current topology.");
            return Some(s);
        }
        i = i + 1;
    }
    proof {
        assert forall|h: i64| saved_state.saved_sites@.dom().contains(h) implies current_site_names@.dom().contains(h) by {
            assert(saved@.to_set().contains(h));
            assert(saved@.contains(h));
            let j = choose|j: int| 0 <= j < saved@.len() && saved@[j] == h;
            assert(current_site_names@.contains_key(saved@[j]));
        }
    }
    None
}

/// `<origin>(owner_site_hash=<h>, owner_site_name=<name>, lifecycle=<L>,
/// active_branch=<B>, pending_prune=<true|false>)`.
pub open spec fn virtualized_site_source(owner_site_hash: i64, state: VirtualizedSiteState, origin: Seq<
    char,
>) -> Seq<char> {
    origin + "(owner_site_hash="@ + dec_int(owner_site_hash as int) + ", owner_site_name="@
        + state.site_name@ + ", lifecycle="@ + lifecycle_label(state.lifecycle) + ", active_branch="@
        + active_branch_label(state.active_branch) + ", pending_prune="@ + (if state.pending_prune {
        "true"@
    } else {
        "false"@
    }) + ")"@
}

/// Describes which virtualized node a structural baseline entry came from.
pub fn format_virtualized_site_source(
    owner_site_hash: i64,
    owner_state: &VirtualizedSiteState,
    origin: &str,
) -> (r: String)
    ensures
        r@ == virtualized_site_source(owner_site_hash, *owner_state, origin@),
{
    let mut s = owned(origin);
    append_str(&mut s, "(owner_site_hash=");
    append_str(&mut s, dec_string_i64(owner_site_hash).as_str());
    append_str(&mut s, ", owner_site_name=");
    append_str(&mut s, owner_state.site_name.as_str());
    append_str(&mut s, ", lifecycle=");
    append_str(&mut s, runtime_lifecycle_label(owner_state.lifecycle));
    append_str(&mut s, ", active_branch=");
    append_str(&mut s, runtime_active_branch_label(owner_state.active_branch));
    append_str(&mut s, ", pending_prune=");
    append_str(&mut s, if owner_state.pending_prune {
        "true"
    } else {
        "false"
    });
    append_str(&mut s, ")");
    s
}

/// The name of a site: from the current topology when it lists the site,
/// else the name kept with its virtualized state.
pub open spec fn runtime_site_name(
    site_hash: i64,
    names: Option<Map<i64, String>>,
    vs: Map<i64, VirtualizedSiteState>,
) -> Option<Seq<char>> {
    if names matches Some(n) && n.contains_key(site_hash) {
        Some(names->0[site_hash]@)
    } else if vs.contains_key(site_hash) {
        Some(vs[site_hash].site_name@)
    } else {
        None
    }
}

/// Resolves the display name of a site (see [`runtime_site_name`]).
pub fn resolve_runtime_site_name(
    site_hash: i64,
    current_site_names: Option<&HashMap<i64, String>>,
    virtualized_sites: &HashMap<i64, VirtualizedSiteState>,
) -> (r: Option<String>)
    ensures
        opt_view(r) == runtime_site_name(
            site_hash,
            match current_site_names {
                Some(m) => Some(m@),
                None => None,
            },
            virtualized_sites@,
        ),
{
    match current_site_names {
        Some(names) => match names.get(&site_hash) {
            Some(name) => {
                return Some(owned(name.as_str()));
            },
            None => {},
        },
        None => {},
    }
    match virtualized_sites.get(&site_hash) {
        Some(state) => Some(owned(state.site_name.as_str())),
        None => None,
    }
}

} // verus!
