//! Operator-facing Bakery telemetry: current mode, apply progress, the last
//! apply's metrics, reload-required state and a bounded recent-activity log.
use vstd::prelude::*;
use std::collections::HashMap;
use std::collections::VecDeque;
use crate::commands::{
    clone_opt_string, opt_view, RuntimeNodeOperationAction, RuntimeNodeOperationSnapshot,
    RuntimeNodeOperationStatus,
};
use crate::maps::map_keys;
use crate::text::{append_str, dec_seq, dec_string, owned, seq_starts_with, str_starts_with};

verus! {

broadcast use vstd::std_specs::hash::group_hash_axioms;

/// Number of recent activity entries Bakery retains.
pub const BAKERY_EVENT_LIMIT: usize = 50;
/// Hard kernel limit for auto-allocated qdisc handles on a single network interface.
pub const HARD_QDISC_HANDLE_LIMIT_PER_INTERFACE: usize = 65_534;
/// Conservative operational limit used to fail a full reload before qdisc handle exhaustion.
pub const SAFE_QDISC_BUDGET_PER_INTERFACE: usize = 65_000;

/// High-level Bakery execution mode for operator-facing status.
#[derive(Clone, Copy, Debug, PartialEq, Eq, Structural)]
pub enum BakeryMode {
    /// Bakery is not currently applying queue changes.
    Idle,
    /// Bakery is applying a structural full reload.
    ApplyingFullReload,
    /// Bakery is applying an incremental or live change.
    ApplyingLiveChange,
}

/// Type of the most recent apply action recorded by Bakery.
#[derive(Clone, Copy, Debug, PartialEq, Eq, Structural)]
pub enum BakeryApplyType {
    /// No apply has been recorded yet.
    NotRecorded,
    /// A full reload apply.
    FullReload,
    /// A live/incremental apply.
    LiveChange,
}

/// Per-interface qdisc budget usage snapshot for Bakery UI/status.
#[derive(Clone, Debug, PartialEq, Eq)]
pub struct BakeryCapacityInterfaceSnapshot {
    /// Interface name, e.g. `ens19`.
    pub name: String,
    /// Planned qdisc count for that interface.
    pub planned_qdiscs: usize,
    /// Planned infrastructure qdiscs (`mq`, `htb`, etc.) for that interface.
    pub infra_qdiscs: usize,
    /// Planned `cake` leaf qdiscs for that interface.
    pub cake_qdiscs: usize,
    /// Planned `fq_codel` leaf qdiscs for that interface.
    pub fq_codel_qdiscs: usize,
    /// Estimated kernel memory cost for that interface's planned qdiscs.
    pub estimated_memory_bytes: u64,
}

/// Per-interface live qdisc usage snapshot for Bakery UI/status.
#[derive(Clone, Debug, PartialEq, Eq)]
pub struct BakeryLiveCapacityInterfaceSnapshot {
    /// Interface name, e.g. `ens19`.
    pub name: String,
    /// Current live qdisc handle count observed on the interface.
    pub live_qdiscs: usize,
}

/// Per-queue-root queue layout summary for Bakery UI/status.
#[derive(Clone, Copy, Debug, PartialEq, Eq, Structural)]
pub struct BakeryQueueDistributionSnapshot {
    /// Queue/root number, e.g. `1` for `Q1`.
    pub queue: u32,
    /// Number of top-level sites currently assigned to this queue.
    pub top_level_site_count: usize,
    /// Total sites currently assigned to this queue.
    pub site_count: usize,
    /// Total circuits currently assigned to this queue.
    pub circuit_count: usize,
    /// Aggregate configured downstream max Mbps for circuits on this queue.
    pub download_mbps: u64,
    /// Aggregate configured upstream max Mbps for circuits on this queue.
    pub upload_mbps: u64,
}

/// Latest Bakery-tracked runtime node operation for UI/status.
#[derive(Clone, Debug, PartialEq, Eq)]
pub struct BakeryRuntimeOperationHeadlineSnapshot {
    /// Monotonic Bakery-local operation identifier.
    pub operation_id: u64,
    /// Stable Bakery site hash derived from the node name.
    pub site_hash: i64,
    /// Human site name retained by Bakery when the runtime operation was created.
    pub site_name: Option<String>,
    /// Requested runtime action.
    pub action: RuntimeNodeOperationAction,
    /// Current operation status.
    pub status: RuntimeNodeOperationStatus,
    /// Number of attempts performed so far.
    pub attempt_count: u32,
    /// Unix timestamp when the operation last changed state.
    pub updated_at_unix: u64,
    /// Optional unix timestamp for the next retry, if waiting.
    pub next_retry_at_unix: Option<u64>,
    /// Last error observed by Bakery for this operation, if any.
    pub last_error: Option<String>,
}

/// Latest Bakery-tracked runtime branch-state snapshot for a single node.
#[derive(Clone, Debug, PartialEq, Eq)]
pub struct BakeryRuntimeNodeBranchSnapshot {
    /// Stable Bakery site hash derived from the node name.
    pub site_hash: i64,
    /// Human site name retained by Bakery when the runtime branch was created.
    pub site_name: String,
    /// Which retained branch is currently active for this node.
    pub active_branch: String,
    /// Current runtime lifecycle label for this node.
    pub lifecycle: String,
    /// Whether Bakery is still waiting to prune the inactive branch.
    pub pending_prune: bool,
    /// Optional unix timestamp for the next cleanup retry, if one is pending.
    pub next_prune_attempt_unix: Option<u64>,
    /// Hashes of branch sites currently marked active.
    pub active_site_hashes: Vec<i64>,
    /// Hashes of original/saved sites retained for restore logic.
    pub saved_site_hashes: Vec<i64>,
    /// Hashes of inactive-branch sites queued for pruning.
    pub prune_site_hashes: Vec<i64>,
    /// Observed downlink qdisc major for the runtime root, if known.
    pub qdisc_down_major: Option<u16>,
    /// Observed uplink qdisc major for the runtime root, if known.
    pub qdisc_up_major: Option<u16>,
}

/// Compact runtime-operation summary for Bakery UI/status.
#[derive(Clone, Debug, PartialEq, Eq)]
pub struct BakeryRuntimeOperationsSnapshot {
    /// Number of submitted operations waiting to start.
    pub submitted_count: usize,
    /// Number of operations deferred because runtime-node capacity is currently saturated.
    pub deferred_count: usize,
    /// Number of operations currently applying.
    pub applying_count: usize,
    /// Number of operations awaiting deferred cleanup.
    pub awaiting_cleanup_count: usize,
    /// Number of failed operations that are not classified as structural blocks.
    pub failed_count: usize,
    /// Number of operations blocked by structural runtime constraints until topology changes.
    pub blocked_count: usize,
    /// Number of operations marked Dirty.
    pub dirty_count: usize,
    /// Most recently updated runtime operation, if any.
    pub latest: Option<BakeryRuntimeOperationHeadlineSnapshot>,
}

/// Last qdisc preflight result retained for Bakery UI/status.
#[derive(Clone, Debug, PartialEq, Eq)]
pub struct BakeryPreflightSnapshot {
    /// Whether the last preflight was within budget.
    pub ok: bool,
    /// Short operator-facing summary.
    pub message: String,
    /// Safe operational budget used during the preflight.
    pub safe_budget: usize,
    /// Hard kernel limit used for reference.
    pub hard_limit: usize,
    /// Estimated total kernel memory cost of the planned qdisc model.
    pub estimated_total_memory_bytes: u64,
    /// Current host memory available during the preflight, if known.
    pub memory_available_bytes: Option<u64>,
    /// Memory floor that must remain available before the apply proceeds.
    pub memory_guard_min_available_bytes: u64,
    /// Whether the memory preflight passed.
    pub memory_ok: bool,
    /// Per-interface planned qdisc counts.
    pub interfaces: Vec<BakeryCapacityInterfaceSnapshot>,
}

/// Cadence of Bakery's unified `tc` reads and writes.
#[derive(Clone, Copy, Debug, PartialEq, Eq, Structural)]
pub struct TcIoCadence {
    /// Average interval between `tc` reads/writes, in milliseconds.
    pub avg_interval_ms: Option<u64>,
    /// Unix timestamp of the last `tc` read/write.
    pub last_event_unix: Option<u64>,
    /// Number of intervals contributing to the average.
    pub sample_count: usize,
}

/// Operator-facing Bakery status snapshot.
#[derive(Clone, Debug, PartialEq, Eq)]
pub struct BakeryStatusSnapshot {
    /// Current Bakery mode.
    pub mode: BakeryMode,
    /// Unix timestamp when the current action started, if any.
    pub current_action_started_unix: Option<u64>,
    /// Current apply phase for the in-flight action, if any.
    pub current_apply_phase: Option<String>,
    /// Total `tc` commands planned for the in-flight action.
    pub current_apply_total_tc_commands: usize,
    /// `tc` commands already completed for the in-flight action.
    pub current_apply_completed_tc_commands: usize,
    /// Total apply chunks planned for the in-flight action.
    pub current_apply_total_chunks: usize,
    /// Apply chunks already completed for the in-flight action.
    pub current_apply_completed_chunks: usize,
    /// Currently active circuit count.
    pub active_circuits: usize,
    /// Unix timestamp of the last successful apply, if any.
    pub last_success_unix: Option<u64>,
    /// Unix timestamp of the last successful full reload, if any.
    pub last_full_reload_success_unix: Option<u64>,
    /// Unix timestamp of the last failed apply, if any.
    pub last_failure_unix: Option<u64>,
    /// Summary of the last failure, if any.
    pub last_failure_summary: Option<String>,
    /// Type of the last apply recorded by Bakery.
    pub last_apply_type: BakeryApplyType,
    /// Number of `tc` commands in the last apply.
    pub last_total_tc_commands: usize,
    /// Number of `class` commands in the last apply.
    pub last_class_commands: usize,
    /// Number of `qdisc` commands in the last apply.
    pub last_qdisc_commands: usize,
    /// Time spent expanding/building the last apply command list.
    pub last_build_duration_ms: u64,
    /// Time spent running the last apply through `tc`.
    pub last_apply_duration_ms: u64,
    /// Average interval between real unified Bakery `tc` reads/writes, in milliseconds.
    pub avg_tc_io_interval_ms: Option<u64>,
    /// Unix timestamp when Bakery last performed a real unified `tc` read/write.
    pub last_tc_io_unix: Option<u64>,
    /// Number of recent intervals contributing to the average TC I/O interval.
    pub tc_io_interval_samples: usize,
    /// Current runtime node-operation summary.
    pub runtime_operations: BakeryRuntimeOperationsSnapshot,
    /// Current queue-root distribution summary.
    pub queue_distribution: Vec<BakeryQueueDistributionSnapshot>,
    /// Current live per-interface qdisc usage snapshot.
    pub live_capacity_interfaces: Vec<BakeryLiveCapacityInterfaceSnapshot>,
    /// Safe per-interface qdisc budget used for the live usage bar.
    pub live_capacity_safe_budget: usize,
    /// Unix timestamp when the live capacity snapshot was last refreshed.
    pub live_capacity_updated_at_unix: Option<u64>,
    /// Last qdisc preflight summary known to Bakery.
    pub preflight: Option<BakeryPreflightSnapshot>,
    /// Whether Bakery has detected enough runtime drift to require a structural full reload.
    pub reload_required: bool,
    /// Operator-facing reason for why a full reload is now required, if any.
    pub reload_required_reason: Option<String>,
    /// Number of runtime node operations currently marked dirty.
    pub dirty_subtree_count: usize,
}

/// Recent operator-facing Bakery activity event.
#[derive(Clone, Debug, PartialEq, Eq)]
pub struct BakeryActivityEntry {
    /// Unix timestamp in seconds.
    pub ts: u64,
    /// Stable short event code.
    pub event: String,
    /// `info`, `warning`, or `error`.
    pub status: String,
    /// Stable Bakery site hash associated with the event, if any.
    pub site_hash: Option<i64>,
    /// Human site name retained by Bakery when the event was created, if any.
    pub site_name: Option<String>,
    /// Human-readable summary.
    pub summary: String,
}

/// Bakery's retained telemetry.
#[derive(Debug)]
pub struct BakeryTelemetryState {
    /// Current mode.
    pub mode: BakeryMode,
    /// Start of the current action.
    pub current_action_started_unix: Option<u64>,
    /// Phase of the current apply.
    pub current_apply_phase: Option<String>,
    /// Planned `tc` commands of the current apply.
    pub current_apply_total_tc_commands: usize,
    /// Completed `tc` commands of the current apply.
    pub current_apply_completed_tc_commands: usize,
    /// Planned chunks of the current apply.
    pub current_apply_total_chunks: usize,
    /// Completed chunks of the current apply.
    pub current_apply_completed_chunks: usize,
    /// Last successful apply.
    pub last_success_unix: Option<u64>,
    /// Last successful full reload.
    pub last_full_reload_success_unix: Option<u64>,
    /// Last failed apply.
    pub last_failure_unix: Option<u64>,
    /// Summary of the last failure.
    pub last_failure_summary: Option<String>,
    /// Type of the last apply.
    pub last_apply_type: BakeryApplyType,
    /// `tc` commands of the last apply.
    pub last_total_tc_commands: usize,
    /// `class` commands of the last apply.
    pub last_class_commands: usize,
    /// `qdisc` commands of the last apply.
    pub last_qdisc_commands: usize,
    /// Build time of the last apply.
    pub last_build_duration_ms: u64,
    /// Apply time of the last apply.
    pub last_apply_duration_ms: u64,
    /// Runtime operation summary.
    pub runtime_operations: BakeryRuntimeOperationsSnapshot,
    /// Queue distribution summary.
    pub queue_distribution: Vec<BakeryQueueDistributionSnapshot>,
    /// Live per-interface qdisc usage.
    pub live_capacity_interfaces: Vec<BakeryLiveCapacityInterfaceSnapshot>,
    /// Refresh time of the live capacity snapshot.
    pub live_capacity_updated_at_unix: Option<u64>,
    /// Last preflight result.
    pub preflight: Option<BakeryPreflightSnapshot>,
    /// Whether a full reload is required.
    pub reload_required: bool,
    /// Why a full reload is required.
    pub reload_required_reason: Option<String>,
    /// Runtime operations marked dirty.
    pub dirty_subtree_count: usize,
    /// Latest runtime operation per site.
    pub runtime_operations_by_site: HashMap<i64, RuntimeNodeOperationSnapshot>,
    /// Latest runtime branch state per site.
    pub runtime_branch_states_by_site: HashMap<i64, BakeryRuntimeNodeBranchSnapshot>,
    /// Recent activity, newest first.
    pub activity: VecDeque<BakeryActivityEntry>,
}

/// Metrics of a finished apply.
#[derive(Clone, Copy, Debug)]
pub struct BakeryApplyMetrics<'a> {
    /// Kind of apply.
    pub apply_type: BakeryApplyType,
    /// Operator-facing summary.
    pub summary: &'a str,
    /// Build time.
    pub build_duration_ms: u64,
    /// Apply time.
    pub apply_duration_ms: u64,
    /// Total `tc` commands.
    pub total_tc_commands: usize,
    /// `class` commands.
    pub class_commands: usize,
    /// `qdisc` commands.
    pub qdisc_commands: usize,
    /// Whether the apply succeeded.
    pub ok: bool,
}

/// An activity entry holds exactly the given values.
pub open spec fn entry_is(
    e: BakeryActivityEntry,
    ts: u64,
    event: Seq<char>,
    status: Seq<char>,
    site_hash: Option<i64>,
    site_name: Option<Seq<char>>,
    summary: Seq<char>,
) -> bool {
    &&& e.ts == ts
    &&& e.event@ == event
    &&& e.status@ == status
    &&& e.site_hash == site_hash
    &&& opt_view(e.site_name) == site_name
    &&& e.summary@ == summary
}

/// The activity log after one event: the new entry first, then the previous
/// entries, keeping at most [`BAKERY_EVENT_LIMIT`].
pub open spec fn activity_after(
    old: Seq<BakeryActivityEntry>,
    new: Seq<BakeryActivityEntry>,
    ts: u64,
    event: Seq<char>,
    status: Seq<char>,
    site_hash: Option<i64>,
    site_name: Option<Seq<char>>,
    summary: Seq<char>,
) -> bool {
    &&& new.len() == if old.len() + 1 > BAKERY_EVENT_LIMIT {
        BAKERY_EVENT_LIMIT as nat
    } else {
        old.len() + 1
    }
    &&& entry_is(new[0], ts, event, status, site_hash, site_name, summary)
    &&& forall|i: int| 1 <= i < new.len() ==> #[trigger] new[i] == old[i - 1]
}

impl BakeryTelemetryState {
    /// The activity log respects its bound.
    pub open spec fn wf(&self) -> bool {
        self.activity@.len() <= BAKERY_EVENT_LIMIT
    }

    /// The state with its preflight result replaced by `p`.
    pub open spec fn with_preflight(self, p: Option<BakeryPreflightSnapshot>) -> Self {
        BakeryTelemetryState { preflight: p, ..self }
    }

    /// Everything but the activity log is unchanged.
    pub open spec fn same_except_activity(&self, other: &Self) -> bool {
        &&& self.mode == other.mode
        &&& self.current_action_started_unix == other.current_action_started_unix
        &&& self.current_apply_phase == other.current_apply_phase
        &&& self.current_apply_total_tc_commands == other.current_apply_total_tc_commands
        &&& self.current_apply_completed_tc_commands == other.current_apply_completed_tc_commands
        &&& self.current_apply_total_chunks == other.current_apply_total_chunks
        &&& self.current_apply_completed_chunks == other.current_apply_completed_chunks
        &&& self.last_success_unix == other.last_success_unix
        &&& self.last_full_reload_success_unix == other.last_full_reload_success_unix
        &&& self.last_failure_unix == other.last_failure_unix
        &&& self.last_failure_summary == other.last_failure_summary
        &&& self.last_apply_type == other.last_apply_type
        &&& self.last_total_tc_commands == other.last_total_tc_commands
        &&& self.last_class_commands == other.last_class_commands
        &&& self.last_qdisc_commands == other.last_qdisc_commands
        &&& self.last_build_duration_ms == other.last_build_duration_ms
        &&& self.last_apply_duration_ms == other.last_apply_duration_ms
        &&& self.runtime_operations == other.runtime_operations
        &&& self.queue_distribution == other.queue_distribution
        &&& self.live_capacity_interfaces == other.live_capacity_interfaces
        &&& self.live_capacity_updated_at_unix == other.live_capacity_updated_at_unix
        &&& self.preflight == other.preflight
        &&& self.reload_required == other.reload_required
        &&& self.reload_required_reason == other.reload_required_reason
        &&& self.dirty_subtree_count == other.dirty_subtree_count
        &&& self.runtime_operations_by_site == other.runtime_operations_by_site
        &&& self.runtime_branch_states_by_site == other.runtime_branch_states_by_site
    }

    /// Everything but the activity log and the reload-required state is unchanged.
    pub open spec fn same_except_reload(&self, other: &Self) -> bool {
        &&& self.mode == other.mode
        &&& self.current_action_started_unix == other.current_action_started_unix
        &&& self.current_apply_phase == other.current_apply_phase
        &&& self.current_apply_total_tc_commands == other.current_apply_total_tc_commands
        &&& self.current_apply_completed_tc_commands == other.current_apply_completed_tc_commands
        &&& self.current_apply_total_chunks == other.current_apply_total_chunks
        &&& self.current_apply_completed_chunks == other.current_apply_completed_chunks
        &&& self.last_success_unix == other.last_success_unix
        &&& self.last_full_reload_success_unix == other.last_full_reload_success_unix
        &&& self.last_failure_unix == other.last_failure_unix
        &&& self.last_failure_summary == other.last_failure_summary
        &&& self.last_apply_type == other.last_apply_type
        &&& self.last_total_tc_commands == other.last_total_tc_commands
        &&& self.last_class_commands == other.last_class_commands
        &&& self.last_qdisc_commands == other.last_qdisc_commands
        &&& self.last_build_duration_ms == other.last_build_duration_ms
        &&& self.last_apply_duration_ms == other.last_apply_duration_ms
        &&& self.runtime_operations == other.runtime_operations
        &&& self.queue_distribution == other.queue_distribution
        &&& self.live_capacity_interfaces == other.live_capacity_interfaces
        &&& self.live_capacity_updated_at_unix == other.live_capacity_updated_at_unix
        &&& self.preflight == other.preflight
        &&& self.dirty_subtree_count == other.dirty_subtree_count
        &&& self.runtime_operations_by_site == other.runtime_operations_by_site
        &&& self.runtime_branch_states_by_site == other.runtime_branch_states_by_site
    }

    /// Nothing has happened yet: idle, with every counter, record and log empty.
    pub open spec fn is_fresh(&self) -> bool {
        &&& self.wf()
        &&& self.mode == BakeryMode::Idle
        &&& self.current_action_started_unix is None
        &&& self.current_apply_phase is None
        &&& self.current_apply_total_tc_commands == 0
        &&& self.current_apply_completed_tc_commands == 0
        &&& self.current_apply_total_chunks == 0
        &&& self.current_apply_completed_chunks == 0
        &&& self.last_success_unix is None
        &&& self.last_full_reload_success_unix is None
        &&& self.last_failure_unix is None
        &&& self.last_failure_summary is None
        &&& self.last_apply_type == BakeryApplyType::NotRecorded
        &&& self.last_total_tc_commands == 0
        &&& self.last_class_commands == 0
        &&& self.last_qdisc_commands == 0
        &&& self.last_build_duration_ms == 0
        &&& self.last_apply_duration_ms == 0
        &&& self.runtime_operations == empty_runtime_operations()
        &&& self.queue_distribution@.len() == 0
        &&& self.live_capacity_interfaces@.len() == 0
        &&& self.live_capacity_updated_at_unix is None
        &&& self.preflight is None
        &&& !self.reload_required
        &&& self.reload_required_reason is None
        &&& self.dirty_subtree_count == 0
        &&& self.runtime_operations_by_site@ == Map::<i64, RuntimeNodeOperationSnapshot>::empty()
        &&& self.runtime_branch_states_by_site@ == Map::<i64, BakeryRuntimeNodeBranchSnapshot>::empty()
        &&& self.activity@.len() == 0
    }

    /// The state of a Bakery that has done nothing yet.
    pub fn new() -> (r: Self)
        ensures
            r.is_fresh(),
    {
        BakeryTelemetryState {
            mode: BakeryMode::Idle,
            current_action_started_unix: None,
            current_apply_phase: None,
            current_apply_total_tc_commands: 0,
            current_apply_completed_tc_commands: 0,
            current_apply_total_chunks: 0,
            current_apply_completed_chunks: 0,
            last_success_unix: None,
            last_full_reload_success_unix: None,
            last_failure_unix: None,
            last_failure_summary: None,
            last_apply_type: BakeryApplyType::NotRecorded,
            last_total_tc_commands: 0,
            last_class_commands: 0,
            last_qdisc_commands: 0,
            last_build_duration_ms: 0,
            last_apply_duration_ms: 0,
            runtime_operations: BakeryRuntimeOperationsSnapshot {
                submitted_count: 0,
                deferred_count: 0,
                applying_count: 0,
                awaiting_cleanup_count: 0,
                failed_count: 0,
                blocked_count: 0,
                dirty_count: 0,
                latest: None,
            },
            queue_distribution: Vec::new(),
            live_capacity_interfaces: Vec::new(),
            live_capacity_updated_at_unix: None,
            preflight: None,
            reload_required: false,
            reload_required_reason: None,
            dirty_subtree_count: 0,
            runtime_operations_by_site: HashMap::new(),
            runtime_branch_states_by_site: HashMap::new(),
            activity: VecDeque::new(),
        }
    }
}

impl Default for BakeryTelemetryState {
    /// A fresh state (see [`BakeryTelemetryState::new`]).
    fn default() -> (r: Self)
        ensures
            r.is_fresh(),
    {
        BakeryTelemetryState::new()
    }
}

/// The runtime-operation summary with no operations.
pub open spec fn empty_runtime_operations() -> BakeryRuntimeOperationsSnapshot {
    BakeryRuntimeOperationsSnapshot {
        submitted_count: 0,
        deferred_count: 0,
        applying_count: 0,
        awaiting_cleanup_count: 0,
        failed_count: 0,
        blocked_count: 0,
        dirty_count: 0,
        latest: None,
    }
}

/// Records an activity event (newest first, at most [`BAKERY_EVENT_LIMIT`] kept).
pub fn push_bakery_event_with_site_name(
    state: &mut BakeryTelemetryState,
    now_unix: u64,
    event: &str,
    status: &str,
    site_hash: Option<i64>,
    site_name: Option<String>,
    summary: String,
)
    requires
        old(state).wf(),
    ensures
        final(state).wf(),
        final(state).same_except_activity(old(state)),
        activity_after(
            old(state).activity@,
            final(state).activity@,
            now_unix,
            event@,
            status@,
            site_hash,
            opt_view(site_name),
            summary@,
        ),
{
    let ghost before = state.activity@;
    let entry = BakeryActivityEntry {
        ts: now_unix,
        event: owned(event),
        status: owned(status),
        site_hash,
        site_name,
        summary,
    };
    state.activity.push_front(entry);
    if state.activity.len() > BAKERY_EVENT_LIMIT {
        state.activity.pop_back();
    }
    proof {
        let after = state.activity@;
        assert forall|i: int| 1 <= i < after.len() implies #[trigger] after[i] == before[i - 1] by {
            assert((seq![entry] + before)[i] == before[i - 1]);
        }
        assert(after[0] == entry);
    }
}

/// Records an activity event tied to a site.
pub fn push_bakery_event_with_site(
    state: &mut BakeryTelemetryState,
    now_unix: u64,
    event: &str,
    status: &str,
    site_hash: Option<i64>,
    summary: String,
)
    requires
        old(state).wf(),
    ensures
        final(state).wf(),
        final(state).same_except_activity(old(state)),
        activity_after(
            old(state).activity@,
            final(state).activity@,
            now_unix,
            event@,
            status@,
            site_hash,
            None,
            summary@,
        ),
{
    push_bakery_event_with_site_name(state, now_unix, event, status, site_hash, None, summary);
}

/// Records an activity event.
pub fn push_bakery_event(
    state: &mut BakeryTelemetryState,
    now_unix: u64,
    event: &str,
    status: &str,
    summary: String,
)
    requires
        old(state).wf(),
    ensures
        final(state).wf(),
        final(state).same_except_activity(old(state)),
        activity_after(
            old(state).activity@,
            final(state).activity@,
            now_unix,
            event@,
            status@,
            None,
            None,
            summary@,
        ),
{
    push_bakery_event_with_site_name(state, now_unix, event, status, None, None, summary);
}

/// Records a `full_reload_trigger` warning.
pub fn announce_full_reload(state: &mut BakeryTelemetryState, now_unix: u64, summary: &str)
    requires
        old(state).wf(),
    ensures
        final(state).wf(),
        final(state).same_except_activity(old(state)),
        activity_after(
            old(state).activity@,
            final(state).activity@,
            now_unix,
            "full_reload_trigger"@,
            "warning"@,
            None,
            None,
            summary@,
        ),
{
    push_bakery_event(state, now_unix, "full_reload_trigger", "warning", owned(summary));
}

/// Forgets the progress of the current apply.
pub fn clear_bakery_apply_progress(state: &mut BakeryTelemetryState)
    ensures
        final(state).current_apply_phase is None,
        final(state).current_apply_total_tc_commands == 0,
        final(state).current_apply_completed_tc_commands == 0,
        final(state).current_apply_total_chunks == 0,
        final(state).current_apply_completed_chunks == 0,
        *final(state) == (BakeryTelemetryState {
            current_apply_phase: None,
            current_apply_total_tc_commands: 0,
            current_apply_completed_tc_commands: 0,
            current_apply_total_chunks: 0,
            current_apply_completed_chunks: 0,
            ..*old(state)
        }),
{
    state.current_apply_phase = None;
    state.current_apply_total_tc_commands = 0;
    state.current_apply_completed_tc_commands = 0;
    state.current_apply_total_chunks = 0;
    state.current_apply_completed_chunks = 0;
}

fn opt_str_eq(a: &Option<String>, b: &str) -> (r: bool)
    ensures
        r == (opt_view(*a) == Some(b@)),
{
    match a {
        Some(s) => crate::tc_handle::vec_eq(&crate::text::chars_of(s.as_str()), &crate::text::chars_of(b)),
        None => false,
    }
}

/// Marks that a full reload is required before further incremental changes.
///
/// A `reload_required` error event is logged unless the same reason is already recorded.
pub fn mark_reload_required(state: &mut BakeryTelemetryState, now_unix: u64, summary: String)
    requires
        old(state).wf(),
    ensures
        final(state).wf(),
        final(state).reload_required,
        opt_view(final(state).reload_required_reason) == Some(summary@),
        final(state).same_except_reload(old(state)),
        final(state).mode == old(state).mode,
        if old(state).reload_required && opt_view(old(state).reload_required_reason) == Some(
            summary@,
        ) {
            final(state).activity@ == old(state).activity@
        } else {
            activity_after(
                old(state).activity@,
                final(state).activity@,
                now_unix,
                "reload_required"@,
                "error"@,
                None,
                None,
                summary@,
            )
        },
{
    if !state.reload_required || !opt_str_eq(&state.reload_required_reason, summary.as_str()) {
        state.reload_required = true;
        state.reload_required_reason = Some(owned(summary.as_str()));
        push_bakery_event(state, now_unix, "reload_required", "error", summary);
    }
}

/// The reason names a failed live migration ("live-move"/"live migration").
pub open spec fn is_live_migration_reason(reason: Seq<char>) -> bool {
    seq_starts_with(reason, "Bakery live-move "@) || seq_starts_with(reason, "Bakery live migration "@)
}

/// Whether a reload-required reason came from a failed live migration.
pub fn is_live_migration_reload_required_reason(reason: &str) -> (r: bool)
    ensures
        r == is_live_migration_reason(reason@),
{
    str_starts_with(reason, "Bakery live-move ") || str_starts_with(reason, "Bakery live migration ")
}

/// Clears the reload-required state, logging `reload_required_cleared` if anything was set.
pub fn clear_reload_required(state: &mut BakeryTelemetryState, now_unix: u64, summary: &str)
    requires
        old(state).wf(),
    ensures
        final(state).wf(),
        !final(state).reload_required,
        final(state).reload_required_reason is None,
        final(state).mode == old(state).mode,
        final(state).same_except_reload(old(state)),
        if old(state).reload_required || old(state).reload_required_reason is Some {
            activity_after(
                old(state).activity@,
                final(state).activity@,
                now_unix,
                "reload_required_cleared"@,
                "info"@,
                None,
                None,
                summary@,
            )
        } else {
            final(state).activity@ == old(state).activity@
        },
{
    if state.reload_required || state.reload_required_reason.is_some() {
        state.reload_required = false;
        state.reload_required_reason = None;
        push_bakery_event(state, now_unix, "reload_required_cleared", "info", owned(summary));
    }
}

/// Enters an apply mode and logs its start.
pub fn mark_bakery_action_started(
    state: &mut BakeryTelemetryState,
    now_unix: u64,
    mode: BakeryMode,
    event: &str,
    summary: String,
)
    requires
        old(state).wf(),
    ensures
        final(state).wf(),
        final(state).mode == mode,
        final(state).current_action_started_unix == Some(now_unix),
        final(state).current_apply_phase is None,
        final(state).current_apply_total_tc_commands == 0,
        final(state).current_apply_completed_tc_commands == 0,
        final(state).current_apply_total_chunks == 0,
        final(state).current_apply_completed_chunks == 0,
        final(state).reload_required == old(state).reload_required,
        final(state).reload_required_reason == old(state).reload_required_reason,
        activity_after(
            old(state).activity@,
            final(state).activity@,
            now_unix,
            event@,
            "info"@,
            None,
            None,
            summary@,
        ),
{
    state.mode = mode;
    state.current_action_started_unix = Some(now_unix);
    clear_bakery_apply_progress(state);
    push_bakery_event(state, now_unix, event, "info", summary);
}

/// Records progress of the current apply.
pub fn update_bakery_apply_progress(
    state: &mut BakeryTelemetryState,
    phase: Option<&str>,
    total_tc_commands: usize,
    completed_tc_commands: usize,
    total_chunks: usize,
    completed_chunks: usize,
)
    ensures
        match phase {
            Some(p) => opt_view(final(state).current_apply_phase) == Some(p@),
            None => final(state).current_apply_phase is None,
        },
        final(state).current_apply_total_tc_commands == total_tc_commands,
        final(state).current_apply_completed_tc_commands == completed_tc_commands,
        final(state).current_apply_total_chunks == total_chunks,
        final(state).current_apply_completed_chunks == completed_chunks,
        final(state).mode == old(state).mode,
        final(state).activity@ == old(state).activity@,
{
    state.current_apply_phase = match phase {
        Some(p) => Some(owned(p)),
        None => None,
    };
    state.current_apply_total_tc_commands = total_tc_commands;
    state.current_apply_completed_tc_commands = completed_tc_commands;
    state.current_apply_total_chunks = total_chunks;
    state.current_apply_completed_chunks = completed_chunks;
}

/// Records the outcome of an apply and logs `apply_finished` or `apply_failed`.
///
/// The mode returns to `Idle` unless a full reload is still in progress.
pub fn mark_bakery_action_finished(
    state: &mut BakeryTelemetryState,
    now_unix: u64,
    metrics: BakeryApplyMetrics<'_>,
)
    requires
        old(state).wf(),
    ensures
        final(state).wf(),
        final(state).last_apply_type == metrics.apply_type,
        final(state).last_total_tc_commands == metrics.total_tc_commands,
        final(state).last_class_commands == metrics.class_commands,
        final(state).last_qdisc_commands == metrics.qdisc_commands,
        final(state).last_build_duration_ms == metrics.build_duration_ms,
        final(state).last_apply_duration_ms == metrics.apply_duration_ms,
        metrics.ok ==> final(state).last_success_unix == Some(now_unix),
        metrics.ok ==> final(state).last_failure_unix == old(state).last_failure_unix,
        metrics.ok && metrics.apply_type == BakeryApplyType::FullReload
            ==> final(state).last_full_reload_success_unix == Some(now_unix),
        !(metrics.ok && metrics.apply_type == BakeryApplyType::FullReload)
            ==> final(state).last_full_reload_success_unix == old(
            state,
        ).last_full_reload_success_unix,
        !metrics.ok ==> final(state).last_failure_unix == Some(now_unix),
        !metrics.ok ==> opt_view(final(state).last_failure_summary) == Some(metrics.summary@),
        !metrics.ok ==> final(state).last_success_unix == old(state).last_success_unix,
        final(state).current_apply_phase is None,
        final(state).current_apply_total_tc_commands == 0,
        final(state).current_apply_completed_tc_commands == 0,
        final(state).current_apply_total_chunks == 0,
        final(state).current_apply_completed_chunks == 0,
        if old(state).mode == BakeryMode::ApplyingFullReload {
            final(state).mode == BakeryMode::ApplyingFullReload
                && final(state).current_action_started_unix == old(
                state,
            ).current_action_started_unix
        } else {
            final(state).mode == BakeryMode::Idle && final(state).current_action_started_unix is None
        },
        final(state).reload_required == old(state).reload_required,
        final(state).reload_required_reason == old(state).reload_required_reason,
        activity_after(
            old(state).activity@,
            final(state).activity@,
            now_unix,
            if metrics.ok {
                "apply_finished"@
            } else {
                "apply_failed"@
            },
            if metrics.ok {
                "info"@
            } else {
                "error"@
            },
            None,
            None,
            metrics.summary@,
        ),
{
    state.last_apply_type = metrics.apply_type;
    state.last_total_tc_commands = metrics.total_tc_commands;
    state.last_class_commands = metrics.class_commands;
    state.last_qdisc_commands = metrics.qdisc_commands;
    state.last_build_duration_ms = metrics.build_duration_ms;
    state.last_apply_duration_ms = metrics.apply_duration_ms;
    if metrics.ok {
        state.last_success_unix = Some(now_unix);
        if metrics.apply_type == BakeryApplyType::FullReload {
            state.last_full_reload_success_unix = Some(now_unix);
        }
    } else {
        state.last_failure_unix = Some(now_unix);
        state.last_failure_summary = Some(owned(metrics.summary));
    }
    clear_bakery_apply_progress(state);
    if state.mode != BakeryMode::ApplyingFullReload {
        state.mode = BakeryMode::Idle;
        state.current_action_started_unix = None;
    }
    if metrics.ok {
        push_bakery_event(state, now_unix, "apply_finished", "info", owned(metrics.summary));
    } else {
        push_bakery_event(state, now_unix, "apply_failed", "error", owned(metrics.summary));
    }
}

/// Ends a full reload: the progress is cleared and a full-reload mode returns to `Idle`.
pub fn finish_full_reload_scope(state: &mut BakeryTelemetryState)
    ensures
        final(state).current_apply_phase is None,
        final(state).current_apply_total_tc_commands == 0,
        final(state).current_apply_completed_tc_commands == 0,
        final(state).current_apply_total_chunks == 0,
        final(state).current_apply_completed_chunks == 0,
        if old(state).mode == BakeryMode::ApplyingFullReload {
            final(state).mode == BakeryMode::Idle && final(state).current_action_started_unix is None
        } else {
            final(state).mode == old(state).mode && final(state).current_action_started_unix == old(
                state,
            ).current_action_started_unix
        },
        final(state).activity@ == old(state).activity@,
        final(state).reload_required == old(state).reload_required,
        final(state).reload_required_reason == old(state).reload_required_reason,
{
    clear_bakery_apply_progress(state);
    if state.mode == BakeryMode::ApplyingFullReload {
        state.mode = BakeryMode::Idle;
        state.current_action_started_unix = None;
    }
}

/// The current reload-required reason, if a reload is required.
pub fn bakery_reload_required_reason(state: &BakeryTelemetryState) -> (r: Option<String>)
    ensures
        state.reload_required ==> r == state.reload_required_reason,
        !state.reload_required ==> r is None,
{
    if state.reload_required {
        return crate::commands::clone_exact(&state.reload_required_reason);
    }
    None
}

impl BakeryActivityEntry {
    /// A copy of this entry.
    pub fn duplicate(&self) -> (r: Self)
        ensures
            r == *self,
    {
        BakeryActivityEntry {
            ts: self.ts,
            event: self.event.clone(),
            status: self.status.clone(),
            site_hash: self.site_hash,
            site_name: crate::commands::clone_exact(&self.site_name),
            summary: self.summary.clone(),
        }
    }
}

/// Recent Bakery activity, newest first.
pub fn bakery_activity_snapshot(state: &BakeryTelemetryState) -> (r: Vec<BakeryActivityEntry>)
    ensures
        r@ == state.activity@,
{
    let mut out: Vec<BakeryActivityEntry> = Vec::new();
    let mut i: usize = 0;
    while i < state.activity.len()
        invariant
            i <= state.activity@.len(),
            out@ == state.activity@.take(i as int),
        decreases state.activity@.len() - i,
    {
        out.push(state.activity[i].duplicate());
        assert(out@ =~= state.activity@.take(i + 1));
        i = i + 1;
    }
    assert(out@ =~= state.activity@);
    out
}

/// Stores the latest qdisc-budget preflight result and logs `preflight_ok` or
/// `preflight_blocked`.
pub fn record_qdisc_preflight_snapshot(
    state: &mut BakeryTelemetryState,
    now_unix: u64,
    snapshot: BakeryPreflightSnapshot,
)
    requires
        old(state).wf(),
    ensures
        final(state).wf(),
        final(state).preflight == Some(snapshot),
        final(state).same_except_activity(&old(state).with_preflight(Some(snapshot))),
        activity_after(
            old(state).activity@,
            final(state).activity@,
            now_unix,
            if snapshot.ok {
                "preflight_ok"@
            } else {
                "preflight_blocked"@
            },
            if snapshot.ok {
                "info"@
            } else {
                "warning"@
            },
            None,
            None,
            snapshot.message@,
        ),
{
    let ok = snapshot.ok;
    let summary = snapshot.message.clone();
    state.preflight = Some(snapshot);
    if ok {
        push_bakery_event(state, now_unix, "preflight_ok", "info", summary);
    } else {
        push_bakery_event(state, now_unix, "preflight_blocked", "warning", summary);
    }
}

/// Counts `(all, class, qdisc)` commands of a `tc` batch.
pub open spec fn command_type_counts(commands: Seq<Seq<Seq<char>>>) -> (nat, nat, nat)
    decreases commands.len(),
{
    if commands.len() == 0 {
        (0, 0, 0)
    } else {
        let (t, c, q) = command_type_counts(commands.drop_last());
        let last = commands.last();
        let is_class = last.len() > 0 && last[0] == "class"@;
        let is_qdisc = last.len() > 0 && last[0] == "qdisc"@;
        (t + 1, if is_class { c + 1 } else { c }, if is_qdisc { q + 1 } else { q })
    }
}

/// Counts all, `class` and `qdisc` commands of a `tc` batch.
pub fn count_tc_command_types(commands: &Vec<Vec<String>>) -> (r: (usize, usize, usize))
    ensures
        (r.0 as nat, r.1 as nat, r.2 as nat) == command_type_counts(commands.deep_view()),
{
    let mut class_count: usize = 0;
    let mut qdisc_count: usize = 0;
    let mut i: usize = 0;
    while i < commands.len()
        invariant
            i <= commands@.len(),
            class_count <= i,
            qdisc_count <= i,
            (i as nat, class_count as nat, qdisc_count as nat) == command_type_counts(
                commands.deep_view().take(i as int),
            ),
        decreases commands.len() - i,
    {
        proof {
            assert(commands.deep_view().take(i + 1).drop_last() =~= commands.deep_view().take(
                i as int,
            ));
        }
        let argv = &commands[i];
        if argv.len() > 0 {
            let kind = crate::text::chars_of(argv[0].as_str());
            if crate::tc_handle::vec_eq(&kind, &crate::text::chars_of("class")) {
                class_count = class_count + 1;
            } else if crate::tc_handle::vec_eq(&kind, &crate::text::chars_of("qdisc")) {
                qdisc_count = qdisc_count + 1;
            }
        }
        proof {
            let last = commands.deep_view().take(i + 1).last();
            assert(last == commands.deep_view()[i as int]);
            assert(last =~= argv.deep_view());
            if argv@.len() > 0 {
                assert(last[0] == argv@[0]@);
            }
            reveal_strlit("class");
            reveal_strlit("qdisc");
            assert("class"@ != "qdisc"@) by {
                assert("class"@[0] != "qdisc"@[0]);
            }
        }
        i = i + 1;
    }
    assert(commands.deep_view().take(commands@.len() as int) =~= commands.deep_view());
    (commands.len(), class_count, qdisc_count)
}

/// Result of running a batch of `tc` commands.
#[derive(Debug)]
pub struct ExecuteResult {
    /// Whether every command succeeded.
    pub ok: bool,
    /// Time spent, in milliseconds.
    pub duration_ms: u64,
    /// Summary of the first failure, if any.
    pub failure_summary: Option<String>,
}

/// `<purpose>: <failure>`, `<purpose>: completed` or `<purpose>: failed`.
pub open spec fn apply_result_summary(purpose: Seq<char>, ok: bool, failure: Option<Seq<char>>) -> Seq<
    char,
> {
    match failure {
        Some(s) if s.len() > 0 => purpose + ": "@ + s,
        _ => if ok {
            purpose + ": completed"@
        } else {
            purpose + ": failed"@
        },
    }
}

/// One-line summary of an apply result.
pub fn summarize_apply_result(purpose: &str, result: &ExecuteResult) -> (r: String)
    ensures
        r@ == apply_result_summary(purpose@, result.ok, opt_view(result.failure_summary)),
{
    let mut s = owned(purpose);
    match &result.failure_summary {
        Some(summary) if summary.as_str().unicode_len() > 0 => {
            append_str(&mut s, ": ");
            append_str(&mut s, summary.as_str());
            return s;
        },
        _ => {},
    }
    if result.ok {
        append_str(&mut s, ": completed");
    } else {
        append_str(&mut s, ": failed");
    }
    s
}


/// A copy of a list of site hashes.
pub fn copy_hashes(v: &Vec<i64>) -> (r: Vec<i64>)
    ensures
        r@ == v@,
{
    let mut out: Vec<i64> = Vec::new();
    let mut i: usize = 0;
    while i < v.len()
        invariant
            i <= v@.len(),
            out@ == v@.take(i as int),
        decreases v@.len() - i,
    {
        out.push(v[i]);
        assert(out@ =~= v@.take(i + 1));
        i = i + 1;
    }
    assert(out@ =~= v@);
    out
}

impl BakeryLiveCapacityInterfaceSnapshot {
    /// A copy of this snapshot.
    pub fn duplicate(&self) -> (r: Self)
        ensures
            r == *self,
    {
        BakeryLiveCapacityInterfaceSnapshot { name: self.name.clone(), live_qdiscs: self.live_qdiscs }
    }
}

impl BakeryCapacityInterfaceSnapshot {
    /// A copy of this snapshot.
    pub fn duplicate(&self) -> (r: Self)
        ensures
            r == *self,
    {
        BakeryCapacityInterfaceSnapshot {
            name: self.name.clone(),
            planned_qdiscs: self.planned_qdiscs,
            infra_qdiscs: self.infra_qdiscs,
            cake_qdiscs: self.cake_qdiscs,
            fq_codel_qdiscs: self.fq_codel_qdiscs,
            estimated_memory_bytes: self.estimated_memory_bytes,
        }
    }
}

impl BakeryPreflightSnapshot {
    /// A copy of this snapshot.
    pub fn duplicate(&self) -> (r: Self)
        ensures
            r.ok == self.ok,
            r.message == self.message,
            r.safe_budget == self.safe_budget,
            r.hard_limit == self.hard_limit,
            r.estimated_total_memory_bytes == self.estimated_total_memory_bytes,
            r.memory_available_bytes == self.memory_available_bytes,
            r.memory_guard_min_available_bytes == self.memory_guard_min_available_bytes,
            r.memory_ok == self.memory_ok,
            r.interfaces@ == self.interfaces@,
    {
        let mut interfaces: Vec<BakeryCapacityInterfaceSnapshot> = Vec::new();
        let mut i: usize = 0;
        while i < self.interfaces.len()
            invariant
                i <= self.interfaces@.len(),
                interfaces@ == self.interfaces@.take(i as int),
            decreases self.interfaces@.len() - i,
        {
            interfaces.push(self.interfaces[i].duplicate());
            assert(interfaces@ =~= self.interfaces@.take(i + 1));
            i = i + 1;
        }
        assert(interfaces@ =~= self.interfaces@);
        BakeryPreflightSnapshot {
            ok: self.ok,
            message: self.message.clone(),
            safe_budget: self.safe_budget,
            hard_limit: self.hard_limit,
            estimated_total_memory_bytes: self.estimated_total_memory_bytes,
            memory_available_bytes: self.memory_available_bytes,
            memory_guard_min_available_bytes: self.memory_guard_min_available_bytes,
            memory_ok: self.memory_ok,
            interfaces,
        }
    }
}

impl BakeryRuntimeOperationHeadlineSnapshot {
    /// A copy of this snapshot.
    pub fn duplicate(&self) -> (r: Self)
        ensures
            r == *self,
    {
        BakeryRuntimeOperationHeadlineSnapshot {
            operation_id: self.operation_id,
            site_hash: self.site_hash,
            site_name: crate::commands::clone_exact(&self.site_name),
            action: self.action,
            status: self.status,
            attempt_count: self.attempt_count,
            updated_at_unix: self.updated_at_unix,
            next_retry_at_unix: self.next_retry_at_unix,
            last_error: crate::commands::clone_exact(&self.last_error),
        }
    }
}

impl BakeryRuntimeOperationsSnapshot {
    /// A copy of this snapshot.
    pub fn duplicate(&self) -> (r: Self)
        ensures
            r == *self,
    {
        BakeryRuntimeOperationsSnapshot {
            submitted_count: self.submitted_count,
            deferred_count: self.deferred_count,
            applying_count: self.applying_count,
            awaiting_cleanup_count: self.awaiting_cleanup_count,
            failed_count: self.failed_count,
            blocked_count: self.blocked_count,
            dirty_count: self.dirty_count,
            latest: match &self.latest {
                Some(h) => Some(h.duplicate()),
                None => None,
            },
        }
    }
}

impl BakeryRuntimeNodeBranchSnapshot {
    /// A copy of this snapshot, lists included.
    pub fn duplicate(&self) -> (r: Self)
        ensures
            r.site_hash == self.site_hash,
            r.site_name == self.site_name,
            r.active_branch == self.active_branch,
            r.lifecycle == self.lifecycle,
            r.pending_prune == self.pending_prune,
            r.next_prune_attempt_unix == self.next_prune_attempt_unix,
            r.active_site_hashes@ == self.active_site_hashes@,
            r.saved_site_hashes@ == self.saved_site_hashes@,
            r.prune_site_hashes@ == self.prune_site_hashes@,
            r.qdisc_down_major == self.qdisc_down_major,
            r.qdisc_up_major == self.qdisc_up_major,
    {
        BakeryRuntimeNodeBranchSnapshot {
            site_hash: self.site_hash,
            site_name: self.site_name.clone(),
            active_branch: self.active_branch.clone(),
            lifecycle: self.lifecycle.clone(),
            pending_prune: self.pending_prune,
            next_prune_attempt_unix: self.next_prune_attempt_unix,
            active_site_hashes: copy_hashes(&self.active_site_hashes),
            saved_site_hashes: copy_hashes(&self.saved_site_hashes),
            prune_site_hashes: copy_hashes(&self.prune_site_hashes),
            qdisc_down_major: self.qdisc_down_major,
            qdisc_up_major: self.qdisc_up_major,
        }
    }

    /// Two branch snapshots hold the same values.
    pub open spec fn same_as(&self, other: &Self) -> bool {
        &&& self.site_hash == other.site_hash
        &&& self.site_name == other.site_name
        &&& self.active_branch == other.active_branch
        &&& self.lifecycle == other.lifecycle
        &&& self.pending_prune == other.pending_prune
        &&& self.next_prune_attempt_unix == other.next_prune_attempt_unix
        &&& self.active_site_hashes@ == other.active_site_hashes@
        &&& self.saved_site_hashes@ == other.saved_site_hashes@
        &&& self.prune_site_hashes@ == other.prune_site_hashes@
        &&& self.qdisc_down_major == other.qdisc_down_major
        &&& self.qdisc_up_major == other.qdisc_up_major
    }
}

/// The status snapshot holds the retained telemetry, the given active-circuit
/// count and `tc` cadence, and the safe per-interface budget.
pub open spec fn status_reflects(
    r: BakeryStatusSnapshot,
    state: BakeryTelemetryState,
    active_circuits: usize,
    tc_io: TcIoCadence,
) -> bool {
    &&& r.mode == state.mode
    &&& r.current_action_started_unix == state.current_action_started_unix
    &&& r.current_apply_phase == state.current_apply_phase
    &&& r.current_apply_total_tc_commands == state.current_apply_total_tc_commands
    &&& r.current_apply_completed_tc_commands == state.current_apply_completed_tc_commands
    &&& r.current_apply_total_chunks == state.current_apply_total_chunks
    &&& r.current_apply_completed_chunks == state.current_apply_completed_chunks
    &&& r.active_circuits == active_circuits
    &&& r.last_success_unix == state.last_success_unix
    &&& r.last_full_reload_success_unix == state.last_full_reload_success_unix
    &&& r.last_failure_unix == state.last_failure_unix
    &&& r.last_failure_summary == state.last_failure_summary
    &&& r.last_apply_type == state.last_apply_type
    &&& r.last_total_tc_commands == state.last_total_tc_commands
    &&& r.last_class_commands == state.last_class_commands
    &&& r.last_qdisc_commands == state.last_qdisc_commands
    &&& r.last_build_duration_ms == state.last_build_duration_ms
    &&& r.last_apply_duration_ms == state.last_apply_duration_ms
    &&& r.avg_tc_io_interval_ms == tc_io.avg_interval_ms
    &&& r.last_tc_io_unix == tc_io.last_event_unix
    &&& r.tc_io_interval_samples == tc_io.sample_count
    &&& r.runtime_operations == state.runtime_operations
    &&& r.queue_distribution@ == state.queue_distribution@
    &&& r.live_capacity_interfaces@ == state.live_capacity_interfaces@
    &&& r.live_capacity_safe_budget == SAFE_QDISC_BUDGET_PER_INTERFACE
    &&& r.live_capacity_updated_at_unix == state.live_capacity_updated_at_unix
    &&& r.preflight is Some <==> state.preflight is Some
    &&& (r.preflight matches Some(p) ==> {
        let q = state.preflight->0;
        &&& p.ok == q.ok
        &&& p.message == q.message
        &&& p.safe_budget == q.safe_budget
        &&& p.hard_limit == q.hard_limit
        &&& p.estimated_total_memory_bytes == q.estimated_total_memory_bytes
        &&& p.memory_available_bytes == q.memory_available_bytes
        &&& p.memory_guard_min_available_bytes == q.memory_guard_min_available_bytes
        &&& p.memory_ok == q.memory_ok
        &&& p.interfaces@ == q.interfaces@
    })
    &&& r.reload_required == state.reload_required
    &&& r.reload_required_reason == state.reload_required_reason
    &&& r.dirty_subtree_count == state.dirty_subtree_count
}

/// Operator-facing status: the retained telemetry together with the current
/// active-circuit count and the `tc` I/O cadence.
pub fn bakery_status_snapshot(
    state: &BakeryTelemetryState,
    active_circuits: usize,
    tc_io: TcIoCadence,
) -> (r: BakeryStatusSnapshot)
    ensures
        status_reflects(r, *state, active_circuits, tc_io),
{
    let mut queue_distribution: Vec<BakeryQueueDistributionSnapshot> = Vec::new();
    let mut i: usize = 0;
    while i < state.queue_distribution.len()
        invariant
            i <= state.queue_distribution@.len(),
            queue_distribution@ == state.queue_distribution@.take(i as int),
        decreases state.queue_distribution@.len() - i,
    {
        queue_distribution.push(state.queue_distribution[i]);
        assert(queue_distribution@ =~= state.queue_distribution@.take(i + 1));
        i = i + 1;
    }
    assert(queue_distribution@ =~= state.queue_distribution@);
    let mut live: Vec<BakeryLiveCapacityInterfaceSnapshot> = Vec::new();
    let mut j: usize = 0;
    while j < state.live_capacity_interfaces.len()
        invariant
            j <= state.live_capacity_interfaces@.len(),
            live@ == state.live_capacity_interfaces@.take(j as int),
        decreases state.live_capacity_interfaces@.len() - j,
    {
        live.push(state.live_capacity_interfaces[j].duplicate());
        assert(live@ =~= state.live_capacity_interfaces@.take(j + 1));
        j = j + 1;
    }
    assert(live@ =~= state.live_capacity_interfaces@);
    BakeryStatusSnapshot {
        mode: state.mode,
        current_action_started_unix: state.current_action_started_unix,
        current_apply_phase: crate::commands::clone_exact(&state.current_apply_phase),
        current_apply_total_tc_commands: state.current_apply_total_tc_commands,
        current_apply_completed_tc_commands: state.current_apply_completed_tc_commands,
        current_apply_total_chunks: state.current_apply_total_chunks,
        current_apply_completed_chunks: state.current_apply_completed_chunks,
        active_circuits,
        last_success_unix: state.last_success_unix,
        last_full_reload_success_unix: state.last_full_reload_success_unix,
        last_failure_unix: state.last_failure_unix,
        last_failure_summary: crate::commands::clone_exact(&state.last_failure_summary),
        last_apply_type: state.last_apply_type,
        last_total_tc_commands: state.last_total_tc_commands,
        last_class_commands: state.last_class_commands,
        last_qdisc_commands: state.last_qdisc_commands,
        last_build_duration_ms: state.last_build_duration_ms,
        last_apply_duration_ms: state.last_apply_duration_ms,
        avg_tc_io_interval_ms: tc_io.avg_interval_ms,
        last_tc_io_unix: tc_io.last_event_unix,
        tc_io_interval_samples: tc_io.sample_count,
        runtime_operations: state.runtime_operations.duplicate(),
        queue_distribution,
        live_capacity_interfaces: live,
        live_capacity_safe_budget: SAFE_QDISC_BUDGET_PER_INTERFACE,
        live_capacity_updated_at_unix: state.live_capacity_updated_at_unix,
        preflight: match &state.preflight {
            Some(p) => Some(p.duplicate()),
            None => None,
        },
        reload_required: state.reload_required,
        reload_required_reason: crate::commands::clone_exact(&state.reload_required_reason),
        dirty_subtree_count: state.dirty_subtree_count,
    }
}

/// The latest runtime node operation tracked for a site, if any.
pub fn bakery_runtime_node_operation_snapshot(state: &BakeryTelemetryState, site_hash: i64) -> (r:
    Option<RuntimeNodeOperationSnapshot>)
    ensures
        r == state.runtime_operations_by_site@.get(site_hash),
{
    match state.runtime_operations_by_site.get(&site_hash) {
        Some(op) => Some(op.duplicate()),
        None => None,
    }
}

/// The latest runtime branch state tracked for a site, if any.
pub fn bakery_runtime_node_branch_snapshot(state: &BakeryTelemetryState, site_hash: i64) -> (r:
    Option<BakeryRuntimeNodeBranchSnapshot>)
    ensures
        r is Some <==> state.runtime_branch_states_by_site@.contains_key(site_hash),
        r matches Some(b) ==> b.same_as(&state.runtime_branch_states_by_site@[site_hash]),
{
    match state.runtime_branch_states_by_site.get(&site_hash) {
        Some(b) => Some(b.duplicate()),
        None => None,
    }
}

/// Every retained runtime branch state, one per tracked site, in the map's
/// iteration order.
pub fn bakery_runtime_node_branch_snapshots(state: &BakeryTelemetryState) -> (r: Vec<
    BakeryRuntimeNodeBranchSnapshot,
>)
    ensures
        exists|sites: Seq<i64>|
            {
                &&& sites.no_duplicates()
                &&& sites.to_set() == state.runtime_branch_states_by_site@.dom()
                &&& sites.len() == r@.len()
                &&& forall|i: int|
                    0 <= i < sites.len() ==> #[trigger] r@[i].same_as(
                        &state.runtime_branch_states_by_site@[sites[i]],
                    )
            },
{
    let keys = map_keys(&state.runtime_branch_states_by_site);
    let ghost m = state.runtime_branch_states_by_site@;
    let mut out: Vec<BakeryRuntimeNodeBranchSnapshot> = Vec::new();
    let mut i: usize = 0;
    while i < keys.len()
        invariant
            i <= keys@.len(),
            out@.len() == i,
            m == state.runtime_branch_states_by_site@,
            keys@.to_set() == m.dom(),
            forall|j: int| 0 <= j < i ==> #[trigger] out@[j].same_as(&m[keys@[j]]),
        decreases keys@.len() - i,
    {
        let k = keys[i];
        assert(keys@.to_set().contains(k)) by {
            assert(keys@.contains(k));
        }
        match state.runtime_branch_states_by_site.get(&k) {
            Some(b) => {
                out.push(b.duplicate());
            },
            None => {
                assert(false);
            },
        }
        i = i + 1;
    }
    assert(out@.len() == keys@.len());
    out
}

} // verus!
