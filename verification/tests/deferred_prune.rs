use lqos_bakery::commands::{BakeryCommands, RuntimeNodeOperationAction, RuntimeNodeOperationStatus};
use lqos_bakery::config::BakeryConfig;
use lqos_bakery::deferred_prune::{
    apply_runtime_cutover_verification, apply_runtime_prune_pass_result, apply_runtime_prune_snapshot_failure,
    deferred_prune_flush_targets, deferred_prune_site_hashes,
};
use lqos_bakery::grouped_events::GroupedBakeryEventLimiter;
use lqos_bakery::live_tc::LiveTcClassEntry;
use lqos_bakery::live_verify::verify_runtime_shadow_active;
use lqos_bakery::migration::Migration;
use lqos_bakery::runtime::{
    RuntimeNodeOperation, RuntimeVirtualizedActiveBranch, RuntimeVirtualizedBranchLifecycle,
    VirtualizedSiteQdiscHandles, VirtualizedSiteState, RUNTIME_SITE_PRUNE_MAX_ATTEMPTS,
};
use lqos_bakery::runtime_branch::{
    sync_runtime_virtualized_site_qdisc_handles_from_live_snapshot, update_desync_state_from_runtime_state,
};
use lqos_bakery::subtree_prune::{plan_runtime_virtualized_subtree_prune, RuntimePrunePassResult, RuntimePruneStep};
use lqos_bakery::tc_handle::TcHandle;
use lqos_bakery::telemetry::{
    bakery_activity_snapshot, bakery_runtime_node_branch_snapshot, bakery_runtime_node_operation_snapshot,
    BakeryTelemetryState,
};
use std::collections::HashMap;

const NOW: u64 = 1_000;

fn test_config() -> BakeryConfig {
    BakeryConfig {
        isp_interface: "eth1".to_string(),
        internet_interface: "eth0".to_string(),
        on_a_stick: false,
        observe_mode: false,
        lazy_queues: None,
        monitor_only: false,
    }
}

fn rate(v: f32) -> u32 {
    v.to_bits()
}

fn mk_add_site(site_hash: i64, parent: u32, up_parent: u32, class_minor: u16) -> BakeryCommands {
    BakeryCommands::AddSite {
        site_hash,
        parent_class_id: TcHandle::from_u32(parent),
        up_parent_class_id: TcHandle::from_u32(up_parent),
        class_minor,
        download_bandwidth_min: rate(10.0),
        upload_bandwidth_min: rate(10.0),
        download_bandwidth_max: rate(100.0),
        upload_bandwidth_max: rate(100.0),
    }
}

fn mk_test_circuit(hash: i64, parent: u32, up_parent: u32, minor: u16, major: u16, up_major: u16) -> BakeryCommands {
    BakeryCommands::AddCircuit {
        circuit_hash: hash,
        circuit_name: None,
        site_name: None,
        parent_class_id: TcHandle::from_u32(parent),
        up_parent_class_id: TcHandle::from_u32(up_parent),
        class_minor: minor,
        download_bandwidth_min: rate(10.0),
        upload_bandwidth_min: rate(10.0),
        download_bandwidth_max: rate(100.0),
        upload_bandwidth_max: rate(100.0),
        class_major: major,
        up_class_major: up_major,
        down_qdisc_handle: Some(0x9000),
        up_qdisc_handle: Some(0x9001),
        ip_addresses: "192.0.2.40/32".to_string(),
        sqm_override: None,
    }
}

fn mk_state(
    site: BakeryCommands,
    active_branch: RuntimeVirtualizedActiveBranch,
    lifecycle: RuntimeVirtualizedBranchLifecycle,
) -> VirtualizedSiteState {
    VirtualizedSiteState {
        site_name: "test-site-20".to_string(),
        site,
        saved_sites: HashMap::new(),
        saved_circuits: HashMap::new(),
        active_sites: HashMap::new(),
        active_circuits: HashMap::new(),
        prune_sites: HashMap::new(),
        prune_circuits: HashMap::new(),
        qdisc_handles: VirtualizedSiteQdiscHandles { down: None, up: None },
        active_branch,
        lifecycle,
        pending_prune: true,
        next_prune_attempt_unix: 0,
    }
}

fn mk_runtime_operation(
    operation_id: u64,
    site_hash: i64,
    action: RuntimeNodeOperationAction,
    status: RuntimeNodeOperationStatus,
    attempt_count: u32,
    next_retry_at_unix: Option<u64>,
) -> RuntimeNodeOperation {
    let mut operation = RuntimeNodeOperation::new(operation_id, site_hash, None, action, NOW - 5);
    operation.attempt_count = attempt_count;
    operation.update_status(status, NOW - 5, None, next_retry_at_unix);
    operation
}

fn live_class_entry(class_id: u32, parent: Option<u32>, leaf: Option<u16>) -> LiveTcClassEntry {
    LiveTcClassEntry { class_id: TcHandle::from_u32(class_id), parent: parent.map(TcHandle::from_u32), leaf_qdisc_major: leaf }
}

fn snapshot(entries: Vec<LiveTcClassEntry>) -> HashMap<u32, LiveTcClassEntry> {
    entries.into_iter().map(|e| (e.class_id.as_u32(), e)).collect()
}

/// One deferred-prune round for passes that need no `tc` call.
fn deferred_round(
    virtualized_sites: &mut HashMap<i64, VirtualizedSiteState>,
    migrations: &HashMap<i64, Migration>,
    operations: &mut HashMap<i64, RuntimeNodeOperation>,
    down: &HashMap<u32, LiveTcClassEntry>,
    up: &HashMap<u32, LiveTcClassEntry>,
    telemetry: &mut BakeryTelemetryState,
) {
    let config = test_config();
    let mut grouped = GroupedBakeryEventLimiter::new();
    let mut restored = Vec::new();
    for site_hash in deferred_prune_site_hashes(virtualized_sites, migrations, NOW) {
        let mut state = virtualized_sites.remove(&site_hash).expect("state");
        sync_runtime_virtualized_site_qdisc_handles_from_live_snapshot(&mut state, down, up);
        if state.lifecycle == RuntimeVirtualizedBranchLifecycle::CutoverPending
            && state.active_branch_hides_original_site()
        {
            let verification = verify_runtime_shadow_active(&state, down, up);
            apply_runtime_cutover_verification(site_hash, &mut state, operations, verification, NOW, &mut grouped, telemetry);
        } else {
            let result = match plan_runtime_virtualized_subtree_prune(&config, &mut state, down, up) {
                RuntimePruneStep::Finished(result) => result,
                other => panic!("pass needs tc: {other:?}"),
            };
            if apply_runtime_prune_pass_result(site_hash, &mut state, operations, result, NOW, &mut grouped, telemetry) {
                restored.push(site_hash);
            }
        }
        virtualized_sites.insert(site_hash, state);
    }
    for site_hash in restored {
        virtualized_sites.remove(&site_hash);
    }
    grouped.flush(telemetry, NOW);
    update_desync_state_from_runtime_state(telemetry, NOW, operations, virtualized_sites);
}

#[test]
fn deferred_restore_cleanup_completes_and_removes_retained_state() {
    let site_hash = 20;
    let mut virtualized_sites = HashMap::from([(
        site_hash,
        mk_state(
            mk_add_site(site_hash, 0x10020, 0x20020, 0x21),
            RuntimeVirtualizedActiveBranch::Original,
            RuntimeVirtualizedBranchLifecycle::PhysicalActiveCleanupPending,
        ),
    )]);
    let mut operations = HashMap::from([(
        site_hash,
        mk_runtime_operation(1, site_hash, RuntimeNodeOperationAction::Restore, RuntimeNodeOperationStatus::AppliedAwaitingCleanup, 1, Some(0)),
    )]);
    let mut telemetry = BakeryTelemetryState::new();

    deferred_round(&mut virtualized_sites, &HashMap::new(), &mut operations, &HashMap::new(), &HashMap::new(), &mut telemetry);

    assert!(!virtualized_sites.contains_key(&site_hash));
    let operation = operations.get(&site_hash).expect("runtime operation");
    assert_eq!(operation.status, RuntimeNodeOperationStatus::Completed);
    assert_eq!(operation.next_retry_at_unix, None);
    assert_eq!(
        bakery_runtime_node_operation_snapshot(&telemetry, site_hash).expect("runtime op snapshot").status,
        RuntimeNodeOperationStatus::Completed
    );
    assert!(bakery_activity_snapshot(&telemetry).iter().any(|e| e.event == "runtime_site_prune_completed"));
}

#[test]
fn cutover_pending_converges_to_completed_when_shadow_is_verified_active() {
    let site_hash = 20;
    let mut state = mk_state(
        mk_add_site(site_hash, 0x10000, 0x20000, 0x21),
        RuntimeVirtualizedActiveBranch::Shadow,
        RuntimeVirtualizedBranchLifecycle::CutoverPending,
    );
    state.active_sites = HashMap::from([(30, mk_add_site(30, 0x10020, 0x20020, 0x22))]);
    state.active_circuits = HashMap::from([(40, mk_test_circuit(40, 0x10020, 0x20020, 0x30, 0x110, 0x210))]);
    let mut virtualized_sites = HashMap::from([(site_hash, state)]);
    let mut operations = HashMap::from([(
        site_hash,
        mk_runtime_operation(2, site_hash, RuntimeNodeOperationAction::Virtualize, RuntimeNodeOperationStatus::Applying, 1, Some(0)),
    )]);
    let down = snapshot(vec![
        live_class_entry(0x10022, Some(0x10020), None),
        live_class_entry(0x1100030, Some(0x10020), Some(0x9000)),
    ]);
    let up = snapshot(vec![
        live_class_entry(0x20022, Some(0x20020), None),
        live_class_entry(0x2100030, Some(0x20020), Some(0x9001)),
    ]);
    let mut telemetry = BakeryTelemetryState::new();

    deferred_round(&mut virtualized_sites, &HashMap::new(), &mut operations, &down, &up, &mut telemetry);

    let state = virtualized_sites.get(&site_hash).expect("retained shadow runtime state");
    assert_eq!(state.lifecycle, RuntimeVirtualizedBranchLifecycle::FlattenedActive);
    assert!(!state.pending_prune);
    let operation = operations.get(&site_hash).expect("runtime operation");
    assert_eq!(operation.status, RuntimeNodeOperationStatus::Completed);
}

#[test]
fn cutover_check_retries_until_attempts_run_out() {
    let site_hash = 20;
    let state = mk_state(
        mk_add_site(site_hash, 0x10000, 0x20000, 0x21),
        RuntimeVirtualizedActiveBranch::Shadow,
        RuntimeVirtualizedBranchLifecycle::CutoverPending,
    );
    let mut grouped = GroupedBakeryEventLimiter::new();
    let mut telemetry = BakeryTelemetryState::new();
    let mut operations = HashMap::from([(
        site_hash,
        mk_runtime_operation(2, site_hash, RuntimeNodeOperationAction::Virtualize, RuntimeNodeOperationStatus::Applying, 1, Some(0)),
    )]);
    let mut retry = mk_state(
        mk_add_site(site_hash, 0x10000, 0x20000, 0x21),
        RuntimeVirtualizedActiveBranch::Shadow,
        RuntimeVirtualizedBranchLifecycle::CutoverPending,
    );
    apply_runtime_cutover_verification(site_hash, &mut retry, &mut operations, Err("not yet".to_string()), NOW, &mut grouped, &mut telemetry);
    assert_eq!(retry.next_prune_attempt_unix, NOW + 1);
    assert_eq!(retry.lifecycle, RuntimeVirtualizedBranchLifecycle::CutoverPending);
    assert_eq!(operations[&site_hash].attempt_count, 2);
    assert_eq!(operations[&site_hash].next_retry_at_unix, Some(NOW + 1));
    let mut dirty = state;
    operations.get_mut(&site_hash).unwrap().attempt_count = RUNTIME_SITE_PRUNE_MAX_ATTEMPTS - 1;
    apply_runtime_cutover_verification(site_hash, &mut dirty, &mut operations, Err("never".to_string()), NOW, &mut grouped, &mut telemetry);
    assert_eq!(dirty.lifecycle, RuntimeVirtualizedBranchLifecycle::Failed);
    assert_eq!(operations[&site_hash].status, RuntimeNodeOperationStatus::Dirty);
    grouped.flush(&mut telemetry, NOW);
    let activity = bakery_activity_snapshot(&telemetry);
    assert!(activity.iter().any(|e| e.event == "runtime_cutover_retry"
        && e.summary == "Runtime cutover retry 2/5 for site test-site-20 waiting for active/standby convergence: not yet"));
    assert!(activity.iter().any(|e| e.event == "runtime_cutover_dirty"
        && e.summary == "Runtime cutover for site test-site-20 marked Dirty after 5 attempts: never"));
}

fn cleanup_pending_state(site_hash: i64) -> VirtualizedSiteState {
    let mut state = mk_state(
        mk_add_site(site_hash, 0x10000, 0x20000, 0x21),
        RuntimeVirtualizedActiveBranch::Original,
        RuntimeVirtualizedBranchLifecycle::PhysicalActiveCleanupPending,
    );
    state.prune_sites = HashMap::from([(site_hash, mk_add_site(site_hash, 0x10020, 0x20020, 0x21))]);
    state
}

#[test]
fn restore_cleanup_retry_keeps_operation_in_applied_awaiting_cleanup() {
    let site_hash = 20;
    let mut virtualized_sites = HashMap::from([(site_hash, cleanup_pending_state(site_hash))]);
    let mut operations = HashMap::from([(
        site_hash,
        mk_runtime_operation(3, site_hash, RuntimeNodeOperationAction::Restore, RuntimeNodeOperationStatus::AppliedAwaitingCleanup, 1, Some(0)),
    )]);
    let down = snapshot(vec![live_class_entry(0x10022, Some(0x10021), None)]);
    let up = snapshot(vec![live_class_entry(0x20022, Some(0x20021), None)]);
    let mut telemetry = BakeryTelemetryState::new();

    deferred_round(&mut virtualized_sites, &HashMap::new(), &mut operations, &down, &up, &mut telemetry);

    let state = virtualized_sites.get(&site_hash).expect("virtualized site state");
    assert!(state.pending_prune);
    let operation = operations.get(&site_hash).expect("runtime operation");
    assert_eq!(operation.status, RuntimeNodeOperationStatus::AppliedAwaitingCleanup);
    assert!(operation.next_retry_at_unix.is_some());
    assert!(operation.last_error.is_some());
}

#[test]
fn restore_cleanup_failure_eventually_marks_dirty() {
    let site_hash = 20;
    let mut virtualized_sites = HashMap::from([(site_hash, cleanup_pending_state(site_hash))]);
    let mut operations = HashMap::from([(
        site_hash,
        mk_runtime_operation(
            4,
            site_hash,
            RuntimeNodeOperationAction::Restore,
            RuntimeNodeOperationStatus::AppliedAwaitingCleanup,
            RUNTIME_SITE_PRUNE_MAX_ATTEMPTS - 1,
            Some(0),
        ),
    )]);
    let down = snapshot(vec![live_class_entry(0x10022, Some(0x10021), None)]);
    let up = snapshot(vec![live_class_entry(0x20022, Some(0x20021), None)]);
    let mut telemetry = BakeryTelemetryState::new();

    deferred_round(&mut virtualized_sites, &HashMap::new(), &mut operations, &down, &up, &mut telemetry);

    let state = virtualized_sites.get(&site_hash).expect("virtualized site state");
    assert!(!state.pending_prune);
    assert_eq!(state.lifecycle, RuntimeVirtualizedBranchLifecycle::Failed);
    let operation = operations.get(&site_hash).expect("runtime operation");
    assert_eq!(operation.status, RuntimeNodeOperationStatus::Dirty);
    assert!(operation.next_retry_at_unix.is_none());
}

#[test]
fn runtime_branch_snapshot_tracks_restore_completion() {
    let site_hash = 20;
    let mut virtualized_sites = HashMap::from([(
        site_hash,
        mk_state(
            mk_add_site(site_hash, 0x10000, 0x20000, 0x21),
            RuntimeVirtualizedActiveBranch::Original,
            RuntimeVirtualizedBranchLifecycle::PhysicalActiveCleanupPending,
        ),
    )]);
    let mut operations = HashMap::from([(
        site_hash,
        mk_runtime_operation(5, site_hash, RuntimeNodeOperationAction::Restore, RuntimeNodeOperationStatus::AppliedAwaitingCleanup, 1, Some(0)),
    )]);
    let mut telemetry = BakeryTelemetryState::new();

    update_desync_state_from_runtime_state(&mut telemetry, NOW, &operations, &virtualized_sites);
    let before = bakery_runtime_node_branch_snapshot(&telemetry, site_hash).expect("branch snapshot");
    assert_eq!(before.active_branch, "Original");
    assert!(before.pending_prune);

    deferred_round(&mut virtualized_sites, &HashMap::new(), &mut operations, &HashMap::new(), &HashMap::new(), &mut telemetry);

    assert!(bakery_runtime_node_branch_snapshot(&telemetry, site_hash).is_none());
    assert_eq!(
        bakery_runtime_node_operation_snapshot(&telemetry, site_hash).expect("runtime operation snapshot").status,
        RuntimeNodeOperationStatus::Completed
    );
}

#[test]
fn deferred_prune_waits_for_backoff() {
    let site_hash = 20;
    let mut state = cleanup_pending_state(site_hash);
    state.next_prune_attempt_unix = NOW + 1;
    let virtualized_sites = HashMap::from([(site_hash, state)]);
    assert!(deferred_prune_site_hashes(&virtualized_sites, &HashMap::new(), NOW).is_empty());
    assert_eq!(deferred_prune_site_hashes(&virtualized_sites, &HashMap::new(), NOW + 1), vec![20]);
}

#[test]
fn pending_prune_result_schedules_retry_without_events() {
    let site_hash = 20;
    let mut state = cleanup_pending_state(site_hash);
    let mut operations = HashMap::new();
    let mut grouped = GroupedBakeryEventLimiter::new();
    let mut telemetry = BakeryTelemetryState::new();
    let restored = apply_runtime_prune_pass_result(
        site_hash,
        &mut state,
        &mut operations,
        RuntimePrunePassResult::Pending("Observed live child classes still attached".to_string()),
        NOW,
        &mut grouped,
        &mut telemetry,
    );
    assert!(!restored);
    assert_eq!(state.next_prune_attempt_unix, NOW + 30);
    assert!(operations.is_empty());
    grouped.flush(&mut telemetry, NOW);
    assert!(bakery_activity_snapshot(&telemetry).is_empty());
}

#[test]
fn snapshot_failure_postpones_a_tracked_prune_and_counts_the_attempt() {
    let site_hash = 20;
    let mut state = mk_state(
        mk_add_site(site_hash, 0x10020, 0x20020, 0x21),
        RuntimeVirtualizedActiveBranch::Shadow,
        RuntimeVirtualizedBranchLifecycle::FlattenedActive,
    );
    let mut operations = HashMap::from([(
        site_hash,
        mk_runtime_operation(1, site_hash, RuntimeNodeOperationAction::Virtualize, RuntimeNodeOperationStatus::AppliedAwaitingCleanup, 1, Some(0)),
    )]);
    let mut telemetry = BakeryTelemetryState::new();
    let mut grouped = GroupedBakeryEventLimiter::new();
    apply_runtime_prune_snapshot_failure(
        site_hash, &mut state, &mut operations, false, "tc failed".to_string(), NOW, &mut grouped, &mut telemetry,
    );
    grouped.flush(&mut telemetry, NOW);
    assert_eq!(state.next_prune_attempt_unix, NOW + 30);
    assert!(state.pending_prune);
    let operation = operations.get(&site_hash).expect("runtime operation");
    assert_eq!(operation.attempt_count, 2);
    assert_eq!(operation.next_retry_at_unix, Some(NOW + 30));
    assert_eq!(operation.last_error.as_deref(), Some("tc failed"));
    let events = bakery_activity_snapshot(&telemetry);
    let event = events.iter().find(|e| e.event == "runtime_site_prune_retry").expect("retry event");
    assert_eq!(event.summary, "Deferred runtime site prune retry 2/5 for site test-site-20 postponed: tc failed");
}

#[test]
fn snapshot_failure_on_the_last_attempt_marks_the_node_dirty() {
    let site_hash = 20;
    let mut state = mk_state(
        mk_add_site(site_hash, 0x10020, 0x20020, 0x21),
        RuntimeVirtualizedActiveBranch::Shadow,
        RuntimeVirtualizedBranchLifecycle::FlattenedActive,
    );
    let mut operations = HashMap::from([(
        site_hash,
        mk_runtime_operation(1, site_hash, RuntimeNodeOperationAction::Virtualize, RuntimeNodeOperationStatus::AppliedAwaitingCleanup, RUNTIME_SITE_PRUNE_MAX_ATTEMPTS - 1, Some(0)),
    )]);
    let mut telemetry = BakeryTelemetryState::new();
    let mut grouped = GroupedBakeryEventLimiter::new();
    apply_runtime_prune_snapshot_failure(
        site_hash, &mut state, &mut operations, true, "no uplink".to_string(), NOW, &mut grouped, &mut telemetry,
    );
    grouped.flush(&mut telemetry, NOW);
    assert!(!state.pending_prune);
    assert_eq!(state.next_prune_attempt_unix, 0);
    assert_eq!(state.lifecycle, RuntimeVirtualizedBranchLifecycle::Failed);
    let operation = operations.get(&site_hash).expect("runtime operation");
    assert_eq!(operation.status, RuntimeNodeOperationStatus::Dirty);
    assert_eq!(operation.next_retry_at_unix, None);
    let events = bakery_activity_snapshot(&telemetry);
    let event = events.iter().find(|e| e.event == "runtime_site_prune_dirty").expect("dirty event");
    assert_eq!(event.status, "error");
}

#[test]
fn snapshot_failure_without_an_operation_only_postpones() {
    let site_hash = 20;
    let mut state = mk_state(
        mk_add_site(site_hash, 0x10020, 0x20020, 0x21),
        RuntimeVirtualizedActiveBranch::Original,
        RuntimeVirtualizedBranchLifecycle::PhysicalActiveCleanupPending,
    );
    let mut operations = HashMap::new();
    let mut telemetry = BakeryTelemetryState::new();
    let mut grouped = GroupedBakeryEventLimiter::new();
    apply_runtime_prune_snapshot_failure(
        site_hash, &mut state, &mut operations, false, "x".to_string(), NOW, &mut grouped, &mut telemetry,
    );
    grouped.flush(&mut telemetry, NOW);
    assert_eq!(state.next_prune_attempt_unix, NOW + 30);
    assert_eq!(state.lifecycle, RuntimeVirtualizedBranchLifecycle::PhysicalActiveCleanupPending);
    assert!(operations.is_empty());
    assert!(bakery_activity_snapshot(&telemetry).is_empty());
}

#[test]
fn deferred_runtime_site_prune_advances_without_pending_migrations() {
    let site_hash = 20;
    let mut virtualized_sites = HashMap::from([(
        site_hash,
        mk_state(
            mk_add_site(site_hash, 0x10020, 0x20020, 0x21),
            RuntimeVirtualizedActiveBranch::Shadow,
            RuntimeVirtualizedBranchLifecycle::FlattenedActive,
        ),
    )]);
    let submitted_at = NOW - 5;
    let mut runtime_node_operations = HashMap::from([(
        site_hash,
        mk_runtime_operation(1, site_hash, RuntimeNodeOperationAction::Virtualize, RuntimeNodeOperationStatus::AppliedAwaitingCleanup, 1, Some(0)),
    )]);
    let mut telemetry = BakeryTelemetryState::new();
    let mut grouped = GroupedBakeryEventLimiter::new();

    // The downlink interface does not exist, so reading its classes fails.
    let due = deferred_prune_site_hashes(&virtualized_sites, &HashMap::new(), NOW);
    assert_eq!(due, vec![site_hash]);
    let summary = "Failed to snapshot live classes on __bakery-missing-lan__: Cannot find device".to_string();
    for hash in due {
        let state = virtualized_sites.get_mut(&hash).expect("state");
        apply_runtime_prune_snapshot_failure(
            hash, state, &mut runtime_node_operations, false, summary.clone(), NOW, &mut grouped, &mut telemetry,
        );
    }
    grouped.flush(&mut telemetry, NOW);

    let state = virtualized_sites.get(&site_hash).expect("virtualized site state");
    let operation = runtime_node_operations.get(&site_hash).expect("runtime operation");
    assert!(state.pending_prune);
    assert_eq!(operation.status, RuntimeNodeOperationStatus::AppliedAwaitingCleanup);
    assert!(operation.attempt_count >= 1);
    assert!(operation.updated_at_unix >= submitted_at);
    assert_eq!(operation.next_retry_at_unix, Some(state.next_prune_attempt_unix));
    assert!(operation.next_retry_at_unix.expect("retry time") >= operation.updated_at_unix);
    assert!(operation
        .last_error
        .as_deref()
        .unwrap_or_default()
        .contains("Failed to snapshot live classes on __bakery-missing-lan__"));
    assert_eq!(state.active_branch, RuntimeVirtualizedActiveBranch::Shadow);
    assert!(state.pending_prune);
    assert!(state.prune_sites.is_empty());
    assert!(state.prune_circuits.is_empty());
}

#[test]
fn pending_full_reload_holds_back_every_deferred_prune() {
    let site_hash = 20;
    let virtualized_sites = HashMap::from([(site_hash, cleanup_pending_state(site_hash))]);
    let mut telemetry = BakeryTelemetryState::new();
    assert_eq!(deferred_prune_flush_targets(&telemetry, &virtualized_sites, &HashMap::new(), NOW), vec![20]);
    telemetry.reload_required = true;
    telemetry.reload_required_reason = Some("structural change".to_string());
    assert!(deferred_prune_flush_targets(&telemetry, &virtualized_sites, &HashMap::new(), NOW).is_empty());
}
