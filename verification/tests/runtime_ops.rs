use lqos_bakery::admission::{admit_treeguard_runtime_operation, RuntimeOperationAdmission};
use lqos_bakery::commands::{
    BakeryCommands, RuntimeNodeOperationAction, RuntimeNodeOperationFailureReason, RuntimeNodeOperationStatus,
};
use lqos_bakery::runtime::{
    rebuild_runtime_operations_snapshot, RuntimeNodeOperation, RuntimeVirtualizedActiveBranch,
    RuntimeVirtualizedBranchLifecycle, VirtualizedSiteQdiscHandles, VirtualizedSiteState,
    RUNTIME_DIRTY_SUBTREE_RELOAD_THRESHOLD, RUNTIME_NODE_OPERATION_CAPACITY,
};
use lqos_bakery::runtime_branch::{build_post_restore_virtualized_state, update_desync_state_from_runtime_state};
use lqos_bakery::tc_handle::TcHandle;
use lqos_bakery::telemetry::{
    bakery_activity_snapshot, bakery_reload_required_reason, mark_reload_required, BakeryTelemetryState,
};
use std::collections::HashMap;

const NOW: u64 = 50_000;

fn mk_add_site(site_hash: i64, parent: u32, up_parent: u32, class_minor: u16) -> BakeryCommands {
    BakeryCommands::AddSite {
        site_hash,
        parent_class_id: TcHandle::from_u32(parent),
        up_parent_class_id: TcHandle::from_u32(up_parent),
        class_minor,
        download_bandwidth_min: 10.0f32.to_bits(),
        upload_bandwidth_min: 10.0f32.to_bits(),
        download_bandwidth_max: 100.0f32.to_bits(),
        upload_bandwidth_max: 100.0f32.to_bits(),
    }
}

fn applying_operation(id: u64, site_hash: i64) -> RuntimeNodeOperation {
    let mut operation = RuntimeNodeOperation::new(id, site_hash, None, RuntimeNodeOperationAction::Virtualize, NOW);
    operation.attempt_count = 1;
    operation.update_status(RuntimeNodeOperationStatus::Applying, NOW, None, None);
    operation
}

fn dirty_operation(id: u64, site_hash: i64, attempts: u32) -> RuntimeNodeOperation {
    let mut operation = RuntimeNodeOperation::new(id, site_hash, None, RuntimeNodeOperationAction::Virtualize, NOW);
    operation.attempt_count = attempts;
    operation.update_status(RuntimeNodeOperationStatus::Dirty, NOW, Some("test dirty subtree".to_string()), None);
    operation
}

#[test]
fn runtime_node_capacity_returns_deferred_status() {
    let mut telemetry = BakeryTelemetryState::new();
    let mut runtime_node_operations = HashMap::new();
    for index in 0..RUNTIME_NODE_OPERATION_CAPACITY {
        let site_hash = index as i64 + 1;
        runtime_node_operations.insert(site_hash, applying_operation(site_hash as u64, site_hash));
    }
    update_desync_state_from_runtime_state(&mut telemetry, NOW, &runtime_node_operations, &HashMap::new());
    let mut next_id = 10_000u64;

    let RuntimeOperationAdmission::Answered(snapshot) = admit_treeguard_runtime_operation(
        999,
        true,
        &HashMap::new(),
        &HashMap::new(),
        &mut runtime_node_operations,
        &mut next_id,
        &mut telemetry,
        NOW,
    ) else {
        panic!("expected an answer");
    };

    assert_eq!(snapshot.status, RuntimeNodeOperationStatus::Deferred);
    assert!(snapshot.next_retry_at_unix.is_some());
    assert!(snapshot.last_error.as_deref().unwrap_or_default().contains("capacity"));
    assert_eq!(telemetry.runtime_operations.deferred_count, 1);
    assert!(!telemetry.reload_required);
    assert_eq!(next_id, 10_001);
    assert_eq!(bakery_activity_snapshot(&telemetry)[0].event, "runtime_node_op_deferred");
}

#[test]
fn top_level_runtime_operations_are_serialized() {
    let mut telemetry = BakeryTelemetryState::new();
    let sites = HashMap::from([
        (20, mk_add_site(20, 0x10000, 0x20000, 0x21)),
        (21, mk_add_site(21, 0x110000, 0x120000, 0x22)),
    ]);
    let mut runtime_node_operations = HashMap::from([(20, applying_operation(1, 20))]);
    update_desync_state_from_runtime_state(&mut telemetry, NOW, &runtime_node_operations, &HashMap::new());
    let mut next_id = 10_000u64;

    let RuntimeOperationAdmission::Answered(snapshot) = admit_treeguard_runtime_operation(
        21,
        true,
        &sites,
        &HashMap::new(),
        &mut runtime_node_operations,
        &mut next_id,
        &mut telemetry,
        NOW,
    ) else {
        panic!("expected an answer");
    };

    assert_eq!(snapshot.status, RuntimeNodeOperationStatus::Deferred);
    assert!(snapshot.next_retry_at_unix.is_some());
    assert!(snapshot
        .last_error
        .as_deref()
        .unwrap_or_default()
        .contains("one top-level TreeGuard runtime operation in flight"));
    assert_eq!(
        snapshot.last_error.as_deref(),
        Some("Bakery allows only one top-level TreeGuard runtime operation in flight; site 20 is still active, so TreeGuard virtualization for 21 is deferred.")
    );
}

#[test]
fn admission_answers_in_flight_operation_and_admits_new_one() {
    let mut telemetry = BakeryTelemetryState::new();
    let sites = HashMap::from([(30, mk_add_site(30, 0x10020, 0x20020, 0x22))]);
    let mut ops = HashMap::from([(30, applying_operation(7, 30))]);
    let mut next_id = 100u64;
    let answer = admit_treeguard_runtime_operation(30, false, &sites, &HashMap::new(), &mut ops, &mut next_id, &mut telemetry, NOW);
    assert!(matches!(answer, RuntimeOperationAdmission::Answered(s) if s.operation_id == 7));
    assert_eq!(next_id, 100);

    let admitted = admit_treeguard_runtime_operation(31, true, &sites, &HashMap::new(), &mut ops, &mut next_id, &mut telemetry, NOW);
    assert!(matches!(admitted, RuntimeOperationAdmission::Admitted));
    assert_eq!(ops[&31].status, RuntimeNodeOperationStatus::Applying);
    assert_eq!(ops[&31].operation_id, 100);
    assert_eq!(next_id, 101);
    assert_eq!(telemetry.runtime_operations.applying_count, 2);
}

#[test]
fn admission_with_required_reload_records_dirty_operation() {
    let mut telemetry = BakeryTelemetryState::new();
    mark_reload_required(&mut telemetry, NOW, "Bakery needs a full reload".to_string());
    let mut ops = HashMap::new();
    let mut next_id = 5u64;
    let RuntimeOperationAdmission::Answered(snapshot) =
        admit_treeguard_runtime_operation(40, true, &HashMap::new(), &HashMap::new(), &mut ops, &mut next_id, &mut telemetry, NOW)
    else {
        panic!("expected an answer");
    };
    assert_eq!(snapshot.status, RuntimeNodeOperationStatus::Dirty);
    assert_eq!(snapshot.last_error.as_deref(), Some("Bakery needs a full reload"));
    assert_eq!(next_id, 6);
    let again = admit_treeguard_runtime_operation(40, true, &HashMap::new(), &HashMap::new(), &mut ops, &mut next_id, &mut telemetry, NOW);
    assert!(matches!(again, RuntimeOperationAdmission::Answered(s) if s.operation_id == 5));
    assert_eq!(next_id, 6);
}

#[test]
fn structural_runtime_failures_are_counted_as_blocked_not_failed() {
    let now = NOW;
    let mut retryable =
        RuntimeNodeOperation::new(1, 20, Some("retryable-site".to_string()), RuntimeNodeOperationAction::Virtualize, now);
    retryable.update_status(RuntimeNodeOperationStatus::Failed, now, Some("transient runtime failure".to_string()), None);

    let mut blocked = RuntimeNodeOperation::new(
        2,
        21,
        Some("blocked-site".to_string()),
        RuntimeNodeOperationAction::Virtualize,
        now.saturating_add(1),
    );
    blocked.update_status_with_reason(
        RuntimeNodeOperationStatus::Failed,
        now.saturating_add(1),
        Some("inside a retained runtime shadow branch".to_string()),
        Some(RuntimeNodeOperationFailureReason::StructuralIneligibleNestedRuntimeBranch),
        None,
    );

    let runtime_node_operations = HashMap::from([(20, retryable), (21, blocked)]);
    let snapshot = rebuild_runtime_operations_snapshot(&runtime_node_operations);

    assert_eq!(snapshot.failed_count, 1);
    assert_eq!(snapshot.blocked_count, 1);
    assert_eq!(snapshot.latest.as_ref().and_then(|entry| entry.site_name.as_deref()), Some("blocked-site"));
}

#[test]
fn restore_without_shadow_remainders_completes_immediately() {
    let saved_state = VirtualizedSiteState {
        site_name: "test-site-20".to_string(),
        site: mk_add_site(20, 0x10000, 0x20000, 0x21),
        saved_sites: HashMap::new(),
        saved_circuits: HashMap::new(),
        active_sites: HashMap::new(),
        active_circuits: HashMap::new(),
        prune_sites: HashMap::new(),
        prune_circuits: HashMap::new(),
        qdisc_handles: VirtualizedSiteQdiscHandles { down: None, up: None },
        active_branch: RuntimeVirtualizedActiveBranch::Shadow,
        lifecycle: RuntimeVirtualizedBranchLifecycle::FlattenedActive,
        pending_prune: false,
        next_prune_attempt_unix: 0,
    };

    assert!(build_post_restore_virtualized_state(saved_state, HashMap::new(), HashMap::new(), 0).is_none());
}

#[test]
fn dirty_runtime_subtrees_below_threshold_do_not_require_full_reload() {
    let mut telemetry = BakeryTelemetryState::new();
    let mut runtime_node_operations = HashMap::new();
    for index in 0..(RUNTIME_DIRTY_SUBTREE_RELOAD_THRESHOLD - 1) {
        let site_hash = index as i64 + 1;
        runtime_node_operations.insert(site_hash, dirty_operation(site_hash as u64, site_hash, 2));
    }

    update_desync_state_from_runtime_state(&mut telemetry, NOW, &runtime_node_operations, &HashMap::new());

    assert_eq!(telemetry.dirty_subtree_count, RUNTIME_DIRTY_SUBTREE_RELOAD_THRESHOLD - 1);
    assert!(!telemetry.reload_required);
    assert!(bakery_reload_required_reason(&telemetry).is_none());
}

#[test]
fn dirty_runtime_subtrees_at_threshold_require_full_reload() {
    let mut telemetry = BakeryTelemetryState::new();
    let mut runtime_node_operations = HashMap::new();
    for index in 0..RUNTIME_DIRTY_SUBTREE_RELOAD_THRESHOLD {
        let site_hash = index as i64 + 1;
        runtime_node_operations.insert(site_hash, dirty_operation(site_hash as u64, site_hash, 3));
    }

    update_desync_state_from_runtime_state(&mut telemetry, NOW, &runtime_node_operations, &HashMap::new());

    assert_eq!(telemetry.dirty_subtree_count, RUNTIME_DIRTY_SUBTREE_RELOAD_THRESHOLD);
    assert!(telemetry.reload_required);
    assert!(telemetry
        .reload_required_reason
        .as_deref()
        .unwrap_or_default()
        .contains("dirty runtime subtree operations"));
}
