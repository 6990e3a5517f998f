use lqos_bakery::config::{BakeryConfig, LazyQueueMode};
use lqos_bakery::grouped_events::GroupedBakeryEventLimiter;
use lqos_bakery::lazy_queues::handle_tick;
use lqos_bakery::commands::BakeryCommands;
use lqos_bakery::live_tc::{
    managed_root_child_parent_handles, verify_clean_root_child_tree, LiveTcClassEntry,
    LiveTcQdiscEntry,
};
use lqos_bakery::migration::{cancel_pending_migrations_for_observe_mode, Migration, MigrationStage};
use lqos_bakery::runtime::runtime_site_display_name;
use lqos_bakery::shaping_state::{live_tree_mutation_blocker_for_config, ShapingFlags};
use lqos_bakery::stormguard::{apply_stormguard_overrides, record_stormguard_replay_result, StormguardOverrideKey};
use lqos_bakery::tc_handle::TcHandle;
use lqos_bakery::telemetry::{
    bakery_activity_snapshot, bakery_reload_required_reason, mark_reload_required,
    BakeryTelemetryState, ExecuteResult,
};
use std::collections::HashMap;

fn base_config() -> BakeryConfig {
    BakeryConfig {
        isp_interface: "eth1".to_string(),
        internet_interface: "eth0".to_string(),
        on_a_stick: false,
        observe_mode: false,
        lazy_queues: None,
        monitor_only: false,
    }
}

fn live_class_entry(class_id: u32, parent: Option<u32>) -> LiveTcClassEntry {
    LiveTcClassEntry {
        class_id: TcHandle::from_u32(class_id),
        parent: parent.map(TcHandle::from_u32),
        leaf_qdisc_major: None,
    }
}

fn live_qdisc_entry(kind: &str, handle: Option<u32>, parent: Option<u32>, is_root: bool) -> LiveTcQdiscEntry {
    LiveTcQdiscEntry {
        kind: kind.to_string(),
        handle: handle.map(TcHandle::from_u32),
        parent: parent.map(TcHandle::from_u32),
        is_root,
    }
}

#[test]
fn live_tree_mutation_blocker_reports_observe_mode_and_inactive_tree() {
    let mut flags = ShapingFlags::new();
    let mut observe_cfg = base_config();
    observe_cfg.observe_mode = true;
    assert_eq!(
        live_tree_mutation_blocker_for_config(&flags, &observe_cfg),
        Some("queue_mode is observe; root MQ is retained but the shaping tree is not live".to_string())
    );

    let active_cfg = base_config();
    assert_eq!(
        live_tree_mutation_blocker_for_config(&flags, &active_cfg),
        Some("the shaping tree is not currently active".to_string())
    );

    flags.shaping_tree_active = true;
    assert_eq!(live_tree_mutation_blocker_for_config(&flags, &active_cfg), None);
}

#[test]
fn live_tree_mutation_blocker_reports_full_reload_in_progress() {
    let mut flags = ShapingFlags::new();
    let active_cfg = base_config();
    flags.shaping_tree_active = true;
    flags.full_reload_in_progress = true;
    assert_eq!(
        live_tree_mutation_blocker_for_config(&flags, &active_cfg),
        Some("a full reload is currently in progress".to_string())
    );
}

#[test]
fn verify_clean_root_child_tree_accepts_empty_retained_root() {
    let qdisc_snapshot = vec![live_qdisc_entry("mq", Some(0x7fff0000), None, true)];
    let class_snapshot = HashMap::new();
    assert!(verify_clean_root_child_tree(&qdisc_snapshot, &class_snapshot, "eth0").is_ok());
}

#[test]
fn verify_clean_root_child_tree_accepts_kernel_default_root_children() {
    let qdisc_snapshot = vec![
        live_qdisc_entry("mq", Some(0x7fff0000), None, true),
        live_qdisc_entry("fq_codel", Some(0), Some(0x7fff0001), false),
    ];
    let class_snapshot = HashMap::new();
    assert!(verify_clean_root_child_tree(&qdisc_snapshot, &class_snapshot, "eth0").is_ok());
}

#[test]
fn verify_clean_root_child_tree_accepts_kernel_default_mq_classes() {
    let qdisc_snapshot = vec![live_qdisc_entry("mq", Some(0x7fff0000), None, true)];
    let class_snapshot = HashMap::from([(0x7fff0001u32, live_class_entry(0x7fff0001, None))]);
    assert!(verify_clean_root_child_tree(&qdisc_snapshot, &class_snapshot, "eth0").is_ok());
}

#[test]
fn verify_clean_root_child_tree_rejects_lingering_managed_root_children() {
    let qdisc_snapshot = vec![
        live_qdisc_entry("mq", Some(0x7fff0000), None, true),
        live_qdisc_entry("htb", Some(0x00010000), Some(0x7fff0001), false),
    ];
    let class_snapshot = HashMap::new();
    let err = verify_clean_root_child_tree(&qdisc_snapshot, &class_snapshot, "eth0")
        .expect_err("child qdisc should fail retained-root verification");
    assert!(err.contains("still has 1 managed child qdisc"));
}

#[test]
fn verify_clean_root_child_tree_rejects_lingering_classes() {
    let qdisc_snapshot = vec![live_qdisc_entry("mq", Some(0x7fff0000), None, true)];
    let class_snapshot = HashMap::from([(0x10001u32, live_class_entry(0x10001, Some(0x10000)))]);
    let err = verify_clean_root_child_tree(&qdisc_snapshot, &class_snapshot, "eth0")
        .expect_err("lingering classes should fail retained-root verification");
    assert!(err.contains("still has 1 managed tc class"));
}

#[test]
fn managed_root_child_parent_handles_ignore_kernel_default_qdiscs() {
    let qdisc_snapshot = vec![
        live_qdisc_entry("mq", Some(0x7fff0000), None, true),
        live_qdisc_entry("fq_codel", Some(0), Some(0x7fff0001), false),
    ];
    assert!(managed_root_child_parent_handles(&qdisc_snapshot).is_empty());

    let managed_snapshot = vec![
        live_qdisc_entry("mq", Some(0x7fff0000), None, true),
        live_qdisc_entry("htb", Some(0x00010000), Some(0x7fff0001), false),
    ];
    assert_eq!(managed_root_child_parent_handles(&managed_snapshot), vec![TcHandle::from_u32(0x7fff0001)]);
}

#[test]
fn grouped_runtime_site_events_retain_human_site_name() {
    let mut telemetry = BakeryTelemetryState::new();
    let site_hash = 3571466403324592518i64;
    let site_name = "JR_AP_TR_F".to_string();
    let mut grouped = GroupedBakeryEventLimiter::new();
    grouped.emit_with_site_name(
        &mut telemetry,
        1000,
        "runtime_cutover_completed|completed".to_string(),
        "runtime_cutover_completed",
        "info",
        Some((site_hash, Some(site_name.clone()))),
        format!(
            "Runtime cutover completed for site {}; shadow branch is active and original branch is standby.",
            runtime_site_display_name(site_hash, Some(site_name.as_str()))
        ),
        "runtime cutover completion events".to_string(),
    );
    grouped.flush(&mut telemetry, 1000);

    let activity = bakery_activity_snapshot(&telemetry);
    assert_eq!(activity.len(), 1);
    assert_eq!(activity[0].site_hash, Some(site_hash));
    assert_eq!(activity[0].site_name.as_deref(), Some(site_name.as_str()));
    assert!(activity[0].summary.contains(site_name.as_str()));
    assert!(!activity[0].summary.contains(&format!("site {site_hash}")));
}

fn mk_migration(hash: i64) -> Migration {
    let cmd = BakeryCommands::AddCircuit {
        circuit_hash: hash,
        circuit_name: None,
        site_name: None,
        parent_class_id: TcHandle::from_u32(0x10020),
        up_parent_class_id: TcHandle::from_u32(0x20020),
        class_minor: 0x21,
        download_bandwidth_min: 1.0f32.to_bits(),
        upload_bandwidth_min: 1.0f32.to_bits(),
        download_bandwidth_max: 10.0f32.to_bits(),
        upload_bandwidth_max: 10.0f32.to_bits(),
        class_major: 0x1,
        up_class_major: 0x2,
        down_qdisc_handle: None,
        up_qdisc_handle: None,
        ip_addresses: "192.0.2.1/32".to_string(),
        sqm_override: None,
    };
    Migration {
        circuit_hash: hash,
        circuit_name: None,
        site_name: None,
        old_class_major: 0x1,
        old_up_class_major: 0x2,
        old_down_qdisc_handle: None,
        old_up_qdisc_handle: None,
        parent_class_id: TcHandle::from_u32(0x10020),
        up_parent_class_id: TcHandle::from_u32(0x20020),
        class_major: 0x1,
        up_class_major: 0x2,
        down_qdisc_handle: None,
        up_qdisc_handle: None,
        old_down_min: 1.0f32.to_bits(),
        old_down_max: 10.0f32.to_bits(),
        old_up_min: 1.0f32.to_bits(),
        old_up_max: 10.0f32.to_bits(),
        new_down_min: 1.0f32.to_bits(),
        new_down_max: 10.0f32.to_bits(),
        new_up_min: 1.0f32.to_bits(),
        new_up_max: 10.0f32.to_bits(),
        old_minor: 0x20,
        shadow_minor: 0x2000,
        final_minor: 0x21,
        ips: vec!["192.0.2.1/32".to_string()],
        sqm_override: None,
        desired_cmd: cmd,
        stage: MigrationStage::PrepareShadow,
        shadow_verify_attempts: 0,
        final_verify_attempts: 0,
    }
}

#[test]
fn observe_transition_cancels_pending_live_migrations_and_clears_live_migration_reload_state() {
    let mut telemetry = BakeryTelemetryState::new();
    let mut migrations = HashMap::from([(9007, mk_migration(9007))]);
    mark_reload_required(
        &mut telemetry,
        100,
        "Bakery live-move final verification did not find the expected final class/qdisc for circuit 9007: observed missing. A full reload is now required before further incremental topology mutations."
            .to_string(),
    );

    let canceled = cancel_pending_migrations_for_observe_mode(
        &mut migrations,
        &mut telemetry,
        200,
        "queue mode transitioned to observe; the shaping tree is no longer live.",
    );

    assert_eq!(canceled, 1);
    assert!(migrations.is_empty());
    assert!(bakery_reload_required_reason(&telemetry).is_none());
    assert!(bakery_activity_snapshot(&telemetry).iter().any(|entry| {
        entry.event == "live_migrations_canceled" && entry.summary.contains("pending live migration")
    }));
    let activity = bakery_activity_snapshot(&telemetry);
    assert_eq!(activity[0].event, "reload_required_cleared");
    assert_eq!(
        activity[1].summary,
        "Bakery canceled 1 pending live migration(s): queue mode transitioned to observe; the shaping tree is no longer live."
    );
}

#[test]
fn observe_transition_preserves_non_migration_reload_required_state() {
    let mut telemetry = BakeryTelemetryState::new();
    let unrelated_reason = "Bakery full reload triggered because site speed live-change enqueue failed: synthetic failure.";
    let mut migrations = HashMap::from([(9008, mk_migration(9008))]);
    mark_reload_required(&mut telemetry, 100, unrelated_reason.to_string());

    let canceled = cancel_pending_migrations_for_observe_mode(
        &mut migrations,
        &mut telemetry,
        200,
        "queue mode transitioned to observe; the shaping tree is no longer live.",
    );

    assert_eq!(canceled, 1);
    assert!(migrations.is_empty());
    assert_eq!(bakery_reload_required_reason(&telemetry).as_deref(), Some(unrelated_reason));
}

#[test]
fn observe_transition_without_migrations_logs_nothing() {
    let mut telemetry = BakeryTelemetryState::new();
    let mut migrations = HashMap::new();
    let canceled = cancel_pending_migrations_for_observe_mode(&mut migrations, &mut telemetry, 200, "observe");
    assert_eq!(canceled, 0);
    assert!(bakery_activity_snapshot(&telemetry).is_empty());
}

fn lazy_circuit(hash: i64) -> BakeryCommands {
    BakeryCommands::AddCircuit {
        circuit_hash: hash,
        circuit_name: None,
        site_name: None,
        parent_class_id: TcHandle::from_u32(0x10020),
        up_parent_class_id: TcHandle::from_u32(0x20020),
        class_minor: 0x21,
        download_bandwidth_min: 1.0f32.to_bits(),
        upload_bandwidth_min: 1.0f32.to_bits(),
        download_bandwidth_max: 10.0f32.to_bits(),
        upload_bandwidth_max: 10.0f32.to_bits(),
        class_major: 0x1,
        up_class_major: 0x2,
        down_qdisc_handle: None,
        up_qdisc_handle: None,
        ip_addresses: "192.0.2.1/32".to_string(),
        sqm_override: None,
    }
}

#[test]
fn lazy_tick_expires_idle_circuits_only() {
    let mut config = base_config();
    config.lazy_queues = Some(LazyQueueMode::Full);
    let circuits = HashMap::from([(1, lazy_circuit(1)), (2, lazy_circuit(2))]);
    let mut live = HashMap::from([(1, 100u64), (2, 1000u64)]);
    let (active, commands) = handle_tick(&circuits, &mut live, &config, None, 1000);
    assert_eq!(active, 2);
    assert!(!commands.is_empty());
    assert!(commands.iter().all(|c| c.iter().any(|a| a == "del")));
    assert_eq!(live, HashMap::from([(2, 1000u64)]));

    let (active, commands) = handle_tick(&circuits, &mut live, &config, Some(0), 5000);
    assert_eq!(active, 1);
    assert!(commands.is_empty());
    assert_eq!(live.len(), 1);
}

#[test]
fn lazy_tick_counts_all_circuits_when_lazy_queues_are_off() {
    let config = base_config();
    let circuits = HashMap::from([(1, lazy_circuit(1)), (2, lazy_circuit(2))]);
    let mut live = HashMap::from([(1, 0u64)]);
    let (active, commands) = handle_tick(&circuits, &mut live, &config, None, 100_000);
    assert_eq!(active, 2);
    assert!(commands.is_empty());
    assert_eq!(live.len(), 1);
}

#[test]
fn stormguard_replay_builds_class_replace_commands() {
    let mut telemetry = BakeryTelemetryState::new();
    let overrides = vec![(
        StormguardOverrideKey { interface: "eth1".to_string(), class: TcHandle::from_u32(0x10021) },
        50u64,
    )];
    let commands = apply_stormguard_overrides(&overrides, &base_config(), &mut telemetry, 10);
    assert_eq!(
        commands,
        vec![vec![
            "class", "replace", "dev", "eth1", "classid", "0x1:0x21", "htb", "rate", "49mbit", "ceil",
            "50mbit"
        ]
        .into_iter()
        .map(String::from)
        .collect::<Vec<_>>()]
    );
    assert!(bakery_activity_snapshot(&telemetry).is_empty());

    let zero = vec![(
        StormguardOverrideKey { interface: "eth0".to_string(), class: TcHandle::from_u32(0x20021) },
        0u64,
    )];
    let commands = apply_stormguard_overrides(&zero, &base_config(), &mut telemetry, 10);
    assert_eq!(commands[0][8], "0mbit");

    let mut observe = base_config();
    observe.observe_mode = true;
    assert!(apply_stormguard_overrides(&overrides, &observe, &mut telemetry, 11).is_empty());
    let activity = bakery_activity_snapshot(&telemetry);
    assert_eq!(activity[0].event, "stormguard_override_replay_skipped");

    record_stormguard_replay_result(
        &mut telemetry,
        12,
        &ExecuteResult { ok: false, duration_ms: 1, failure_summary: Some("boom".to_string()) },
    );
    let activity = bakery_activity_snapshot(&telemetry);
    assert_eq!(activity[0].event, "stormguard_override_replay_failed");
    assert_eq!(activity[0].summary, "replaying StormGuard overrides: boom");
}
