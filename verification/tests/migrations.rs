use lqos_bakery::commands::BakeryCommands;
use lqos_bakery::handle_invariants::{
    build_final_qdisc_handle_rotation_invariant_error,
    build_final_qdisc_handle_rotation_invariant_error_with_live_reservations,
    migration_qdisc_handle_rotation_invariant_error,
};
use lqos_bakery::live_tc::LiveTcClassEntry;
use lqos_bakery::migration::{
    build_temp_add_cmd, circuits_with_pending_migration_targets, find_free_circuit_shadow_minor,
    find_free_site_shadow_minor, migration_stage_apply_succeeded, migration_target_label,
    queue_live_migration, queue_top_level_runtime_migration, wrong_parent_prune_commands_for_direction,
    Migration, MigrationBranchVerification, MigrationDirectionVerification, MigrationStage,
    PlannedCircuitUpdate, PlannedSiteUpdate,
};
use lqos_bakery::tc_handle::TcHandle;
use lqos_bakery::telemetry::{bakery_reload_required_reason, BakeryTelemetryState, ExecuteResult};
use std::collections::{HashMap, HashSet};

fn rate(v: f32) -> u32 {
    v.to_bits()
}

fn mk_add_site(site_hash: i64, parent: u32, up_parent: u32, class_minor: u16) -> BakeryCommands {
    BakeryCommands::AddSite {
        site_hash,
        parent_class_id: TcHandle::from_u32(parent),
        up_parent_class_id: TcHandle::from_u32(up_parent),
        class_minor,
        download_bandwidth_min: rate(10.0),
        upload_bandwidth_min: rate(10.0),
        download_bandwidth_max: rate(100.0),
        upload_bandwidth_max: rate(100.0),
    }
}

#[allow(clippy::too_many_arguments)]
fn mk_test_circuit(
    circuit_hash: i64,
    parent_class_id: u32,
    up_parent_class_id: u32,
    class_minor: u16,
    class_major: u16,
    up_class_major: u16,
    ip_addresses: &str,
) -> BakeryCommands {
    BakeryCommands::AddCircuit {
        circuit_hash,
        circuit_name: None,
        site_name: None,
        parent_class_id: TcHandle::from_u32(parent_class_id),
        up_parent_class_id: TcHandle::from_u32(up_parent_class_id),
        class_minor,
        download_bandwidth_min: rate(10.0),
        upload_bandwidth_min: rate(10.0),
        download_bandwidth_max: rate(100.0),
        upload_bandwidth_max: rate(100.0),
        class_major,
        up_class_major,
        down_qdisc_handle: Some(0x9000),
        up_qdisc_handle: Some(0x9001),
        ip_addresses: ip_addresses.to_string(),
        sqm_override: None,
    }
}

fn sample_migration(hash: i64, stage: MigrationStage) -> Migration {
    Migration {
        circuit_hash: hash,
        circuit_name: None,
        site_name: None,
        old_class_major: 0x1,
        old_up_class_major: 0x2,
        old_down_qdisc_handle: Some(0x9000),
        old_up_qdisc_handle: Some(0x9001),
        parent_class_id: TcHandle::from_u32(0x10034),
        up_parent_class_id: TcHandle::from_u32(0x20034),
        class_major: 0x1,
        up_class_major: 0x2,
        down_qdisc_handle: Some(0x9000),
        up_qdisc_handle: Some(0x9001),
        old_down_min: rate(1.0),
        old_down_max: rate(10.0),
        old_up_min: rate(1.0),
        old_up_max: rate(10.0),
        new_down_min: rate(1.0),
        new_down_max: rate(20.0),
        new_up_min: rate(1.0),
        new_up_max: rate(20.0),
        old_minor: 0x21,
        shadow_minor: 0x2000,
        final_minor: 0x35,
        ips: vec![format!("192.0.2.{}/32", hash % 250)],
        sqm_override: None,
        desired_cmd: mk_test_circuit(hash, 0x10034, 0x20034, 0x35, 0x1, 0x2, "192.0.2.92/32"),
        stage,
        shadow_verify_attempts: 0,
        final_verify_attempts: 0,
    }
}

fn is_same_circuit(a: &BakeryCommands, b: &BakeryCommands) -> bool {
    format!("{a:?}") == format!("{b:?}")
}

#[test]
fn queue_live_migration_succeeds_for_active_parent_move() {
    let old_cmd = mk_test_circuit(9001, 0x10020, 0x20020, 0x21, 0x1, 0x2, "192.0.2.90/32");
    let new_cmd = mk_test_circuit(9001, 0x10034, 0x20034, 0x35, 0x3, 0x4, "192.0.2.90/32");

    let circuits = HashMap::from([(9001, old_cmd.duplicate())]);
    let sites = HashMap::new();
    let live_circuits = HashMap::from([(9001, 1u64)]);
    let mut migrations = HashMap::new();

    let queued = queue_live_migration(&old_cmd, &new_cmd, &sites, &circuits, &live_circuits, &mut migrations);

    assert!(queued);
    let migration = migrations.get(&9001).expect("migration should be queued");
    assert_eq!(migration.stage, MigrationStage::PrepareShadow);
    assert_eq!(migration.parent_class_id, TcHandle::from_u32(0x10034));
    assert_eq!(migration.final_minor, 0x35);
    assert_ne!(migration.shadow_minor, migration.old_minor);
    assert!(is_same_circuit(circuits.get(&9001).unwrap(), &old_cmd));
    assert!(is_same_circuit(&migration.desired_cmd, &new_cmd));
}

#[test]
fn queue_live_migration_fails_when_target_parent_has_no_shadow_minor() {
    let old_cmd = mk_test_circuit(9100, 0x10020, 0x20020, 0x21, 0x1, 0x2, "192.0.2.91/32");
    let new_cmd = mk_test_circuit(9100, 0x10034, 0x20034, 0x35, 0x3, 0x4, "192.0.2.91/32");

    let mut circuits = HashMap::from([(9100, old_cmd.duplicate())]);
    let sites = HashMap::new();
    for minor in 1..=0xFFFEu16 {
        circuits.insert(
            100_000 + i64::from(minor),
            mk_test_circuit(
                100_000 + i64::from(minor),
                0x10034,
                0x20034,
                minor,
                0x3,
                0x4,
                &format!("198.51.100.{}/32", (minor % 250) + 1),
            ),
        );
    }

    let live_circuits = HashMap::from([(9100, 1u64)]);
    let mut migrations = HashMap::new();

    let queued = queue_live_migration(&old_cmd, &new_cmd, &sites, &circuits, &live_circuits, &mut migrations);

    assert!(!queued);
    assert!(!migrations.contains_key(&9100));
    assert!(is_same_circuit(circuits.get(&9100).unwrap(), &old_cmd));
}

#[test]
fn queue_live_migration_requires_a_live_circuit() {
    let old_cmd = mk_test_circuit(9101, 0x10020, 0x20020, 0x21, 0x1, 0x2, "192.0.2.91/32");
    let new_cmd = mk_test_circuit(9101, 0x10034, 0x20034, 0x35, 0x3, 0x4, "192.0.2.91/32");
    let circuits = HashMap::from([(9101, old_cmd.duplicate())]);
    let mut migrations = HashMap::new();
    assert!(!queue_live_migration(&old_cmd, &new_cmd, &HashMap::new(), &circuits, &HashMap::new(), &mut migrations));
    assert!(migrations.is_empty());
}

#[test]
fn find_free_circuit_shadow_minor_respects_major_domain_occupancy() {
    let sites = HashMap::from([(7, mk_add_site(7, 0x10001, 0x20001, 0x2001))]);
    let circuits = HashMap::from([(
        42,
        mk_test_circuit(42, 0x10099, 0x20034, 0x2000, 0x1, 0x2, "192.0.2.142/32"),
    )]);

    let chosen = find_free_circuit_shadow_minor(&sites, &circuits, &HashMap::new(), 0x1, 0x2)
        .expect("free minor");

    assert_ne!(chosen, 0x2000);
    assert_ne!(chosen, 0x2001);
    assert_eq!(chosen, 0x2002);
}

#[test]
fn find_free_site_shadow_minor_skips_planned_updates() {
    let sites = HashMap::from([(7, mk_add_site(7, 0x10001, 0x20001, 0x2000))]);
    let planned_sites = HashMap::from([(
        8,
        PlannedSiteUpdate {
            queue: 1,
            parent_site: Some(7),
            stage_depth: 0,
            command: mk_add_site(8, 0x10001, 0x20001, 0x2001),
        },
    )]);
    let planned_circuits = HashMap::from([(
        9,
        PlannedCircuitUpdate {
            queue: 1,
            parent_site: Some(8),
            command: mk_test_circuit(9, 0x10001, 0x20001, 0x2002, 0x1, 0x2, "192.0.2.9/32"),
        },
    )]);
    let chosen = find_free_site_shadow_minor(
        &sites,
        &HashMap::new(),
        &HashMap::new(),
        &planned_sites,
        &planned_circuits,
        &TcHandle::from_u32(0x10005),
        &TcHandle::from_u32(0x20005),
    );
    assert_eq!(chosen, Some(0x2003));
}

#[test]
fn queue_runtime_migration_reserves_shadow_minor_across_pending_migrations() {
    let old_cmd_a = mk_test_circuit(9300, 0x10020, 0x20020, 0x21, 0x1, 0x2, "192.0.2.94/32");
    let new_cmd_a = mk_test_circuit(9300, 0x80034, 0x80034, 0x35, 0x8, 0x8, "192.0.2.94/32");
    let old_cmd_b = mk_test_circuit(9301, 0x10022, 0x20022, 0x23, 0x1, 0x2, "192.0.2.95/32");
    let new_cmd_b = mk_test_circuit(9301, 0x80036, 0x80036, 0x37, 0x8, 0x8, "192.0.2.95/32");

    let circuits = HashMap::from([(9300, old_cmd_a.duplicate()), (9301, old_cmd_b.duplicate())]);
    let sites = HashMap::new();
    let live_circuits = HashMap::new();
    let mut migrations = HashMap::new();

    assert!(queue_top_level_runtime_migration(&old_cmd_a, &new_cmd_a, &sites, &circuits, &live_circuits, &mut migrations));
    assert!(queue_top_level_runtime_migration(&old_cmd_b, &new_cmd_b, &sites, &circuits, &live_circuits, &mut migrations));

    let migration_a = migrations.get(&9300).expect("first migration");
    let migration_b = migrations.get(&9301).expect("second migration");
    assert_eq!(migration_a.shadow_minor, 0x2000);
    assert_eq!(migration_b.shadow_minor, 0x2001);
}

#[test]
fn pending_migration_overlay_uses_desired_state_for_diff_only() {
    let old_cmd = mk_test_circuit(9300, 0x10020, 0x20020, 0x21, 0x1, 0x2, "192.0.2.94/32");
    let new_cmd = mk_test_circuit(9300, 0x10034, 0x20034, 0x35, 0x3, 0x4, "192.0.2.94/32");

    let circuits = HashMap::from([(9300, old_cmd.duplicate())]);
    let sites = HashMap::new();
    let live_circuits = HashMap::from([(9300, 1u64)]);
    let mut migrations = HashMap::new();

    assert!(queue_live_migration(&old_cmd, &new_cmd, &sites, &circuits, &live_circuits, &mut migrations));
    assert!(is_same_circuit(circuits.get(&9300).unwrap(), &old_cmd));

    let overlaid = circuits_with_pending_migration_targets(&circuits, &migrations);
    assert!(is_same_circuit(overlaid.get(&9300).unwrap(), &new_cmd));
}

#[test]
fn migration_stage_failure_marks_reload_required_and_stops_migration() {
    let mut telemetry = BakeryTelemetryState::new();
    let mut migration = sample_migration(9002, MigrationStage::BuildFinal);
    let result = ExecuteResult {
        ok: false,
        duration_ms: 1,
        failure_summary: Some("RTNETLINK answers: Invalid argument".to_string()),
    };

    let advanced = migration_stage_apply_succeeded(
        &mut telemetry,
        100,
        &mut migration,
        "live-move: build final",
        &result,
        MigrationStage::VerifyFinalReady,
    );

    assert!(!advanced);
    assert_eq!(migration.stage, MigrationStage::Done);
    let reason = bakery_reload_required_reason(&telemetry).expect("reload required reason should be set");
    assert!(reason.contains("9002"));
    assert!(reason.contains("live-move: build final"));
}

#[test]
fn migration_stage_success_advances_without_reload_required() {
    let mut telemetry = BakeryTelemetryState::new();
    let mut migration = sample_migration(9003, MigrationStage::BuildFinal);
    let result = ExecuteResult { ok: true, duration_ms: 1, failure_summary: None };

    let advanced = migration_stage_apply_succeeded(
        &mut telemetry,
        100,
        &mut migration,
        "live-move: build final",
        &result,
        MigrationStage::VerifyFinalReady,
    );

    assert!(advanced);
    assert_eq!(migration.stage, MigrationStage::VerifyFinalReady);
    assert!(bakery_reload_required_reason(&telemetry).is_none());
}

#[test]
fn migration_target_label_includes_circuit_and_site_names_when_known() {
    let mut migration = sample_migration(9006, MigrationStage::BuildFinal);
    migration.circuit_name = Some("Rochester-Roof-Switch".to_string());
    migration.site_name = Some("7232 Rochester".to_string());

    let label = migration_target_label(&migration);
    assert!(label.contains("Rochester-Roof-Switch"));
    assert!(label.contains("9006"));
    assert!(label.contains("7232 Rochester"));
}

#[test]
fn migration_branch_verification_summary_describes_expected_and_observed_state() {
    let verification = MigrationBranchVerification {
        down: MigrationDirectionVerification {
            interface_name: "if-down".to_string(),
            expected_handle: TcHandle::from_u32(0x4002000),
            expected_parent: TcHandle::from_u32(0x4000015),
            observed_present: true,
            observed_parent: Some(TcHandle::from_u32(0x4000013)),
            observed_leaf_qdisc_major: None,
        },
        up: Some(MigrationDirectionVerification {
            interface_name: "if-up".to_string(),
            expected_handle: TcHandle::from_u32(0x5002000),
            expected_parent: TcHandle::from_u32(0x5000015),
            observed_present: false,
            observed_parent: None,
            observed_leaf_qdisc_major: None,
        }),
    };

    let summary = verification.summary();
    assert!(summary.contains("if-down"));
    assert!(summary.contains("expected class"));
    assert!(summary.contains("2000"));
    assert!(summary.contains("parent"));
    assert!(summary.contains("15"));
    assert!(summary.contains("observed parent"));
    assert!(summary.contains("13"));
    assert!(summary.contains("with no leaf qdisc"));
    assert!(summary.contains("if-up"));
    assert!(summary.contains("500"));
    assert!(summary.contains("observed missing"));
    assert!(!verification.ready());
}

#[test]
fn migration_branch_verification_summary_reports_root_attached_class() {
    let verification = MigrationDirectionVerification {
        interface_name: "if-root".to_string(),
        expected_handle: TcHandle::from_u32(0x221f5),
        expected_parent: TcHandle::from_u32(0x2103a),
        observed_present: true,
        observed_parent: None,
        observed_leaf_qdisc_major: Some(0x96c8),
    };

    let summary = verification.summary("down");
    assert!(summary.contains("observed at root"));
    assert!(summary.contains("96c8"));
}

#[test]
fn wrong_parent_prune_commands_delete_root_attached_target_class() {
    let snapshot = HashMap::from([(
        0x221f5u32,
        LiveTcClassEntry {
            class_id: TcHandle::from_u32(0x221f5),
            parent: None,
            leaf_qdisc_major: Some(0x96c8),
        },
    )]);

    let commands = wrong_parent_prune_commands_for_direction(
        "if-root".to_string(),
        &snapshot,
        TcHandle::from_u32(0x221f5),
        TcHandle::from_u32(0x2103a),
    );

    assert_eq!(
        commands,
        vec![
            vec![
                "qdisc".to_string(),
                "del".to_string(),
                "dev".to_string(),
                "if-root".to_string(),
                "parent".to_string(),
                "0x2:0x21f5".to_string(),
            ],
            vec![
                "class".to_string(),
                "del".to_string(),
                "dev".to_string(),
                "if-root".to_string(),
                "classid".to_string(),
                "0x2:0x21f5".to_string(),
            ],
        ]
    );
}

#[test]
fn wrong_parent_prune_commands_skip_target_when_parent_already_matches() {
    let snapshot = HashMap::from([(
        0x221f5u32,
        LiveTcClassEntry {
            class_id: TcHandle::from_u32(0x221f5),
            parent: Some(TcHandle::from_u32(0x2103a)),
            leaf_qdisc_major: Some(0x96c8),
        },
    )]);

    let commands = wrong_parent_prune_commands_for_direction(
        "if-ok".to_string(),
        &snapshot,
        TcHandle::from_u32(0x221f5),
        TcHandle::from_u32(0x2103a),
    );

    assert!(commands.is_empty());
}

#[test]
fn migration_invariant_rejects_stale_qdisc_handles_when_parent_changes() {
    let mut migration = sample_migration(9004, MigrationStage::BuildFinal);
    migration.desired_cmd = mk_test_circuit(9004, 0x10034, 0x20034, 0x35, 0x1, 0x2, "192.0.2.94/32");

    let summary = migration_qdisc_handle_rotation_invariant_error(&migration)
        .expect("stale qdisc handles should be rejected");
    assert!(summary.contains("old handle"));

    let final_cmd = build_temp_add_cmd(
        &migration.desired_cmd,
        migration.final_minor,
        migration.new_down_min,
        migration.new_down_max,
        migration.new_up_min,
        migration.new_up_max,
        true,
    )
    .expect("final command");
    let final_summary = build_final_qdisc_handle_rotation_invariant_error(&migration, &final_cmd)
        .expect("final command should also be rejected");
    assert!(final_summary.contains("old handle"));
}

#[test]
fn migration_invariant_rejects_live_reserved_handle_collisions() {
    let mut migration = sample_migration(9005, MigrationStage::BuildFinal);
    migration.down_qdisc_handle = Some(0x93c9);
    migration.up_qdisc_handle = Some(0x93ca);
    migration.desired_cmd = BakeryCommands::AddCircuit {
        circuit_hash: 9005,
        circuit_name: None,
        site_name: None,
        parent_class_id: TcHandle::from_u32(0x10034),
        up_parent_class_id: TcHandle::from_u32(0x20034),
        class_minor: 0x35,
        download_bandwidth_min: rate(1.0),
        upload_bandwidth_min: rate(1.0),
        download_bandwidth_max: rate(20.0),
        upload_bandwidth_max: rate(20.0),
        class_major: 0x1,
        up_class_major: 0x2,
        down_qdisc_handle: Some(0x93c9),
        up_qdisc_handle: Some(0x93ca),
        ip_addresses: "192.0.2.95/32".to_string(),
        sqm_override: None,
    };

    let final_cmd = build_temp_add_cmd(
        &migration.desired_cmd,
        migration.final_minor,
        migration.new_down_min,
        migration.new_down_max,
        migration.new_up_min,
        migration.new_up_max,
        true,
    )
    .expect("final command");
    let down_reserved = HashSet::from([0x93c9]);
    let up_reserved = HashSet::from([0x93ca]);
    let final_summary = build_final_qdisc_handle_rotation_invariant_error_with_live_reservations(
        &migration,
        &final_cmd,
        Some(&down_reserved),
        Some(&up_reserved),
    )
    .expect("live reserved collision should be rejected");
    assert!(final_summary.contains("already live"));
}

#[test]
fn queue_top_level_runtime_migration_succeeds_for_inactive_parent_move() {
    let old_cmd = mk_test_circuit(9200, 0x10020, 0x20020, 0x21, 0x1, 0x2, "192.0.2.92/32");
    let new_cmd = mk_test_circuit(9200, 0x10034, 0x20034, 0x35, 0x3, 0x4, "192.0.2.92/32");

    let circuits = HashMap::from([(9200, old_cmd.duplicate())]);
    let sites = HashMap::new();
    let live_circuits = HashMap::new();
    let mut migrations = HashMap::new();

    let queued = queue_top_level_runtime_migration(&old_cmd, &new_cmd, &sites, &circuits, &live_circuits, &mut migrations);

    assert!(queued);
    let migration = migrations.get(&9200).expect("migration should be queued");
    assert_eq!(migration.stage, MigrationStage::PrepareShadow);
    assert_eq!(migration.parent_class_id, TcHandle::from_u32(0x10034));
    assert_eq!(migration.final_minor, 0x35);
    assert!(migration.shadow_minor >= 0x2000);
    assert_ne!(migration.shadow_minor, migration.old_minor);
    assert!(is_same_circuit(circuits.get(&9200).unwrap(), &old_cmd));
    assert!(is_same_circuit(&migration.desired_cmd, &new_cmd));
}

#[test]
fn temp_add_cmd_drops_qdisc_handles_unless_preserved() {
    let base = mk_test_circuit(9400, 0x10020, 0x20020, 0x21, 0x1, 0x2, "192.0.2.40/32");
    let temp = build_temp_add_cmd(&base, 0x2005, rate(2.0), rate(3.0), rate(4.0), rate(5.0), false).unwrap();
    match temp {
        BakeryCommands::AddCircuit {
            class_minor,
            download_bandwidth_min,
            download_bandwidth_max,
            upload_bandwidth_min,
            upload_bandwidth_max,
            down_qdisc_handle,
            up_qdisc_handle,
            ..
        } => {
            assert_eq!(class_minor, 0x2005);
            assert_eq!(f32::from_bits(download_bandwidth_min), 2.0);
            assert_eq!(f32::from_bits(download_bandwidth_max), 3.0);
            assert_eq!(f32::from_bits(upload_bandwidth_min), 4.0);
            assert_eq!(f32::from_bits(upload_bandwidth_max), 5.0);
            assert_eq!(down_qdisc_handle, None);
            assert_eq!(up_qdisc_handle, None);
        }
        _ => panic!("expected circuit"),
    }
    assert!(build_temp_add_cmd(&mk_add_site(1, 0x10001, 0x20001, 1), 1, 0, 0, 0, 0, true).is_none());
}
