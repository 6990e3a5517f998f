use lqos_bakery::commands::BakeryCommands;
use lqos_bakery::config::BakeryConfig;
use lqos_bakery::ip_mapping::{
    build_known_handle_set, hot_cache_failure_message, mapping_deletion_ip, mapping_key_cidr,
    mapping_key_for, parse_ip_and_prefix, remap_failure_message, remap_migration_ips,
    rollback_migration_ip_remaps, IpFlowTable,
    IpMappingState, ListedMapping, MappingKey, MappingVal,
};
use lqos_bakery::migration::{
    Migration, MigrationBranchVerification, MigrationDirectionVerification, MigrationStage,
};
use lqos_bakery::migration_stages::{
    advance_migration_swap, advance_migration_verification, apply_migration_swap_result,
    migration_scaffold_prune_commands,
};
use lqos_bakery::shaping_state::ShapingFlags;
use lqos_bakery::stormguard::{stormguard_adjustment, StormguardAdjustmentAction};
use lqos_bakery::tc_handle::TcHandle;
use lqos_bakery::telemetry::{bakery_reload_required_reason, BakeryTelemetryState};
use std::collections::HashMap;

const NOW: u64 = 1_000;

fn rate(v: f32) -> u32 {
    v.to_bits()
}

fn test_config() -> BakeryConfig {
    BakeryConfig {
        isp_interface: "eth1".to_string(),
        internet_interface: "eth0".to_string(),
        on_a_stick: false,
        observe_mode: false,
        lazy_queues: None,
        monitor_only: false,
    }
}

fn circuit(hash: i64, minor: u16, major: u16, up_major: u16) -> BakeryCommands {
    BakeryCommands::AddCircuit {
        circuit_hash: hash,
        circuit_name: None,
        site_name: None,
        parent_class_id: TcHandle::from_u32(0x10034),
        up_parent_class_id: TcHandle::from_u32(0x20034),
        class_minor: minor,
        download_bandwidth_min: rate(1.0),
        upload_bandwidth_min: rate(1.0),
        download_bandwidth_max: rate(20.0),
        upload_bandwidth_max: rate(20.0),
        class_major: major,
        up_class_major: up_major,
        down_qdisc_handle: None,
        up_qdisc_handle: None,
        ip_addresses: String::new(),
        sqm_override: None,
    }
}

fn migration(stage: MigrationStage, ips: Vec<&str>) -> Migration {
    Migration {
        circuit_hash: 7,
        circuit_name: Some("Alpha".to_string()),
        site_name: None,
        old_class_major: 0x1,
        old_up_class_major: 0x2,
        old_down_qdisc_handle: None,
        old_up_qdisc_handle: None,
        parent_class_id: TcHandle::from_u32(0x10034),
        up_parent_class_id: TcHandle::from_u32(0x20034),
        class_major: 0x1,
        up_class_major: 0x2,
        down_qdisc_handle: None,
        up_qdisc_handle: None,
        old_down_min: rate(1.0),
        old_down_max: rate(10.0),
        old_up_min: rate(1.0),
        old_up_max: rate(10.0),
        new_down_min: rate(1.0),
        new_down_max: rate(20.0),
        new_up_min: rate(1.0),
        new_up_max: rate(20.0),
        old_minor: 0x21,
        shadow_minor: 0x2000,
        final_minor: 0x35,
        ips: ips.into_iter().map(str::to_string).collect(),
        sqm_override: None,
        desired_cmd: circuit(7, 0x35, 0x1, 0x2),
        stage,
        shadow_verify_attempts: 0,
        final_verify_attempts: 0,
    }
}

fn key(ip: &str, prefix: u32) -> MappingKey {
    MappingKey { ip: ip.to_string(), prefix }
}

fn val(handle: u32, cpu: u32) -> MappingVal {
    MappingVal { handle: TcHandle::from_u32(handle), cpu }
}

fn lookup(state: &IpMappingState, ip: &str, prefix: u32) -> Option<MappingVal> {
    state.current.iter().find(|(k, _)| k.ip == ip && k.prefix == prefix).map(|(_, v)| *v)
}

fn staged_lookup(state: &IpMappingState, ip: &str, prefix: u32) -> Option<MappingVal> {
    state
        .staged
        .as_ref()
        .and_then(|st| st.iter().find(|(k, _)| k.ip == ip && k.prefix == prefix).map(|(_, v)| *v))
}

#[derive(Default)]
struct FakeTable {
    fail_add_for: Option<String>,
    fail_hot_cache: bool,
    calls: Vec<String>,
}

impl IpFlowTable for FakeTable {
    fn add_ip_to_tc(&mut self, cidr: &str, handle: TcHandle, cpu: u32) -> Result<(), String> {
        self.calls.push(format!("add {cidr} {} {cpu}", handle.as_tc_string()));
        if self.fail_add_for.as_deref() == Some(cidr) {
            return Err("map full".to_string());
        }
        Ok(())
    }

    fn del_ip_from_tc(&mut self, cidr: &str) -> Result<(), String> {
        self.calls.push(format!("del {cidr}"));
        Ok(())
    }

    fn clear_hot_cache(&mut self) -> Result<(), String> {
        self.calls.push("clear".to_string());
        if self.fail_hot_cache {
            self.fail_hot_cache = false;
            return Err("busy".to_string());
        }
        Ok(())
    }
}

#[test]
fn ip_and_prefix_split_on_the_first_slash() {
    assert_eq!(parse_ip_and_prefix("192.0.2.0/24"), ("192.0.2.0".to_string(), 24));
    assert_eq!(parse_ip_and_prefix("2001:db8::/48"), ("2001:db8::".to_string(), 48));
}

#[test]
fn ip_without_prefix_is_a_host_address_by_family() {
    assert_eq!(parse_ip_and_prefix("192.0.2.9"), ("192.0.2.9".to_string(), 32));
    assert_eq!(parse_ip_and_prefix("2001:db8::9"), ("2001:db8::9".to_string(), 128));
}

#[test]
fn ip_with_an_unreadable_prefix_is_kept_whole() {
    assert_eq!(parse_ip_and_prefix("192.0.2.9/abc"), ("192.0.2.9/abc".to_string(), 32));
}

#[test]
fn mapping_keys_are_written_as_cidr_and_deleted_by_host_address() {
    assert_eq!(mapping_key_cidr(&key("192.0.2.9", 32)), "192.0.2.9/32");
    assert_eq!(mapping_deletion_ip(&key("192.0.2.9", 32)), "192.0.2.9");
    assert_eq!(mapping_deletion_ip(&key("2001:db8::9", 128)), "2001:db8::9");
    assert_eq!(mapping_deletion_ip(&key("192.0.2.0", 24)), "192.0.2.0/24");
    let parsed = mapping_key_for("10.1.0.0/16");
    assert_eq!((parsed.ip.as_str(), parsed.prefix), ("10.1.0.0", 16));
}

#[test]
fn map_ip_stages_and_replaces_a_mapping() {
    let mut state = IpMappingState::new();
    state.handle_map_ip("192.0.2.9", TcHandle::from_u32(0x10005), 1);
    state.handle_map_ip("192.0.2.9/32", TcHandle::from_u32(0x10006), 2);
    assert_eq!(staged_lookup(&state, "192.0.2.9", 32), Some(val(0x10006, 2)));
    assert_eq!(state.staged.as_ref().map(Vec::len), Some(1));
    assert!(state.current.is_empty());
}

#[test]
fn del_ip_forgets_staged_and_live_mappings() {
    let mut state = IpMappingState::new();
    state.handle_map_ip("192.0.2.9", TcHandle::from_u32(0x10005), 1);
    assert!(state.commit_mappings().is_empty());
    state.handle_map_ip("192.0.2.9", TcHandle::from_u32(0x10005), 1);
    state.handle_del_ip("192.0.2.9/32");
    assert_eq!(lookup(&state, "192.0.2.9", 32), None);
    assert_eq!(staged_lookup(&state, "192.0.2.9", 32), None);
}

#[test]
fn commit_drops_stale_mappings_but_keeps_unknown_ones() {
    let mut state = IpMappingState::new();
    let circuits = HashMap::from([(7, circuit(7, 0x5, 0x1, 0x2))]);
    let listed = vec![
        ListedMapping { ip_address: "192.0.2.1".to_string(), prefix_length: 32, tc_handle: TcHandle::from_u32(0x10005), cpu: 0 },
        ListedMapping { ip_address: "192.0.2.2".to_string(), prefix_length: 32, tc_handle: TcHandle::from_u32(0x10005), cpu: 0 },
        ListedMapping { ip_address: "198.51.100.0".to_string(), prefix_length: 24, tc_handle: TcHandle::from_u32(0x10005), cpu: 1 },
        ListedMapping { ip_address: "203.0.113.7".to_string(), prefix_length: 32, tc_handle: TcHandle::from_u32(0x90009), cpu: 3 },
    ];
    state.seed_mappings(&circuits, &listed);
    assert!(state.seeded);
    assert_eq!(state.unknown.len(), 1);
    assert_eq!(state.unknown[0].ip, "203.0.113.7");

    state.handle_map_ip("192.0.2.1", TcHandle::from_u32(0x10006), 2);
    let stale = state.commit_mappings();
    assert_eq!(stale, vec!["192.0.2.2".to_string(), "198.51.100.0/24".to_string()]);
    assert_eq!(lookup(&state, "192.0.2.1", 32), Some(val(0x10006, 2)));
    assert_eq!(lookup(&state, "192.0.2.2", 32), None);
    assert_eq!(lookup(&state, "203.0.113.7", 32), Some(val(0x90009, 3)));
    assert!(state.staged.is_none());
}

#[test]
fn commit_without_staged_mappings_changes_nothing() {
    let mut state = IpMappingState::new();
    state.handle_map_ip("192.0.2.1", TcHandle::from_u32(0x10005), 0);
    state.commit_mappings();
    assert!(state.commit_mappings().is_empty());
    assert_eq!(lookup(&state, "192.0.2.1", 32), Some(val(0x10005, 0)));
}

#[test]
fn clear_ip_all_forgets_everything() {
    let mut state = IpMappingState::new();
    state.handle_map_ip("192.0.2.1", TcHandle::from_u32(0x10005), 0);
    state.commit_mappings();
    state.unknown.push(key("203.0.113.7", 32));
    state.handle_map_ip("192.0.2.3", TcHandle::from_u32(0x10005), 0);
    state.clear_ip_all();
    assert!(state.current.is_empty());
    assert!(state.unknown.is_empty());
    assert!(state.staged.is_none());
}

#[test]
fn known_handles_are_the_circuits_down_classes() {
    let circuits = HashMap::from([(7, circuit(7, 0x5, 0x1, 0x2)), (8, circuit(8, 0x6, 0x3, 0x4))]);
    let known = build_known_handle_set(&circuits);
    assert_eq!(known.len(), 2);
    assert!(known.contains(&0x10005));
    assert!(known.contains(&0x30006));
    assert!(!known.contains(&0x20005));
}

#[test]
fn remap_moves_every_address_and_keeps_its_cpu() {
    let mut state = IpMappingState::new();
    state.handle_map_ip("192.0.2.1/32", TcHandle::from_u32(0x10021), 4);
    state.handle_map_ip("198.51.100.7", TcHandle::from_u32(0x10022), 6);
    state.commit_mappings();
    let mig = migration(MigrationStage::SwapToShadow, vec!["192.0.2.1/32", "192.0.2.2"]);
    let mut table = FakeTable::default();
    assert_eq!(remap_migration_ips(&mig, 0x2000, &mut state, &mut table), Ok(()));
    assert_eq!(lookup(&state, "192.0.2.1", 32), Some(val(0x12000, 4)));
    assert_eq!(lookup(&state, "192.0.2.2", 32), Some(val(0x12000, 0)));
    assert_eq!(lookup(&state, "198.51.100.7", 32), Some(val(0x10022, 6)));
    assert_eq!(
        table.calls,
        vec!["add 192.0.2.1/32 0x1:0x2000 4", "add 192.0.2.2/32 0x1:0x2000 0", "clear"]
    );
}

#[test]
fn remap_failure_rolls_back_the_earlier_addresses() {
    let mut state = IpMappingState::new();
    state.handle_map_ip("192.0.2.1/32", TcHandle::from_u32(0x10021), 4);
    state.commit_mappings();
    let mig = migration(MigrationStage::SwapToShadow, vec!["192.0.2.1/32", "192.0.2.2", "192.0.2.3"]);
    let mut table = FakeTable { fail_add_for: Some("192.0.2.2/32".to_string()), ..FakeTable::default() };
    let result = remap_migration_ips(&mig, 0x2000, &mut state, &mut table);
    assert_eq!(
        result,
        Err("failed to remap 192.0.2.2/32 to 0x1:0x2000: map full; prior remaps were rolled back".to_string())
    );
    assert_eq!(lookup(&state, "192.0.2.1", 32), Some(val(0x10021, 4)));
    assert_eq!(lookup(&state, "192.0.2.2", 32), None);
    assert_eq!(
        table.calls,
        vec![
            "add 192.0.2.1/32 0x1:0x2000 4",
            "add 192.0.2.2/32 0x1:0x2000 0",
            "add 192.0.2.1/32 0x1:0x21 4",
            "clear"
        ]
    );
}

#[test]
fn remap_hot_cache_failure_undoes_the_remap() {
    let mut state = IpMappingState::new();
    let mig = migration(MigrationStage::SwapToShadow, vec!["192.0.2.5"]);
    let mut table = FakeTable { fail_hot_cache: true, ..FakeTable::default() };
    let result = remap_migration_ips(&mig, 0x2000, &mut state, &mut table);
    assert_eq!(
        result,
        Err("remap to 0x1:0x2000 succeeded but clearing the hot cache failed: busy; remaps were rolled back".to_string())
    );
    assert_eq!(lookup(&state, "192.0.2.5", 32), None);
    assert_eq!(table.calls, vec!["add 192.0.2.5/32 0x1:0x2000 0", "clear", "del 192.0.2.5/32", "clear"]);
}

#[test]
fn remap_messages_mention_a_failed_rollback() {
    assert_eq!(
        remap_failure_message("192.0.2.2/32", TcHandle::from_u32(0x12000), "e", Some("r")),
        "failed to remap 192.0.2.2/32 to 0x1:0x2000: e; rollback also failed: r"
    );
    assert_eq!(
        hot_cache_failure_message(TcHandle::from_u32(0x12000), "e", Some("r")),
        "remap to 0x1:0x2000 succeeded but clearing the hot cache failed: e; rollback also failed: r"
    );
}

fn direction(ready: bool) -> MigrationDirectionVerification {
    MigrationDirectionVerification {
        interface_name: "eth1".to_string(),
        expected_handle: TcHandle::from_u32(0x12000),
        expected_parent: TcHandle::from_u32(0x10034),
        observed_present: ready,
        observed_parent: if ready { Some(TcHandle::from_u32(0x10034)) } else { None },
        observed_leaf_qdisc_major: if ready { Some(0x9000) } else { None },
    }
}

#[test]
fn verified_shadow_moves_the_migration_to_the_swap() {
    let mut mig = migration(MigrationStage::VerifyShadowReady, vec![]);
    mig.shadow_verify_attempts = 2;
    let mut telemetry = BakeryTelemetryState::new();
    let verification = MigrationBranchVerification { down: direction(true), up: None };
    advance_migration_verification(&mut mig, Ok(verification), &mut telemetry, NOW);
    assert_eq!(mig.stage, MigrationStage::SwapToShadow);
    assert_eq!(mig.shadow_verify_attempts, 0);
    assert_eq!(bakery_reload_required_reason(&telemetry), None);
}

#[test]
fn missing_final_class_is_retried_then_abandoned() {
    let mut mig = migration(MigrationStage::VerifyFinalReady, vec![]);
    let mut telemetry = BakeryTelemetryState::new();
    for attempt in 1..=3u8 {
        let verification = MigrationBranchVerification { down: direction(false), up: None };
        advance_migration_verification(&mut mig, Ok(verification), &mut telemetry, NOW);
        assert_eq!(mig.stage, MigrationStage::VerifyFinalReady);
        assert_eq!(mig.final_verify_attempts, attempt);
    }
    let verification = MigrationBranchVerification { down: direction(false), up: None };
    advance_migration_verification(&mut mig, Ok(verification), &mut telemetry, NOW);
    assert_eq!(mig.stage, MigrationStage::Done);
    let reason = bakery_reload_required_reason(&telemetry).expect("reload required");
    assert!(reason.starts_with(
        "Bakery live-move final verification did not find the expected final class/qdisc for circuit Alpha (7): down eth1"
    ));
    assert!(reason.ends_with("A full reload is now required before further incremental topology mutations."));
}

#[test]
fn unreadable_shadow_snapshot_abandons_the_migration() {
    let mut mig = migration(MigrationStage::VerifyShadowReady, vec![]);
    let mut telemetry = BakeryTelemetryState::new();
    advance_migration_verification(&mut mig, Err("tc failed".to_string()), &mut telemetry, NOW);
    assert_eq!(mig.stage, MigrationStage::Done);
    assert_eq!(
        bakery_reload_required_reason(&telemetry).as_deref(),
        Some("Bakery live-move shadow verification failed for circuit Alpha (7): tc failed. A full reload is now required before further incremental topology mutations.")
    );
}

#[test]
fn verification_leaves_other_stages_alone() {
    let mut mig = migration(MigrationStage::BuildFinal, vec![]);
    let mut telemetry = BakeryTelemetryState::new();
    advance_migration_verification(&mut mig, Err("x".to_string()), &mut telemetry, NOW);
    assert_eq!(mig.stage, MigrationStage::BuildFinal);
    assert_eq!(bakery_reload_required_reason(&telemetry), None);
}

#[test]
fn final_swap_makes_the_desired_circuit_effective() {
    let mut mig = migration(MigrationStage::SwapToFinal, vec![]);
    let mut circuits = HashMap::from([(7, circuit(7, 0x21, 0x1, 0x2))]);
    let mut telemetry = BakeryTelemetryState::new();
    assert!(apply_migration_swap_result(&mut mig, Ok(()), &mut circuits, &mut telemetry, NOW));
    assert_eq!(mig.stage, MigrationStage::TeardownMigrationScaffold);
    assert_eq!(format!("{:?}", circuits[&7]), format!("{:?}", circuit(7, 0x35, 0x1, 0x2)));
}

#[test]
fn failed_shadow_swap_abandons_the_migration() {
    let mut mig = migration(MigrationStage::SwapToShadow, vec![]);
    let mut circuits = HashMap::new();
    let mut telemetry = BakeryTelemetryState::new();
    assert!(!apply_migration_swap_result(&mut mig, Err("nope".to_string()), &mut circuits, &mut telemetry, NOW));
    assert_eq!(mig.stage, MigrationStage::Done);
    assert_eq!(
        bakery_reload_required_reason(&telemetry).as_deref(),
        Some("Bakery live-move shadow remap failed for circuit Alpha (7): nope. A full reload is now required before further incremental topology mutations.")
    );
}

#[test]
fn shadow_swap_remaps_and_moves_on_to_the_final_build() {
    let mut mig = migration(MigrationStage::SwapToShadow, vec!["192.0.2.9"]);
    let mut state = IpMappingState::new();
    let mut table = FakeTable::default();
    let mut circuits = HashMap::new();
    let mut telemetry = BakeryTelemetryState::new();
    let changed = advance_migration_swap(&mut mig, &mut state, &mut table, &mut circuits, &mut telemetry, NOW);
    assert!(!changed);
    assert_eq!(mig.stage, MigrationStage::BuildFinal);
    assert_eq!(lookup(&state, "192.0.2.9", 32), Some(val(0x12000, 0)));
}

#[test]
fn scaffold_teardown_deletes_the_shadow_classes() {
    let mig = migration(MigrationStage::TeardownMigrationScaffold, vec![]);
    let commands = migration_scaffold_prune_commands(&mig, &test_config());
    let text: Vec<String> = commands.iter().map(|c| c.join(" ")).collect();
    assert_eq!(
        text,
        vec![
            "qdisc del dev eth0 parent 0x2:0x2000",
            "qdisc del dev eth1 parent 0x1:0x2000",
            "class del dev eth1 parent 0x1:0x34 classid 0x1:0x2000",
            "class del dev eth0 parent 0x2:0x34 classid 0x2:0x2000",
        ]
    );
}

#[test]
fn stormguard_adjustment_records_and_runs_the_class_change() {
    let flags = ShapingFlags { full_reload_in_progress: false, shaping_tree_active: true, active_circuits: 0 };
    let r = stormguard_adjustment(false, "eth1", "1:5", 50, true, &flags, &test_config());
    let (k, v) = r.record.expect("recorded");
    assert_eq!((k.interface.as_str(), k.class, v), ("eth1", TcHandle::from_u32(0x10005), 50));
    match r.action {
        StormguardAdjustmentAction::Run(args) => assert_eq!(
            args.join(" "),
            "class replace dev eth1 classid 0x1:0x5 htb rate 49mbit ceil 50mbit"
        ),
        other => panic!("unexpected {other:?}"),
    }
}

#[test]
fn stormguard_adjustment_is_ignored_before_setup_and_blocked_when_inactive() {
    let active = ShapingFlags { full_reload_in_progress: false, shaping_tree_active: true, active_circuits: 0 };
    let r = stormguard_adjustment(false, "eth1", "1:5", 50, false, &active, &test_config());
    assert!(r.record.is_none());
    assert!(matches!(r.action, StormguardAdjustmentAction::NotReady));
    let r = stormguard_adjustment(false, "eth1", "bogus", 50, true, &active, &test_config());
    assert!(matches!(r.action, StormguardAdjustmentAction::InvalidClass));
    let inactive = ShapingFlags { full_reload_in_progress: false, shaping_tree_active: false, active_circuits: 0 };
    let r = stormguard_adjustment(true, "eth1", "1:5", 50, true, &inactive, &test_config());
    assert!(r.record.is_none());
    match r.action {
        StormguardAdjustmentAction::Blocked(reason) => assert_eq!(reason, "the shaping tree is not currently active"),
        other => panic!("unexpected {other:?}"),
    }
}

struct RollbackTable {
    fail_for: String,
    fail_hot_cache: bool,
    calls: Vec<String>,
}

impl IpFlowTable for RollbackTable {
    fn add_ip_to_tc(&mut self, cidr: &str, _handle: TcHandle, _cpu: u32) -> Result<(), String> {
        self.calls.push(format!("add {cidr}"));
        if cidr == self.fail_for {
            return Err("map full".to_string());
        }
        Ok(())
    }

    fn del_ip_from_tc(&mut self, cidr: &str) -> Result<(), String> {
        self.calls.push(format!("del {cidr}"));
        if cidr == self.fail_for {
            return Err("missing".to_string());
        }
        Ok(())
    }

    fn clear_hot_cache(&mut self) -> Result<(), String> {
        self.calls.push("clear".to_string());
        if self.fail_hot_cache {
            return Err("busy".to_string());
        }
        Ok(())
    }
}

#[test]
fn rollback_restores_newest_first_and_reports_each_failure() {
    let mut state = IpMappingState::new();
    state.handle_map_ip("192.0.2.1", TcHandle::from_u32(0x12000), 1);
    state.handle_map_ip("192.0.2.2", TcHandle::from_u32(0x12000), 0);
    state.commit_mappings();
    let remapped = vec![
        (key("192.0.2.1", 32), Some(val(0x10005, 1))),
        (key("192.0.2.2", 32), None),
    ];
    let mut table = RollbackTable {
        fail_for: "192.0.2.1/32".to_string(),
        fail_hot_cache: true,
        calls: Vec::new(),
    };
    let result = rollback_migration_ip_remaps(&remapped, &mut state, &mut table);
    assert_eq!(
        result,
        Err("192.0.2.1/32: map full; clear hot cache after rollback: busy".to_string())
    );
    assert_eq!(table.calls, vec!["del 192.0.2.2/32", "add 192.0.2.1/32", "clear"]);
    assert_eq!(lookup(&state, "192.0.2.2", 32), None);
    assert_eq!(lookup(&state, "192.0.2.1", 32), Some(val(0x12000, 1)));
}

#[test]
fn rollback_that_fully_succeeds_restores_every_address() {
    let mut state = IpMappingState::new();
    state.handle_map_ip("192.0.2.1", TcHandle::from_u32(0x12000), 1);
    state.handle_map_ip("192.0.2.2", TcHandle::from_u32(0x12000), 0);
    state.commit_mappings();
    let remapped = vec![
        (key("192.0.2.1", 32), Some(val(0x10005, 1))),
        (key("192.0.2.2", 32), None),
    ];
    let mut table = RollbackTable {
        fail_for: String::new(),
        fail_hot_cache: false,
        calls: Vec::new(),
    };
    assert_eq!(rollback_migration_ip_remaps(&remapped, &mut state, &mut table), Ok(()));
    assert_eq!(lookup(&state, "192.0.2.1", 32), Some(val(0x10005, 1)));
    assert_eq!(lookup(&state, "192.0.2.2", 32), None);
}
