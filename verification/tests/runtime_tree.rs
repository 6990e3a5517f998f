use lqos_bakery::commands::{BakeryCommands, RuntimeNodeOperationFailureReason};
use lqos_bakery::config::BakeryConfig;
use lqos_bakery::diff::sites::{diff_sites, SiteDiffResult};
use lqos_bakery::hierarchy::{ordered_prune_site_hashes, top_level_runtime_virtualization_eligibility_error};
use lqos_bakery::live_tc::LiveTcClassEntry;
use lqos_bakery::migration::{Migration, MigrationStage};
use lqos_bakery::overlay::{
    apply_runtime_virtualization_overlay, build_effective_runtime_state,
    reconstruct_structural_baseline_state,
};
use lqos_bakery::prune::{
    classify_inactive_branch_observed_children, observed_circuit_prune_commands,
    remaining_inactive_branch_class_handles, runtime_virtualized_site_prune_ready,
    site_commands_observed_live, site_prune_class_commands_for_observed_state,
    summarize_handle_set, verify_pruned_handles_absent,
};
use lqos_bakery::runtime::{
    format_virtualized_site_source, resolve_runtime_site_name, RuntimeVirtualizedActiveBranch,
    RuntimeVirtualizedBranchLifecycle, VirtualizedSiteQdiscHandles, VirtualizedSiteState,
};
use lqos_bakery::runtime_branch::{
    runtime_virtualized_site_has_remaining_observed_child_classes,
    sync_runtime_virtualized_site_qdisc_handles_from_live_snapshot,
};
use lqos_bakery::site_tree::{
    find_site_command_in_batch, nested_runtime_shadow_branch_eligibility_error,
    site_command_structure_summary, site_prune_commands,
    site_runtime_virtualization_eligibility_error,
};
use lqos_bakery::subtree_prune::{
    finish_runtime_virtualized_subtree_prune, plan_runtime_virtualized_subtree_prune, RuntimePrunePassResult,
    RuntimePruneStep,
};
use lqos_bakery::tc_handle::TcHandle;
use std::collections::{HashMap, HashSet};

fn test_config() -> BakeryConfig {
    BakeryConfig {
        isp_interface: "eth1".to_string(),
        internet_interface: "eth0".to_string(),
        on_a_stick: false,
        observe_mode: false,
        lazy_queues: None,
        monitor_only: false,
    }
}

fn rate(v: f32) -> u32 {
    v.to_bits()
}

fn mk_add_site(site_hash: i64, parent: u32, up_parent: u32, class_minor: u16) -> BakeryCommands {
    BakeryCommands::AddSite {
        site_hash,
        parent_class_id: TcHandle::from_u32(parent),
        up_parent_class_id: TcHandle::from_u32(up_parent),
        class_minor,
        download_bandwidth_min: rate(10.0),
        upload_bandwidth_min: rate(10.0),
        download_bandwidth_max: rate(100.0),
        upload_bandwidth_max: rate(100.0),
    }
}

fn mk_add_circuit(hash: i64, ip_addresses: &str) -> BakeryCommands {
    BakeryCommands::AddCircuit {
        circuit_hash: hash,
        circuit_name: None,
        site_name: None,
        parent_class_id: TcHandle::from_u32(0x1),
        up_parent_class_id: TcHandle::from_u32(0x2),
        class_minor: 0x10,
        download_bandwidth_min: rate(10.0),
        upload_bandwidth_min: rate(10.0),
        download_bandwidth_max: rate(100.0),
        upload_bandwidth_max: rate(100.0),
        class_major: 0x100,
        up_class_major: 0x200,
        down_qdisc_handle: None,
        up_qdisc_handle: None,
        ip_addresses: ip_addresses.to_string(),
        sqm_override: None,
    }
}

#[allow(clippy::too_many_arguments)]
fn mk_test_circuit(
    circuit_hash: i64,
    parent_class_id: u32,
    up_parent_class_id: u32,
    class_minor: u16,
    class_major: u16,
    up_class_major: u16,
    ip_addresses: &str,
) -> BakeryCommands {
    BakeryCommands::AddCircuit {
        circuit_hash,
        circuit_name: None,
        site_name: None,
        parent_class_id: TcHandle::from_u32(parent_class_id),
        up_parent_class_id: TcHandle::from_u32(up_parent_class_id),
        class_minor,
        download_bandwidth_min: rate(10.0),
        upload_bandwidth_min: rate(10.0),
        download_bandwidth_max: rate(100.0),
        upload_bandwidth_max: rate(100.0),
        class_major,
        up_class_major,
        down_qdisc_handle: Some(0x9000),
        up_qdisc_handle: Some(0x9001),
        ip_addresses: ip_addresses.to_string(),
        sqm_override: None,
    }
}

fn mk_state(
    site: BakeryCommands,
    active_branch: RuntimeVirtualizedActiveBranch,
    lifecycle: RuntimeVirtualizedBranchLifecycle,
) -> VirtualizedSiteState {
    VirtualizedSiteState {
        site_name: "test-site-20".to_string(),
        site,
        saved_sites: HashMap::new(),
        saved_circuits: HashMap::new(),
        active_sites: HashMap::new(),
        active_circuits: HashMap::new(),
        prune_sites: HashMap::new(),
        prune_circuits: HashMap::new(),
        qdisc_handles: VirtualizedSiteQdiscHandles { down: None, up: None },
        active_branch,
        lifecycle,
        pending_prune: true,
        next_prune_attempt_unix: 0,
    }
}

fn live_class_entry(class_id: u32, parent: Option<u32>, leaf: Option<u16>) -> LiveTcClassEntry {
    LiveTcClassEntry {
        class_id: TcHandle::from_u32(class_id),
        parent: parent.map(TcHandle::from_u32),
        leaf_qdisc_major: leaf,
    }
}

fn snapshot(entries: Vec<LiveTcClassEntry>) -> HashMap<u32, LiveTcClassEntry> {
    entries.into_iter().map(|e| (e.class_id.as_u32(), e)).collect()
}

fn site_parents(cmd: &BakeryCommands) -> Option<(i64, TcHandle, TcHandle)> {
    match cmd {
        BakeryCommands::AddSite { site_hash, parent_class_id, up_parent_class_id, .. } => {
            Some((*site_hash, *parent_class_id, *up_parent_class_id))
        }
        _ => None,
    }
}

fn circuit_parents(cmd: &BakeryCommands) -> Option<(i64, TcHandle, TcHandle)> {
    match cmd {
        BakeryCommands::AddCircuit { circuit_hash, parent_class_id, up_parent_class_id, .. } => {
            Some((*circuit_hash, *parent_class_id, *up_parent_class_id))
        }
        _ => None,
    }
}

fn runtime_child_site() -> BakeryCommands {
    BakeryCommands::AddSite {
        site_hash: 30,
        parent_class_id: TcHandle::from_u32(0x10020),
        up_parent_class_id: TcHandle::from_u32(0x20020),
        class_minor: 0x22,
        download_bandwidth_min: rate(50.0),
        upload_bandwidth_min: rate(50.0),
        download_bandwidth_max: rate(500.0),
        upload_bandwidth_max: rate(500.0),
    }
}

#[test]
fn runtime_virtualization_overlay_hides_virtualized_site_and_reparents_children() {
    let parent_site = mk_add_site(10, 0x10001, 0x20001, 0x20);
    let virtualized_site = mk_add_site(20, 0x10020, 0x20020, 0x21);
    let child_site = mk_add_site(30, 0x10021, 0x20021, 0x22);
    let child_circuit = mk_test_circuit(40, 0x10021, 0x20021, 0x30, 0x110, 0x210, "192.0.2.40/32");

    let mut state = mk_state(
        virtualized_site.duplicate(),
        RuntimeVirtualizedActiveBranch::Shadow,
        RuntimeVirtualizedBranchLifecycle::FlattenedActive,
    );
    state.pending_prune = false;
    state.active_sites = HashMap::from([(30, runtime_child_site())]);
    state.active_circuits = HashMap::from([(
        40,
        mk_test_circuit(40, 0x10020, 0x20020, 0x30, 0x110, 0x210, "192.0.2.40/32"),
    )]);
    let virtualized_sites = HashMap::from([(20, state)]);

    let overlaid = apply_runtime_virtualization_overlay(
        vec![parent_site, virtualized_site, child_site, child_circuit],
        &virtualized_sites,
    );

    assert_eq!(overlaid.len(), 3);
    assert!(!overlaid.iter().any(|cmd| matches!(site_parents(cmd), Some((20, _, _)))));
    let child = overlaid
        .iter()
        .find_map(|cmd| site_parents(cmd).filter(|p| p.0 == 30))
        .expect("child site should remain in batch");
    assert_eq!(child.1, TcHandle::from_u32(0x10020));
    assert_eq!(child.2, TcHandle::from_u32(0x20020));
    let circuit = overlaid
        .iter()
        .find_map(|cmd| circuit_parents(cmd).filter(|p| p.0 == 40))
        .expect("child circuit should remain in batch");
    assert_eq!(circuit.1, TcHandle::from_u32(0x10020));
    assert_eq!(circuit.2, TcHandle::from_u32(0x20020));
}

#[test]
fn overlay_without_virtualized_sites_keeps_batch() {
    let batch = vec![mk_add_site(10, 0x10001, 0x20001, 0x20), mk_add_circuit(40, "192.0.2.40/32")];
    let overlaid = apply_runtime_virtualization_overlay(batch, &HashMap::new());
    assert_eq!(overlaid.len(), 2);
    assert!(matches!(site_parents(&overlaid[0]), Some((10, _, _))));
    assert!(matches!(circuit_parents(&overlaid[1]), Some((40, _, _))));
}

#[test]
fn structural_baseline_reconstruction_ignores_hidden_runtime_virtualized_sites() {
    let parent_site = mk_add_site(10, 0x10001, 0x20001, 0x20);
    let virtualized_site = mk_add_site(20, 0x10020, 0x20020, 0x21);
    let child_site = mk_add_site(30, 0x10021, 0x20021, 0x22);
    let child_circuit = mk_test_circuit(40, 0x10021, 0x20021, 0x30, 0x110, 0x210, "192.0.2.40/32");
    let child_circuit_runtime =
        mk_test_circuit(40, 0x10020, 0x20020, 0x30, 0x110, 0x210, "192.0.2.40/32");

    let effective_sites =
        HashMap::from([(10, parent_site.duplicate()), (30, runtime_child_site())]);
    let effective_circuits = HashMap::from([(40, child_circuit_runtime.duplicate())]);
    let mut state = mk_state(
        virtualized_site.duplicate(),
        RuntimeVirtualizedActiveBranch::Shadow,
        RuntimeVirtualizedBranchLifecycle::FlattenedActive,
    );
    state.saved_sites = HashMap::from([(30, child_site.duplicate())]);
    state.saved_circuits = HashMap::from([(40, child_circuit.duplicate())]);
    state.active_sites = HashMap::from([(30, runtime_child_site())]);
    state.active_circuits = HashMap::from([(40, child_circuit_runtime)]);
    let virtualized_sites = HashMap::from([(20, state)]);

    let raw_batch = vec![parent_site, virtualized_site, child_site, child_circuit];

    let (baseline_sites, baseline_circuits) =
        reconstruct_structural_baseline_state(&effective_sites, &effective_circuits, &virtualized_sites);

    assert!(matches!(diff_sites(&raw_batch, &effective_sites), SiteDiffResult::RebuildRequired { .. }));
    assert!(matches!(diff_sites(&raw_batch, &baseline_sites), SiteDiffResult::NoChange));
    let restored = circuit_parents(baseline_circuits.get(&40).expect("baseline circuit restored"))
        .expect("circuit");
    assert_eq!(restored.1, TcHandle::from_u32(0x10021));
    assert_eq!(restored.2, TcHandle::from_u32(0x20021));
}

#[test]
fn effective_runtime_state_hides_shadowed_site_and_applies_active_branch() {
    let parent_site = mk_add_site(10, 0x10001, 0x20001, 0x20);
    let virtualized_site = mk_add_site(20, 0x10020, 0x20020, 0x21);
    let child_site = mk_add_site(30, 0x10021, 0x20021, 0x22);
    let sites = HashMap::from([
        (10, parent_site),
        (20, virtualized_site.duplicate()),
        (30, child_site),
    ]);
    let circuits = HashMap::from([(
        40,
        mk_test_circuit(40, 0x10021, 0x20021, 0x30, 0x110, 0x210, "192.0.2.40/32"),
    )]);
    let mut state = mk_state(
        virtualized_site,
        RuntimeVirtualizedActiveBranch::Shadow,
        RuntimeVirtualizedBranchLifecycle::FlattenedActive,
    );
    state.active_sites = HashMap::from([(30, runtime_child_site())]);
    state.active_circuits = HashMap::from([(
        40,
        mk_test_circuit(40, 0x10020, 0x20020, 0x30, 0x110, 0x210, "192.0.2.40/32"),
    )]);
    let virtualized_sites = HashMap::from([(20, state)]);

    let (effective_sites, effective_circuits) =
        build_effective_runtime_state(&sites, &circuits, &virtualized_sites);
    assert_eq!(effective_sites.len(), 2);
    assert!(!effective_sites.contains_key(&20));
    assert_eq!(site_parents(&effective_sites[&30]).unwrap().1, TcHandle::from_u32(0x10020));
    assert_eq!(circuit_parents(&effective_circuits[&40]).unwrap().1, TcHandle::from_u32(0x10020));
}

#[test]
fn runtime_virtualized_site_prune_ready_respects_backoff_and_migrations() {
    let mut state = mk_state(
        mk_add_site(20, 0x10020, 0x20020, 0x21),
        RuntimeVirtualizedActiveBranch::Shadow,
        RuntimeVirtualizedBranchLifecycle::FlattenedActive,
    );
    state.active_circuits = HashMap::from([(40, mk_add_circuit(40, "192.0.2.40/32"))]);
    state.next_prune_attempt_unix = 120;

    let mut migrations = HashMap::new();
    migrations.insert(
        40,
        Migration {
            circuit_hash: 40,
            circuit_name: None,
            site_name: None,
            old_class_major: 0x100,
            old_up_class_major: 0x200,
            old_down_qdisc_handle: None,
            old_up_qdisc_handle: None,
            parent_class_id: TcHandle::from_u32(0x1),
            up_parent_class_id: TcHandle::from_u32(0x2),
            class_major: 0x100,
            up_class_major: 0x200,
            down_qdisc_handle: None,
            up_qdisc_handle: None,
            old_down_min: rate(1.0),
            old_down_max: rate(1.0),
            old_up_min: rate(1.0),
            old_up_max: rate(1.0),
            new_down_min: rate(1.0),
            new_down_max: rate(1.0),
            new_up_min: rate(1.0),
            new_up_max: rate(1.0),
            old_minor: 0x10,
            shadow_minor: 0x31,
            final_minor: 0x10,
            ips: vec!["192.0.2.40/32".to_string()],
            sqm_override: None,
            desired_cmd: mk_add_circuit(40, "192.0.2.40/32"),
            stage: MigrationStage::PrepareShadow,
            shadow_verify_attempts: 0,
            final_verify_attempts: 0,
        },
    );

    assert!(!runtime_virtualized_site_prune_ready(&state, &migrations, 119));
    assert!(!runtime_virtualized_site_prune_ready(&state, &migrations, 120));

    migrations.clear();
    assert!(!runtime_virtualized_site_prune_ready(&state, &migrations, 119));
    assert!(runtime_virtualized_site_prune_ready(&state, &migrations, 120));
}

#[test]
fn ordered_prune_site_hashes_runs_children_before_parents() {
    let parent = mk_add_site(30, 0x10021, 0x20021, 0x22);
    let child = mk_add_site(31, 0x10022, 0x20022, 0x23);
    let ordered = ordered_prune_site_hashes(&HashMap::from([(30, parent), (31, child)]));
    assert_eq!(ordered, vec![31, 30]);
}

#[test]
fn site_prune_commands_delete_qdisc_by_handle_before_class() {
    let config = test_config();
    let mut state = mk_state(
        mk_add_site(20, 0x10020, 0x20020, 0x21),
        RuntimeVirtualizedActiveBranch::Shadow,
        RuntimeVirtualizedBranchLifecycle::FlattenedActive,
    );
    state.qdisc_handles = VirtualizedSiteQdiscHandles { down: Some(0x9000), up: Some(0x9001) };
    let commands = site_prune_commands(&config, &state).expect("site prune commands");

    assert_eq!(commands.len(), 4);
    assert_eq!(commands[0][0], "qdisc");
    assert_eq!(commands[0][1], "del");
    assert_eq!(commands[0][4], "handle");
    assert_eq!(commands[0][5], "0x9000:");
    assert_eq!(commands[1][0], "qdisc");
    assert_eq!(commands[1][1], "del");
    assert_eq!(commands[1][4], "handle");
    assert_eq!(commands[1][5], "0x9001:");
    assert_eq!(commands[2][0], "class");
    assert_eq!(commands[2][1], "del");
    assert_eq!(commands[3][0], "class");
    assert_eq!(commands[3][1], "del");
}

#[test]
fn site_prune_commands_skip_qdisc_delete_without_tracked_handles() {
    let config = test_config();
    let state = mk_state(
        mk_add_site(20, 0x10020, 0x20020, 0x21),
        RuntimeVirtualizedActiveBranch::Shadow,
        RuntimeVirtualizedBranchLifecycle::FlattenedActive,
    );
    let commands = site_prune_commands(&config, &state).expect("site prune commands");
    assert_eq!(commands.len(), 2);
    assert_eq!(commands[0][0], "class");
    assert_eq!(commands[1][0], "class");
}

#[test]
fn observed_circuit_prune_commands_only_delete_existing_old_state() {
    let config = test_config();
    let circuit = mk_test_circuit(9300, 0x10020, 0x20020, 0x21, 0x1, 0x2, "192.0.2.94/32");
    let down_snapshot = snapshot(vec![live_class_entry(0x10021, Some(0x10020), Some(0x9000))]);
    let up_snapshot = HashMap::new();

    let commands = observed_circuit_prune_commands(
        &config,
        &circuit,
        Some(&down_snapshot),
        Some(&up_snapshot),
        &HashSet::new(),
        &HashSet::new(),
    )
    .expect("observed circuit prune commands");

    assert_eq!(commands.len(), 2);
    assert_eq!(commands[0][0], "qdisc");
    assert_eq!(commands[0][3], config.isp_interface());
    assert_eq!(commands[1][0], "class");
    assert_eq!(commands[1][3], config.isp_interface());
}

#[test]
fn observed_circuit_prune_commands_skip_missing_old_classes() {
    let config = test_config();
    let circuit = mk_test_circuit(9301, 0x10020, 0x20020, 0x21, 0x1, 0x2, "192.0.2.95/32");
    let down_snapshot = HashMap::new();
    let up_snapshot = HashMap::new();

    let commands = observed_circuit_prune_commands(
        &config,
        &circuit,
        Some(&down_snapshot),
        Some(&up_snapshot),
        &HashSet::new(),
        &HashSet::new(),
    )
    .expect("observed circuit prune commands");

    assert!(commands.is_empty());
}

#[test]
fn observed_circuit_prune_commands_skip_handles_reserved_by_batch_targets() {
    let config = test_config();
    let circuit = mk_test_circuit(9302, 0x10020, 0x20020, 0x21, 0x1, 0x2, "192.0.2.96/32");
    let down_snapshot = snapshot(vec![live_class_entry(0x10021, Some(0x10020), Some(0x9000))]);
    let up_snapshot = snapshot(vec![live_class_entry(0x20021, Some(0x20020), Some(0x9001))]);
    let protected_down = HashSet::from([0x10021u32]);
    let protected_up = HashSet::from([0x20021u32]);

    let commands = observed_circuit_prune_commands(
        &config,
        &circuit,
        Some(&down_snapshot),
        Some(&up_snapshot),
        &protected_down,
        &protected_up,
    )
    .expect("observed circuit prune commands");

    assert!(commands.is_empty());
}

#[test]
fn sync_runtime_virtualized_site_qdisc_handles_from_live_snapshot_recovers_leaf_handles() {
    let mut state = mk_state(
        mk_add_site(20, 0x10020, 0x20020, 0x21),
        RuntimeVirtualizedActiveBranch::Shadow,
        RuntimeVirtualizedBranchLifecycle::FlattenedActive,
    );
    let down_snapshot = snapshot(vec![live_class_entry(0x10021, Some(0x10020), Some(0x9000))]);
    let up_snapshot = snapshot(vec![live_class_entry(0x20021, Some(0x20020), Some(0x9001))]);

    sync_runtime_virtualized_site_qdisc_handles_from_live_snapshot(&mut state, &down_snapshot, &up_snapshot);

    assert_eq!(state.qdisc_handles.down, Some(0x9000));
    assert_eq!(state.qdisc_handles.up, Some(0x9001));
}

#[test]
fn runtime_virtualized_site_observed_child_gate_blocks_prune() {
    let state = mk_state(
        mk_add_site(20, 0x10020, 0x20020, 0x21),
        RuntimeVirtualizedActiveBranch::Shadow,
        RuntimeVirtualizedBranchLifecycle::FlattenedActive,
    );
    let down_snapshot = snapshot(vec![live_class_entry(0x10022, Some(0x10021), Some(0x9000))]);
    let up_snapshot = snapshot(vec![live_class_entry(0x20022, Some(0x20021), Some(0x9001))]);

    assert!(runtime_virtualized_site_has_remaining_observed_child_classes(
        &state,
        &down_snapshot,
        &up_snapshot
    ));
}

#[test]
fn site_prune_class_commands_for_observed_state_only_emits_existing_directions() {
    let config = test_config();
    let site = mk_add_site(20, 0x10020, 0x20020, 0x21);

    let down_only = site_prune_class_commands_for_observed_state(&config, &site, true, false)
        .expect("down-only commands");
    assert_eq!(down_only.len(), 1);
    assert_eq!(down_only[0][0], "class");
    assert_eq!(down_only[0][3], config.isp_interface());

    let up_only = site_prune_class_commands_for_observed_state(&config, &site, false, true)
        .expect("up-only commands");
    assert_eq!(up_only.len(), 1);
    assert_eq!(up_only[0][0], "class");
    assert_eq!(up_only[0][3], config.internet_interface());

    assert!(site_prune_class_commands_for_observed_state(&config, &site, false, false).is_none());
}

#[test]
fn site_runtime_virtualization_rejects_top_level_sites() {
    let site = mk_add_site(99, 0x10000, 0x20000, 0x21);
    let reason = site_runtime_virtualization_eligibility_error(&site)
        .expect("top-level site should be rejected");
    assert!(reason.contains("top-level"));
}

#[test]
fn site_runtime_virtualization_rejects_queue_root_child_sites_as_top_level() {
    let site = mk_add_site(99, 0x10003, 0x20003, 0x21);
    let reason = site_runtime_virtualization_eligibility_error(&site)
        .expect("queue-root child site should be rejected as top-level");
    assert!(reason.contains("top-level"));
}

#[test]
fn site_runtime_virtualization_accepts_normal_same_queue_site() {
    let site = mk_add_site(77, 0x10020, 0x20020, 0x22);
    assert!(site_runtime_virtualization_eligibility_error(&site).is_none());
}

#[test]
fn nested_runtime_shadow_branch_rejects_non_top_level_virtualization() {
    let site = mk_add_site(77, 0x10003, 0x20003, 0x2001);
    let reason = nested_runtime_shadow_branch_eligibility_error(&site)
        .expect("runtime shadow site should be rejected");
    assert!(reason.message.contains("retained runtime shadow branch"));
    assert_eq!(
        reason.failure_reason,
        Some(RuntimeNodeOperationFailureReason::StructuralIneligibleNestedRuntimeBranch)
    );
}

#[test]
fn site_runtime_virtualization_rejects_non_site_commands() {
    let circuit = mk_add_circuit(77, "192.0.2.77/32");
    let reason = site_runtime_virtualization_eligibility_error(&circuit)
        .expect("non-site commands should be rejected");
    assert!(reason.contains("AddSite command"));
}

#[test]
fn top_level_runtime_virtualization_rejects_single_promotable_child() {
    let target_site = mk_add_site(20, 0x10000, 0x20000, 0x21);
    let only_child = mk_add_site(30, 0x10021, 0x20021, 0x22);
    let sites = HashMap::from([(20, target_site.duplicate()), (30, only_child)]);

    let reason =
        top_level_runtime_virtualization_eligibility_error(20, &target_site, &sites, &HashMap::new())
            .expect("single-child top-level virtualization should be rejected");

    assert!(reason.message.contains("only one promotable direct child"));
    assert_eq!(
        reason.failure_reason,
        Some(RuntimeNodeOperationFailureReason::StructuralIneligibleSinglePromotableChild)
    );
}

#[test]
fn inactive_branch_children_report_unexpected_live_classes() {
    let prune_root = mk_add_site(20, 0x10020, 0x20020, 0x21);
    let mut state = mk_state(
        prune_root.duplicate(),
        RuntimeVirtualizedActiveBranch::Original,
        RuntimeVirtualizedBranchLifecycle::PhysicalActiveCleanupPending,
    );
    state.prune_sites = HashMap::from([(20, prune_root.duplicate())]);
    let (expected_down, expected_up) = remaining_inactive_branch_class_handles(&state);
    assert_eq!(expected_down, HashSet::from([0x10021u32]));
    assert_eq!(expected_up, HashSet::from([0x20021u32]));

    let down_snapshot = snapshot(vec![live_class_entry(0x10022, Some(0x10021), None)]);
    let up_snapshot = snapshot(vec![live_class_entry(0x20022, Some(0x20021), None)]);
    let err = classify_inactive_branch_observed_children(
        &prune_root,
        &down_snapshot,
        &up_snapshot,
        &expected_down,
        &expected_up,
    )
    .expect_err("unexpected children");
    assert_eq!(
        err,
        "Inactive branch cleanup encountered unexpected live child classes still attached: down [0x1:0x22], up [0x2:0x22]"
    );

    let expected_children_down = HashSet::from([0x10022u32]);
    let expected_children_up = HashSet::from([0x20022u32]);
    assert!(classify_inactive_branch_observed_children(
        &prune_root,
        &down_snapshot,
        &up_snapshot,
        &expected_children_down,
        &expected_children_up,
    )
    .is_ok());
    assert!(classify_inactive_branch_observed_children(
        &mk_add_circuit(1, ""),
        &down_snapshot,
        &up_snapshot,
        &HashSet::new(),
        &HashSet::new(),
    )
    .is_ok());
}

#[test]
fn inactive_branch_handles_include_circuits_and_hidden_root() {
    let mut state = mk_state(
        mk_add_site(20, 0x10020, 0x20020, 0x21),
        RuntimeVirtualizedActiveBranch::Shadow,
        RuntimeVirtualizedBranchLifecycle::FlattenedActive,
    );
    state.prune_circuits = HashMap::from([(
        40,
        mk_test_circuit(40, 0x10021, 0x20021, 0x30, 0x110, 0x210, "192.0.2.40/32"),
    )]);
    let (down, up) = remaining_inactive_branch_class_handles(&state);
    assert_eq!(down, HashSet::from([0x1100030u32, 0x10021]));
    assert_eq!(up, HashSet::from([0x2100030u32, 0x20021]));
}

#[test]
fn handle_set_summary_lists_at_most_four() {
    let handles: Vec<TcHandle> = (1..=6).map(|m| TcHandle::from_major_minor(1, m)).collect();
    assert_eq!(summarize_handle_set(&handles), "0x1:0x1, 0x1:0x2, 0x1:0x3, 0x1:0x4");
    assert_eq!(summarize_handle_set(&handles[..1].to_vec()), "0x1:0x1");
    assert_eq!(summarize_handle_set(&Vec::new()), "");
}

#[test]
fn pruned_handles_absent_reports_lingering_classes() {
    let config = test_config();
    let down_snapshot = snapshot(vec![live_class_entry(0x10021, Some(0x10020), None)]);
    let up_snapshot = snapshot(vec![]);
    let down = vec![TcHandle::from_u32(0x10021), TcHandle::from_u32(0x10022)];
    let up = vec![TcHandle::from_u32(0x20021)];
    let err = verify_pruned_handles_absent(&config, &down, &up, "prune site 20", &down_snapshot, &up_snapshot)
        .expect_err("lingering");
    assert_eq!(
        err,
        "prune site 20: targeted old-branch class prune did not take effect: 0x1:0x21 still present on eth1"
    );
    assert!(verify_pruned_handles_absent(&config, &vec![TcHandle::from_u32(0x10022)], &up, "x", &down_snapshot, &up_snapshot)
        .is_ok());
}

#[test]
fn site_commands_observed_live_checks_parents() {
    let sites = HashMap::from([(30, mk_add_site(30, 0x10020, 0x20020, 0x22))]);
    let down = snapshot(vec![live_class_entry(0x10022, Some(0x10020), None)]);
    let up = snapshot(vec![live_class_entry(0x20022, Some(0x20020), None)]);
    assert!(site_commands_observed_live(&sites, &down, &up));
    let wrong_up = snapshot(vec![live_class_entry(0x20022, Some(0x20021), None)]);
    assert!(!site_commands_observed_live(&sites, &down, &wrong_up));
    assert!(!site_commands_observed_live(&sites, &down, &HashMap::new()));
    let circuits = HashMap::from([(1, mk_add_circuit(1, ""))]);
    assert!(!site_commands_observed_live(&circuits, &down, &up));
}

#[test]
fn site_command_summary_and_batch_lookup() {
    let site = mk_add_site(20, 0x10020, 0x20020, 0x21);
    assert_eq!(
        site_command_structure_summary(&site).as_deref(),
        Some("parent=0x1:0x20 up_parent=0x2:0x20 minor=0x21")
    );
    assert!(site_command_structure_summary(&mk_add_circuit(1, "")).is_none());

    let batch = vec![mk_add_circuit(20, ""), mk_add_site(20, 0x10001, 0x20001, 0x5), site];
    let found = find_site_command_in_batch(&batch, 20).expect("site");
    assert!(matches!(site_parents(found), Some((20, p, _)) if p == TcHandle::from_u32(0x10001)));
    assert!(find_site_command_in_batch(&batch, 21).is_none());
}

#[test]
fn virtualized_site_source_and_name_resolution() {
    let state = mk_state(
        mk_add_site(20, 0x10020, 0x20020, 0x21),
        RuntimeVirtualizedActiveBranch::Shadow,
        RuntimeVirtualizedBranchLifecycle::FlattenedActive,
    );
    assert_eq!(
        format_virtualized_site_source(20, &state, "saved_site"),
        "saved_site(owner_site_hash=20, owner_site_name=test-site-20, lifecycle=FlattenedActive, active_branch=Shadow, pending_prune=true)"
    );
    let virtualized = HashMap::from([(20, state)]);
    let names = HashMap::from([(20, "Current Name".to_string())]);
    assert_eq!(resolve_runtime_site_name(20, Some(&names), &virtualized).as_deref(), Some("Current Name"));
    assert_eq!(resolve_runtime_site_name(20, None, &virtualized).as_deref(), Some("test-site-20"));
    assert_eq!(resolve_runtime_site_name(21, Some(&names), &virtualized), None);
}

#[test]
fn inactive_branch_prune_fails_fast_on_unexpected_live_child_classes() {
    let config = test_config();
    let prune_root = mk_add_site(20, 0x10020, 0x20020, 0x21);
    let mut state = mk_state(
        prune_root.duplicate(),
        RuntimeVirtualizedActiveBranch::Original,
        RuntimeVirtualizedBranchLifecycle::PhysicalActiveCleanupPending,
    );
    state.prune_sites = HashMap::from([(20, prune_root)]);
    let down_snapshot = snapshot(vec![live_class_entry(0x10022, Some(0x10021), None)]);
    let up_snapshot = snapshot(vec![live_class_entry(0x20022, Some(0x20021), None)]);

    let result = plan_runtime_virtualized_subtree_prune(&config, &mut state, &down_snapshot, &up_snapshot);

    match result {
        RuntimePruneStep::Finished(RuntimePrunePassResult::Failed(summary)) => {
            assert!(summary.contains("unexpected live child classes"));
        }
        _ => panic!("expected Failed"),
    }
}

#[test]
fn subtree_prune_deletes_circuits_then_sites_then_root() {
    let config = test_config();
    let mut state = mk_state(
        mk_add_site(20, 0x10020, 0x20020, 0x21),
        RuntimeVirtualizedActiveBranch::Shadow,
        RuntimeVirtualizedBranchLifecycle::FlattenedActive,
    );
    state.prune_sites = HashMap::from([(30, mk_add_site(30, 0x10021, 0x20021, 0x22))]);
    state.prune_circuits = HashMap::from([
        (40, mk_test_circuit(40, 0x10022, 0x20022, 0x30, 0x1, 0x2, "192.0.2.40/32")),
        (41, mk_test_circuit(41, 0x10022, 0x20022, 0x31, 0x1, 0x2, "192.0.2.41/32")),
    ]);
    // Circuit 40 is gone already; circuit 41 is live.
    let down = snapshot(vec![
        live_class_entry(0x10021, Some(0x10020), Some(0x9100)),
        live_class_entry(0x10022, Some(0x10021), None),
        live_class_entry(0x10031, Some(0x10022), Some(0x9000)),
    ]);
    let up = snapshot(vec![
        live_class_entry(0x20021, Some(0x20020), Some(0x9101)),
        live_class_entry(0x20022, Some(0x20021), None),
    ]);
    let step = plan_runtime_virtualized_subtree_prune(&config, &mut state, &down, &up);
    let RuntimePruneStep::PruneCircuit { circuit_hash, commands, classes } = &step else {
        panic!("expected circuit prune, got {step:?}");
    };
    assert_eq!(*circuit_hash, 41);
    assert!(!commands.is_empty());
    assert_eq!(*classes, Some((TcHandle::from_u32(0x10031), TcHandle::from_u32(0x20031))));
    assert!(!state.prune_circuits.contains_key(&40));
    let result = finish_runtime_virtualized_subtree_prune(&mut state, step, Ok(()));
    assert!(matches!(result, RuntimePrunePassResult::Progress(_)));
    assert!(state.prune_circuits.is_empty());

    let down = snapshot(vec![
        live_class_entry(0x10021, Some(0x10020), Some(0x9100)),
        live_class_entry(0x10022, Some(0x10021), None),
    ]);
    let up = snapshot(vec![
        live_class_entry(0x20021, Some(0x20020), Some(0x9101)),
        live_class_entry(0x20022, Some(0x20021), None),
    ]);
    let step = plan_runtime_virtualized_subtree_prune(&config, &mut state, &down, &up);
    let RuntimePruneStep::PruneSite { site_hash, commands, .. } = &step else {
        panic!("expected site prune, got {step:?}");
    };
    assert_eq!(*site_hash, 30);
    assert_eq!(commands.len(), 2);
    assert_eq!(commands[0][3], "eth1");
    assert_eq!(commands[1][3], "eth0");
    let result = finish_runtime_virtualized_subtree_prune(&mut state, step, Ok(()));
    assert!(matches!(result, RuntimePrunePassResult::Progress(_)));
    assert!(state.prune_sites.is_empty());

    let root_down = snapshot(vec![live_class_entry(0x10021, Some(0x10020), Some(0x9100))]);
    let step = plan_runtime_virtualized_subtree_prune(&config, &mut state, &root_down, &HashMap::new());
    let RuntimePruneStep::PruneRoot { qdisc_commands, class_commands, classes } = &step else {
        panic!("expected root prune, got {step:?}");
    };
    assert_eq!(state.qdisc_handles.down, Some(0x9100));
    assert_eq!(qdisc_commands.as_ref().map(|c| c.len()), Some(1));
    assert_eq!(class_commands.as_ref().map(|c| c.len()), Some(1));
    assert_eq!(*classes, Some((TcHandle::from_u32(0x10021), TcHandle::from_u32(0x20021))));
    let result = finish_runtime_virtualized_subtree_prune(&mut state, step, Err("still there".to_string()));
    assert!(matches!(result, RuntimePrunePassResult::Failed(m) if m == "still there"));
}

#[test]
fn subtree_prune_completes_when_nothing_is_left() {
    let config = test_config();
    let mut state = mk_state(
        mk_add_site(20, 0x10020, 0x20020, 0x21),
        RuntimeVirtualizedActiveBranch::Original,
        RuntimeVirtualizedBranchLifecycle::PhysicalActiveCleanupPending,
    );
    state.prune_circuits = HashMap::from([(
        40,
        mk_test_circuit(40, 0x10022, 0x20022, 0x30, 0x1, 0x2, "192.0.2.40/32"),
    )]);
    let step = plan_runtime_virtualized_subtree_prune(&config, &mut state, &HashMap::new(), &HashMap::new());
    assert!(matches!(step, RuntimePruneStep::Finished(RuntimePrunePassResult::Completed)));
    assert!(state.prune_circuits.is_empty());
}
