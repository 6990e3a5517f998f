use lqos_bakery::acyclic::prune_sites_are_acyclic;
use lqos_bakery::hierarchy::site_subtree_hashes;
use lqos_bakery::circuit_add::{CircuitRateStrings, SiteRateStrings, TcRateStrings};
use lqos_bakery::commands::{BakeryCommands, ExecutionMode};
use lqos_bakery::commit_plan::{
    batch_step, plan_commit_batch, remove_committed_circuit, speed_fallback_commands, BatchAction, CommitPlan,
};
use lqos_bakery::telemetry::BakeryTelemetryState;
use std::collections::HashMap;
use lqos_bakery::config::{BakeryConfig, LazyQueueMode};
use lqos_bakery::mq_setup::{mq_setup, MqDirectionRates};
use lqos_bakery::qdisc_budget::QdiscBudgetEstimate;
use lqos_bakery::tc_handle::TcHandle;

fn config(on_a_stick: bool, lazy: Option<LazyQueueMode>, monitor_only: bool) -> BakeryConfig {
    BakeryConfig {
        isp_interface: "eth1".to_string(),
        internet_interface: "eth0".to_string(),
        on_a_stick,
        observe_mode: false,
        lazy_queues: lazy,
        monitor_only,
    }
}

fn strs(v: &[&str]) -> Vec<String> {
    v.iter().map(|s| s.to_string()).collect()
}

fn rates(rate: &str) -> MqDirectionRates {
    MqDirectionRates {
        rate: rate.to_string(),
        default_rate: "24mbit".to_string(),
        default_ceil: "99mbit".to_string(),
        quantum: "1514".to_string(),
    }
}

#[test]
fn mq_setup_builds_both_interfaces() {
    let sqm = strs(&["cake", "diffserv4"]);
    let cmds = mq_setup(&config(false, None, false), 1, 16, &sqm, &rates("100mbit"), &rates("50mbit")).expect("commands");
    assert_eq!(cmds.len(), 2 + 1 + 5 + 1 + 5);
    assert_eq!(cmds[0], strs(&["qdisc", "del", "dev", "eth1", "root"]));
    assert_eq!(cmds[1], strs(&["qdisc", "del", "dev", "eth0", "root"]));
    assert_eq!(cmds[2], strs(&["qdisc", "replace", "dev", "eth1", "root", "handle", "7FFF:", "mq"]));
    assert_eq!(
        cmds[3],
        strs(&["qdisc", "add", "dev", "eth1", "parent", "7FFF:0x1", "handle", "0x1:", "htb", "default", "2"])
    );
    assert_eq!(
        cmds[4],
        strs(&[
            "class", "add", "dev", "eth1", "parent", "0x1:", "classid", "0x1:1", "htb", "rate", "100mbit", "ceil",
            "100mbit", "quantum", "1514",
        ])
    );
    assert_eq!(cmds[5], strs(&["qdisc", "add", "dev", "eth1", "parent", "0x1:1", "cake", "diffserv4"]));
    assert_eq!(
        cmds[6],
        strs(&[
            "class", "add", "dev", "eth1", "parent", "0x1:1", "classid", "0x1:2", "htb", "rate", "24mbit", "ceil",
            "99mbit", "prio", "5", "quantum", "1514",
        ])
    );
    assert_eq!(cmds[8], strs(&["qdisc", "replace", "dev", "eth0", "root", "handle", "7FFF:", "mq"]));
    assert_eq!(
        cmds[9],
        strs(&["qdisc", "add", "dev", "eth0", "parent", "7FFF:0x11", "handle", "0x11:", "htb", "default", "2"])
    );
    assert_eq!(cmds[10][10], "50mbit");
}

#[test]
fn mq_setup_on_a_stick_keeps_one_root() {
    let sqm = strs(&["cake"]);
    let cmds = mq_setup(&config(true, None, false), 2, 2, &sqm, &rates("100mbit"), &rates("100mbit")).expect("commands");
    assert_eq!(cmds.len(), 1 + 1 + 10 + 10);
    assert_eq!(cmds[0], strs(&["qdisc", "del", "dev", "eth1", "root"]));
    assert_eq!(cmds[1], strs(&["qdisc", "replace", "dev", "eth1", "root", "handle", "7FFF:", "mq"]));
    assert_eq!(cmds[12][5], "7FFF:0x3");
    assert_eq!(cmds[17][5], "7FFF:0x4");
}

fn circuit(sqm_override: Option<&str>) -> BakeryCommands {
    BakeryCommands::AddCircuit {
        circuit_hash: 7,
        circuit_name: None,
        site_name: None,
        parent_class_id: TcHandle::from_u32(0x10002),
        up_parent_class_id: TcHandle::from_u32(0x20002),
        class_minor: 0x10,
        download_bandwidth_min: 10.0f32.to_bits(),
        upload_bandwidth_min: 10.0f32.to_bits(),
        download_bandwidth_max: 100.0f32.to_bits(),
        upload_bandwidth_max: 100.0f32.to_bits(),
        class_major: 1,
        up_class_major: 2,
        down_qdisc_handle: None,
        up_qdisc_handle: None,
        ip_addresses: "192.0.2.1".to_string(),
        sqm_override: sqm_override.map(str::to_string),
    }
}

fn circuit_rates() -> CircuitRateStrings {
    CircuitRateStrings {
        down_min: "10mbit".to_string(),
        down_max: "100mbit".to_string(),
        down_quantum: "1514".to_string(),
        up_min: "10mbit".to_string(),
        up_max: "100mbit".to_string(),
        up_quantum: "1514".to_string(),
        down_sqm: strs(&["cake"]),
        up_sqm: strs(&["fq_codel"]),
    }
}

#[test]
fn builder_adds_classes_and_sqm_in_both_directions() {
    let cmds = circuit(None).add_circuit(ExecutionMode::Builder, &config(false, None, false), &circuit_rates()).expect("circuit");
    assert_eq!(cmds.len(), 4);
    assert_eq!(
        cmds[0],
        strs(&[
            "class", "replace", "dev", "eth1", "parent", "0x1:0x2", "classid", "0x1:0x10", "htb", "rate", "10mbit",
            "ceil", "100mbit", "prio", "3", "quantum", "1514",
        ])
    );
    assert_eq!(cmds[1], strs(&["qdisc", "replace", "dev", "eth1", "parent", "0x1:0x10", "cake"]));
    assert_eq!(cmds[2][3], "eth0");
    assert_eq!(cmds[2][7], "0x2:0x10");
    assert_eq!(cmds[3], strs(&["qdisc", "replace", "dev", "eth0", "parent", "0x2:0x10", "fq_codel"]));
}

#[test]
fn live_updates_follow_the_lazy_queue_mode() {
    let r = circuit_rates();
    let none = circuit(None).add_circuit(ExecutionMode::LiveUpdate, &config(false, None, false), &r).expect("circuit");
    assert!(none.is_empty());
    let htb = circuit(None)
        .add_circuit(ExecutionMode::LiveUpdate, &config(false, Some(LazyQueueMode::Htb), false), &r)
        .expect("circuit");
    assert_eq!(htb.len(), 2);
    assert_eq!(htb[0][0], "qdisc");
    let full = circuit(None)
        .add_circuit(ExecutionMode::LiveUpdate, &config(false, Some(LazyQueueMode::Full), false), &r)
        .expect("circuit");
    assert_eq!(full.len(), 4);
}

#[test]
fn sqm_is_skipped_for_monitor_only_none_overrides_and_the_stick_uplink() {
    let r = circuit_rates();
    let monitor = circuit(None).add_circuit(ExecutionMode::Builder, &config(false, None, true), &r).expect("circuit");
    assert_eq!(monitor.len(), 2);
    assert!(monitor.iter().all(|c| c[0] == "class"));
    let none_down = circuit(Some("None/cake")).add_circuit(ExecutionMode::Builder, &config(false, None, false), &r).expect("circuit");
    assert_eq!(none_down.len(), 3);
    assert_eq!(none_down[2][0], "qdisc");
    assert_eq!(none_down[2][3], "eth0");
    let stick = circuit(None).add_circuit(ExecutionMode::Builder, &config(true, None, false), &r).expect("circuit");
    assert_eq!(stick.len(), 3);
}

#[test]
fn add_circuit_is_none_for_other_commands() {
    assert!(BakeryCommands::Tick.add_circuit(ExecutionMode::Builder, &config(false, None, false), &circuit_rates()).is_none());
}

#[test]
fn budget_ok_follows_the_interface_counts_alone() {
    let estimate = QdiscBudgetEstimate {
        interfaces: vec![("eth0".to_string(), 10), ("eth1".to_string(), 20)],
        interface_details: Vec::new(),
        safe_budget: 20,
        hard_limit: 65534,
        estimated_total_memory_bytes: 0,
        memory_snapshot: None,
        memory_ok: false,
    };
    assert!(estimate.ok());
    let over = QdiscBudgetEstimate { safe_budget: 19, ..estimate };
    assert!(!over.ok());
}

fn site(hash: i64, minor: u16, max: f32) -> BakeryCommands {
    BakeryCommands::AddSite {
        site_hash: hash,
        parent_class_id: TcHandle::from_u32(0x10001),
        up_parent_class_id: TcHandle::from_u32(0x20001),
        class_minor: minor,
        download_bandwidth_min: 1.0f32.to_bits(),
        upload_bandwidth_min: 1.0f32.to_bits(),
        download_bandwidth_max: max.to_bits(),
        upload_bandwidth_max: max.to_bits(),
    }
}

fn plan(
    batch: Vec<BakeryCommands>,
    sites: &HashMap<i64, BakeryCommands>,
    telemetry: &BakeryTelemetryState,
    mq_created: bool,
    tree_active: bool,
) -> CommitPlan {
    plan_commit_batch(batch, sites, &HashMap::new(), &HashMap::new(), &HashMap::new(), telemetry, mq_created, tree_active, true, None)
}

fn reload_summary(p: &CommitPlan) -> Option<&str> {
    match p {
        CommitPlan::FullReload { summary, .. } => Some(summary.as_str()),
        _ => None,
    }
}

#[test]
fn commit_with_a_pending_reload_reloads_fully() {
    let sites = HashMap::from([(1, site(1, 3, 100.0))]);
    let mut telemetry = BakeryTelemetryState::new();
    telemetry.reload_required = true;
    telemetry.reload_required_reason = Some("qdisc drift".to_string());
    let p = plan(vec![site(1, 3, 100.0)], &sites, &telemetry, true, true);
    assert_eq!(reload_summary(&p), Some("Bakery full reload triggered by reload-required state: qdisc drift"));
    match p {
        CommitPlan::FullReload { batch, stats, .. } => {
            assert_eq!(batch.len(), 1);
            assert_eq!(stats.dropped_mapped, 0);
        }
        _ => unreachable!(),
    }
}

#[test]
fn commit_after_a_cold_start_or_a_queue_mode_change_reloads_fully() {
    let sites = HashMap::from([(1, site(1, 3, 100.0))]);
    let telemetry = BakeryTelemetryState::new();
    let p = plan(vec![site(1, 3, 100.0)], &sites, &telemetry, false, true);
    assert_eq!(
        reload_summary(&p),
        Some("Bakery full reload triggered by baseline rebuild after restart/cold start.")
    );
    let p = plan(vec![site(1, 3, 100.0)], &sites, &telemetry, true, false);
    assert_eq!(reload_summary(&p), Some("Bakery full reload triggered by queue mode transition to shape."));
}

#[test]
fn commit_of_the_live_tree_changes_nothing() {
    let sites = HashMap::from([(1, site(1, 3, 100.0))]);
    let telemetry = BakeryTelemetryState::new();
    assert!(matches!(plan(vec![site(1, 3, 100.0)], &sites, &telemetry, true, true), CommitPlan::NoChange));
}

#[test]
fn commit_of_new_site_rates_is_applied_live() {
    let sites = HashMap::from([(1, site(1, 3, 100.0))]);
    let telemetry = BakeryTelemetryState::new();
    match plan(vec![site(1, 3, 200.0)], &sites, &telemetry, true, true) {
        CommitPlan::Incremental { effective_batch, site_speed_changes } => {
            assert_eq!(effective_batch.len(), 1);
            assert_eq!(site_speed_changes.len(), 1);
        }
        other => panic!("unexpected plan: {other:?}"),
    }
}

#[test]
fn commit_that_moves_a_site_rebuilds_the_tree() {
    let sites = HashMap::from([(1, site(1, 3, 100.0))]);
    let telemetry = BakeryTelemetryState::new();
    let p = plan(vec![site(1, 4, 100.0)], &sites, &telemetry, true, true);
    assert!(reload_summary(&p).is_some());
}

#[test]
fn tree_commands_travel_only_inside_a_batch() {
    let mut batch: Option<Vec<BakeryCommands>> = None;
    assert!(matches!(batch_step(&mut batch, site(1, 3, 100.0)), BatchAction::Dropped));
    assert!(batch.is_none());
    assert!(matches!(batch_step(&mut batch, BakeryCommands::StartBatch), BatchAction::Opened));
    assert!(matches!(batch_step(&mut batch, site(1, 3, 100.0)), BatchAction::Queued));
    assert!(matches!(batch_step(&mut batch, BakeryCommands::Tick), BatchAction::Other(BakeryCommands::Tick)));
    match batch_step(&mut batch, BakeryCommands::CommitBatch) {
        BatchAction::Commit(Some(committed)) => assert_eq!(committed.len(), 1),
        other => panic!("unexpected action: {other:?}"),
    }
    assert!(batch.is_none());
    assert!(matches!(batch_step(&mut batch, BakeryCommands::CommitBatch), BatchAction::Commit(None)));
}

fn tree_site(hash: i64, parent: (u32, u32), minor: u16) -> BakeryCommands {
    BakeryCommands::AddSite {
        site_hash: hash,
        parent_class_id: TcHandle::from_u32(parent.0),
        up_parent_class_id: TcHandle::from_u32(parent.1),
        class_minor: minor,
        download_bandwidth_min: 1.0f32.to_bits(),
        upload_bandwidth_min: 1.0f32.to_bits(),
        download_bandwidth_max: 10.0f32.to_bits(),
        upload_bandwidth_max: 10.0f32.to_bits(),
    }
}

#[test]
fn prune_sites_in_a_tree_are_acyclic() {
    // 1 sits under the root 0x1:0x1; 2 sits under 1 (0x1:0x10 / 0x2:0x10).
    let sites = HashMap::from([
        (1, tree_site(1, (0x10001, 0x20001), 0x10)),
        (2, tree_site(2, (0x10010, 0x20010), 0x11)),
    ]);
    assert!(prune_sites_are_acyclic(&sites));
    assert!(prune_sites_are_acyclic(&HashMap::new()));
}

#[test]
fn prune_sites_that_parent_each_other_are_refused() {
    // 1 sits under 2's classes and 2 under 1's.
    let sites = HashMap::from([
        (1, tree_site(1, (0x10011, 0x20011), 0x10)),
        (2, tree_site(2, (0x10010, 0x20010), 0x11)),
    ]);
    assert!(!prune_sites_are_acyclic(&sites));
}

#[test]
fn removing_a_circuit_prunes_what_was_built() {
    let mut circuits = HashMap::from([(7, circuit(None))]);
    let mut live: HashMap<i64, u64> = HashMap::new();
    let eager = remove_committed_circuit(7, &mut circuits, &mut live, &config(false, None, false)).expect("prune");
    assert!(circuits.is_empty());
    assert_eq!(eager.len(), 4);
    let mut circuits = HashMap::from([(7, circuit(None))]);
    let lazy = remove_committed_circuit(7, &mut circuits, &mut live, &config(false, Some(LazyQueueMode::Full), false));
    assert!(lazy.is_none());
    let mut circuits = HashMap::from([(7, circuit(None))]);
    let mut live = HashMap::from([(7, 1u64)]);
    let activated =
        remove_committed_circuit(7, &mut circuits, &mut live, &config(false, Some(LazyQueueMode::Htb), false)).expect("prune");
    assert_eq!(activated.len(), 2);
    assert!(activated.iter().all(|c| c[0] == "qdisc"));
    assert!(live.is_empty());
    assert!(remove_committed_circuit(9, &mut circuits, &mut live, &config(false, None, false)).is_none());
}

#[test]
fn speed_fallback_rebuilds_the_circuit() {
    let r = circuit_rates();
    let eager = speed_fallback_commands(&circuit(None), &config(false, None, false), false, &r);
    assert_eq!(eager.len(), 8);
    assert_eq!(eager[0][1], "del");
    assert_eq!(eager[4][1], "replace");
    let lazy_idle = speed_fallback_commands(&circuit(None), &config(false, Some(LazyQueueMode::Full), false), false, &r);
    assert!(lazy_idle.is_empty());
    let htb_idle = speed_fallback_commands(&circuit(None), &config(false, Some(LazyQueueMode::Htb), false), false, &r);
    assert_eq!(htb_idle.len(), 4);
}

#[test]
fn site_subtree_lists_the_site_then_its_descendants() {
    let sites = HashMap::from([
        (1, tree_site(1, (0x10001, 0x20001), 0x10)),
        (2, tree_site(2, (0x10010, 0x20010), 0x11)),
        (3, tree_site(3, (0x10010, 0x20010), 0x12)),
        (4, tree_site(4, (0x10011, 0x20011), 0x13)),
        (5, tree_site(5, (0x10001, 0x20001), 0x14)),
    ]);
    assert_eq!(site_subtree_hashes(1, &sites), vec![1, 2, 4, 3]);
    assert_eq!(site_subtree_hashes(5, &sites), vec![5]);
}

fn all_rates() -> TcRateStrings {
    TcRateStrings {
        mq_sqm: strs(&["cake"]),
        mq_down: rates("100mbit"),
        mq_up: rates("50mbit"),
        site: SiteRateStrings {
            down_min: "1mbit".to_string(),
            down_max: "10mbit".to_string(),
            down_quantum: "1514".to_string(),
            up_min: "2mbit".to_string(),
            up_max: "20mbit".to_string(),
            up_quantum: "1600".to_string(),
        },
        circuit: circuit_rates(),
    }
}

#[test]
fn site_commands_replace_both_classes() {
    let cmds = tree_site(1, (0x10001, 0x20001), 0x10)
        .to_commands(&config(false, None, false), ExecutionMode::Builder, &all_rates())
        .expect("site commands");
    assert_eq!(
        cmds,
        vec![
            strs(&[
                "class", "replace", "dev", "eth1", "parent", "0x1:0x1", "classid", "0x1:0x10", "htb", "rate", "1mbit",
                "ceil", "10mbit", "prio", "3", "quantum", "1514",
            ]),
            strs(&[
                "class", "replace", "dev", "eth0", "parent", "0x2:0x1", "classid", "0x2:0x10", "htb", "rate", "2mbit",
                "ceil", "20mbit", "prio", "3", "quantum", "1600",
            ]),
        ]
    );
}

#[test]
fn to_commands_is_none_when_nothing_is_to_run() {
    let rates = all_rates();
    let cfg = config(false, None, false);
    assert!(circuit(None).to_commands(&cfg, ExecutionMode::LiveUpdate, &rates).is_none());
    assert!(BakeryCommands::Tick.to_commands(&cfg, ExecutionMode::Builder, &rates).is_none());
    assert!(BakeryCommands::StartBatch.to_commands(&cfg, ExecutionMode::Builder, &rates).is_none());
    assert_eq!(circuit(None).to_commands(&cfg, ExecutionMode::Builder, &rates).expect("circuit").len(), 4);
    let mq = BakeryCommands::MqSetup { queues_available: 1, stick_offset: 1 };
    assert_eq!(mq.to_commands(&cfg, ExecutionMode::Builder, &rates).expect("mq").len(), 14);
}
