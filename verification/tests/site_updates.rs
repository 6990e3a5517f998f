use lqos_bakery::commands::BakeryCommands;
use lqos_bakery::config::BakeryConfig;
use lqos_bakery::live_tc::{reserve_live_snapshot_minors, retained_root_child_prune_commands, LiveTcClassEntry};
use lqos_bakery::live_verify::verify_site_updates_against_snapshots;
use lqos_bakery::migration::PlannedSiteUpdate;
use lqos_bakery::tc_handle::TcHandle;
use std::collections::{HashMap, HashSet};

fn config() -> BakeryConfig {
    BakeryConfig {
        isp_interface: "eth1".to_string(),
        internet_interface: "eth0".to_string(),
        on_a_stick: false,
        observe_mode: false,
        lazy_queues: None,
        monitor_only: false,
    }
}

fn planned_site(site_hash: i64, parent: u32, up_parent: u32, class_minor: u16) -> PlannedSiteUpdate {
    PlannedSiteUpdate {
        queue: 1,
        parent_site: None,
        stage_depth: 0,
        command: BakeryCommands::AddSite {
            site_hash,
            parent_class_id: TcHandle::from_u32(parent),
            up_parent_class_id: TcHandle::from_u32(up_parent),
            class_minor,
            download_bandwidth_min: 10f32.to_bits(),
            upload_bandwidth_min: 10f32.to_bits(),
            download_bandwidth_max: 100f32.to_bits(),
            upload_bandwidth_max: 100f32.to_bits(),
        },
    }
}

fn entry(class_id: u32, parent: Option<u32>) -> (u32, LiveTcClassEntry) {
    (
        class_id,
        LiveTcClassEntry { class_id: TcHandle::from_u32(class_id), parent: parent.map(TcHandle::from_u32), leaf_qdisc_major: None },
    )
}

#[test]
fn planned_sites_live_under_their_parents_pass() {
    let updates = HashMap::from([(5, planned_site(5, 0x10001, 0x20001, 0x30))]);
    let down = HashMap::from([entry(0x10030, Some(0x10001))]);
    let up = HashMap::from([entry(0x20030, Some(0x20001))]);
    assert_eq!(verify_site_updates_against_snapshots(&config(), &updates, &down, &up), Ok(()));
}

#[test]
fn planned_site_missing_on_uplink_is_reported() {
    let updates = HashMap::from([(5, planned_site(5, 0x10001, 0x20001, 0x30))]);
    let down = HashMap::from([entry(0x10030, Some(0x10001))]);
    assert_eq!(
        verify_site_updates_against_snapshots(&config(), &updates, &down, &HashMap::new()),
        Err("Runtime child site 5 was not observed on eth0 after shadow create".to_string())
    );
}

#[test]
fn planned_site_under_the_wrong_parent_is_reported() {
    let updates = HashMap::from([(5, planned_site(5, 0x10001, 0x20001, 0x3a))]);
    let down = HashMap::from([entry(0x1003a, Some(0x10002))]);
    let up = HashMap::from([entry(0x2003a, None)]);
    assert_eq!(
        verify_site_updates_against_snapshots(&config(), &updates, &down, &up),
        Err("Runtime child site 5 shadow verify failed: expected parents 0x1:0x1/0x2:0x1 for class minor 0x3a, observed parents Some(TcHandle(65538))/None".to_string())
    );
}

#[test]
fn live_snapshot_minors_are_reserved_per_major() {
    let snapshot = HashMap::from([entry(0x10030, Some(0x10001)), entry(0x10031, None), entry(0x20000, None), entry(0x5, None)]);
    let mut reservations: HashMap<u32, HashSet<u32>> = HashMap::from([(1, HashSet::from([7]))]);
    reserve_live_snapshot_minors(&mut reservations, &snapshot);
    assert_eq!(reservations.len(), 1);
    assert_eq!(reservations[&1], HashSet::from([7, 0x30, 0x31]));
}

fn qdisc(kind: &str, handle: Option<u32>, parent: Option<u32>, is_root: bool) -> lqos_bakery::live_tc::LiveTcQdiscEntry {
    lqos_bakery::live_tc::LiveTcQdiscEntry {
        kind: kind.to_string(),
        handle: handle.map(TcHandle::from_u32),
        parent: parent.map(TcHandle::from_u32),
        is_root,
    }
}

#[test]
fn retained_root_children_are_pruned_by_parent() {
    let snapshot = vec![
        qdisc("mq", Some(0x7fff0000), None, true),
        qdisc("htb", Some(0x10000), Some(0x7fff0001), false),
        qdisc("htb", Some(0x20000), Some(0x7fff0002), false),
    ];
    let commands = retained_root_child_prune_commands(&"eth1".to_string(), &snapshot).expect("retained root");
    let mut text: Vec<String> = commands.iter().map(|c| c.join(" ")).collect();
    text.sort();
    assert_eq!(text, vec!["qdisc del dev eth1 parent 0x7fff:0x1", "qdisc del dev eth1 parent 0x7fff:0x2"]);
}

#[test]
fn interface_without_retained_root_has_nothing_to_prune() {
    let snapshot = vec![qdisc("noqueue", Some(0), None, true)];
    assert!(retained_root_child_prune_commands(&"eth1".to_string(), &snapshot).is_none());
}
