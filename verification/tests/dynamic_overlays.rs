use lqos_bakery::commands::BakeryCommands;
use lqos_bakery::dynamic_overlay::{
    append_dynamic_circuit_overlays_to_batch, choose_overlay_minor, ip_list_from_shaped_device,
    is_blank, normalize_circuit_id_key, plan_dynamic_circuit_upsert, recompute_shaped_hashes,
    runtime_hash_to_i64, DynamicCircuitOverlayEntry, DynamicShapedDevice, DynamicUpsertPlan,
};
use lqos_bakery::mapped_limit::ResolvedMappedLimit;
use lqos_bakery::migration::Migration;
use std::collections::{HashMap, HashSet};

fn device(circuit_id: &str, device_id: &str, parent: &str) -> DynamicShapedDevice {
    DynamicShapedDevice {
        circuit_id: circuit_id.to_string(),
        circuit_name: "Circuit".to_string(),
        device_id: device_id.to_string(),
        parent_node: parent.to_string(),
        circuit_hash: 0,
        device_hash: 0,
        parent_hash: 0,
        ipv4: vec![("10.0.0.2".to_string(), 32), ("10.0.0.1".to_string(), 32)],
        ipv6: vec![("10.0.0.1".to_string(), 32)],
        download_min_mbps: 0,
        upload_min_mbps: 0,
        download_max_mbps: 0,
        upload_max_mbps: 0,
        sqm_override: None,
    }
}

fn unlimited() -> ResolvedMappedLimit {
    ResolvedMappedLimit {
        licensed: true,
        max_circuits: None,
        effective_limit: None,
    }
}

#[test]
fn circuit_id_keys_are_trimmed_and_lower_cased() {
    assert_eq!(normalize_circuit_id_key("  Circuit-ABC \t"), "circuit-abc");
    assert_eq!(normalize_circuit_id_key(""), "");
}

#[test]
fn blank_names_are_only_whitespace() {
    assert!(is_blank(""));
    assert!(is_blank("  \t "));
    assert!(!is_blank(" a "));
}

#[test]
fn runtime_hash_is_stable_and_tells_names_apart() {
    assert_eq!(runtime_hash_to_i64("site-a"), runtime_hash_to_i64("site-a"));
    assert_ne!(runtime_hash_to_i64("site-a"), runtime_hash_to_i64("site-b"));
}

#[test]
fn recomputed_hashes_follow_the_names() {
    let mut d = device("c1", "d1", "site");
    recompute_shaped_hashes(&mut d);
    assert_eq!(d.circuit_hash, runtime_hash_to_i64("c1"));
    assert_eq!(d.device_hash, runtime_hash_to_i64("d1"));
    assert_eq!(d.parent_hash, runtime_hash_to_i64("site"));
}

#[test]
fn ip_list_is_sorted_and_deduplicated() {
    let d = device("c1", "d1", "site");
    assert_eq!(ip_list_from_shaped_device(&d), "10.0.0.1/32,10.0.0.2/32");
}

#[test]
fn overlay_minor_keeps_a_free_desired_minor() {
    let down: HashSet<u16> = HashSet::new();
    let up: HashSet<u16> = HashSet::new();
    assert_eq!(choose_overlay_minor(Some(0x2000), &down, &up), Some(0x2000));
}

#[test]
fn overlay_minor_takes_the_lowest_free_one_otherwise() {
    let down: HashSet<u16> = [0x1000u16, 0x2000].into_iter().collect();
    let up: HashSet<u16> = [0x1001u16].into_iter().collect();
    assert_eq!(choose_overlay_minor(Some(0x2000), &down, &up), Some(0x1002));
    assert_eq!(choose_overlay_minor(Some(0x10), &down, &up), Some(0x1002));
    assert_eq!(choose_overlay_minor(None, &down, &up), Some(0x1002));
}

#[test]
fn upsert_refuses_missing_names() {
    let sites: HashMap<i64, BakeryCommands> = HashMap::new();
    let circuits: HashMap<i64, BakeryCommands> = HashMap::new();
    let migrations: HashMap<i64, Migration> = HashMap::new();
    let cases = [
        (device(" ", "d1", "site"), "dynamic circuit requires circuit_id"),
        (device("c1", "", "site"), "dynamic circuit requires device_id"),
        (device("c1", "d1", "\t"), "dynamic circuit requires parent_node"),
    ];
    for (d, expected) in cases {
        let mut overlays: HashMap<i64, DynamicCircuitOverlayEntry> = HashMap::new();
        let r = plan_dynamic_circuit_upsert(
            d,
            &mut overlays,
            false,
            &sites,
            &circuits,
            &migrations,
            &unlimited(),
        );
        assert_eq!(r.unwrap_err(), expected);
        assert!(overlays.is_empty());
    }
}

#[test]
fn deferred_upsert_only_records_the_overlay() {
    let sites: HashMap<i64, BakeryCommands> = HashMap::new();
    let circuits: HashMap<i64, BakeryCommands> = HashMap::new();
    let migrations: HashMap<i64, Migration> = HashMap::new();
    let mut overlays: HashMap<i64, DynamicCircuitOverlayEntry> = HashMap::new();
    let r = plan_dynamic_circuit_upsert(
        device("c1", "d1", "site"),
        &mut overlays,
        true,
        &sites,
        &circuits,
        &migrations,
        &unlimited(),
    );
    assert!(matches!(r, Ok(DynamicUpsertPlan::Recorded)));
    let h = runtime_hash_to_i64("c1");
    let entry = overlays.get(&h).expect("overlay recorded");
    assert_eq!(entry.shaped_device.parent_hash, runtime_hash_to_i64("site"));
    assert_eq!(entry.class_minor, None);
}

#[test]
fn upsert_with_unknown_parent_is_refused_but_recorded() {
    let sites: HashMap<i64, BakeryCommands> = HashMap::new();
    let circuits: HashMap<i64, BakeryCommands> = HashMap::new();
    let migrations: HashMap<i64, Migration> = HashMap::new();
    let mut overlays: HashMap<i64, DynamicCircuitOverlayEntry> = HashMap::new();
    let r = plan_dynamic_circuit_upsert(
        device("c1", "d1", "site"),
        &mut overlays,
        false,
        &sites,
        &circuits,
        &migrations,
        &unlimited(),
    );
    assert_eq!(
        r.unwrap_err(),
        "parent node 'site' is not present in current bakery site state"
    );
    assert_eq!(overlays.len(), 1);
}

#[test]
fn overlays_without_a_planned_parent_leave_the_batch_alone() {
    let mut batch: Vec<BakeryCommands> = Vec::new();
    let mut overlays: HashMap<i64, DynamicCircuitOverlayEntry> = HashMap::new();
    let mut d = device("c1", "d1", "site");
    recompute_shaped_hashes(&mut d);
    let h = d.circuit_hash;
    overlays.insert(
        h,
        DynamicCircuitOverlayEntry {
            shaped_device: d,
            class_minor: None,
        },
    );
    let migrations: HashMap<i64, Migration> = HashMap::new();
    append_dynamic_circuit_overlays_to_batch(&mut batch, &mut overlays, &migrations);
    assert!(batch.is_empty());
    assert_eq!(overlays.len(), 1);
    assert_eq!(overlays[&h].class_minor, None);
}
