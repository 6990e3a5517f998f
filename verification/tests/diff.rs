use lqos_bakery::commands::BakeryCommands;
use lqos_bakery::diff::circuits::{diff_circuits, CircuitDiffResult};
use lqos_bakery::diff::sites::{diff_sites, SiteDiffResult, StructuralSiteDiffDetails};
use lqos_bakery::tc_handle::TcHandle;
use std::collections::HashMap;

#[allow(clippy::too_many_arguments)]
fn add_circuit(
    circuit_hash: i64,
    parent_class_id: u32,
    up_parent_class_id: u32,
    class_minor: u16,
    class_major: u16,
    up_class_major: u16,
    dl_min: f32,
    ul_min: f32,
    dl_max: f32,
    ul_max: f32,
) -> BakeryCommands {
    BakeryCommands::AddCircuit {
        circuit_hash,
        circuit_name: None,
        site_name: None,
        parent_class_id: TcHandle::from_u32(parent_class_id),
        up_parent_class_id: TcHandle::from_u32(up_parent_class_id),
        class_minor,
        download_bandwidth_min: dl_min.to_bits(),
        upload_bandwidth_min: ul_min.to_bits(),
        download_bandwidth_max: dl_max.to_bits(),
        upload_bandwidth_max: ul_max.to_bits(),
        class_major,
        up_class_major,
        down_qdisc_handle: Some(0x9000),
        up_qdisc_handle: Some(0x9001),
        ip_addresses: "192.0.2.1/32".to_string(),
        sqm_override: None,
    }
}

#[allow(clippy::too_many_arguments)]
fn add_site(
    site_hash: i64,
    parent_class_id: u32,
    up_parent_class_id: u32,
    class_minor: u16,
    dl_min: f32,
    ul_min: f32,
    dl_max: f32,
    ul_max: f32,
) -> BakeryCommands {
    BakeryCommands::AddSite {
        site_hash,
        parent_class_id: TcHandle::from_u32(parent_class_id),
        up_parent_class_id: TcHandle::from_u32(up_parent_class_id),
        class_minor,
        download_bandwidth_min: dl_min.to_bits(),
        upload_bandwidth_min: ul_min.to_bits(),
        download_bandwidth_max: dl_max.to_bits(),
        upload_bandwidth_max: ul_max.to_bits(),
    }
}

#[test]
fn parent_move_is_categorized_as_migration() {
    let old = add_circuit(1, 0x10020, 0x20020, 0x21, 0x1, 0x2, 1.0, 1.0, 10.0, 10.0);
    let new = add_circuit(1, 0x10034, 0x20034, 0x35, 0x1, 0x2, 1.0, 1.0, 10.0, 10.0);
    let old_circuits = HashMap::from([(1, old)]);
    let batch = vec![new];

    let CircuitDiffResult::Categorized(categories) = diff_circuits(&batch, &old_circuits) else {
        panic!("expected categorized diff");
    };

    assert_eq!(categories.migrated.len(), 1);
    assert!(categories.structural_changed.is_empty());
    assert!(categories.speed_changed.is_empty());
}

#[test]
fn rate_change_stays_speed_only() {
    let old = add_circuit(1, 0x10020, 0x20020, 0x21, 0x1, 0x2, 1.0, 1.0, 10.0, 10.0);
    let new = add_circuit(1, 0x10020, 0x20020, 0x21, 0x1, 0x2, 2.0, 1.5, 20.0, 15.0);
    let old_circuits = HashMap::from([(1, old)]);
    let batch = vec![new];

    let CircuitDiffResult::Categorized(categories) = diff_circuits(&batch, &old_circuits) else {
        panic!("expected categorized diff");
    };

    assert_eq!(categories.speed_changed.len(), 1);
    assert!(categories.migrated.is_empty());
    assert!(categories.structural_changed.is_empty());
}

#[test]
fn ip_change_stays_ip_only() {
    let old = add_circuit(1, 0x10020, 0x20020, 0x21, 0x1, 0x2, 1.0, 1.0, 10.0, 10.0);
    let BakeryCommands::AddCircuit {
        circuit_hash,
        parent_class_id,
        up_parent_class_id,
        class_minor,
        download_bandwidth_min,
        upload_bandwidth_min,
        download_bandwidth_max,
        upload_bandwidth_max,
        class_major,
        up_class_major,
        down_qdisc_handle,
        up_qdisc_handle,
        sqm_override,
        ..
    } = &old
    else {
        panic!("expected add circuit");
    };
    let new = BakeryCommands::AddCircuit {
        circuit_hash: *circuit_hash,
        circuit_name: None,
        site_name: None,
        parent_class_id: *parent_class_id,
        up_parent_class_id: *up_parent_class_id,
        class_minor: *class_minor,
        download_bandwidth_min: *download_bandwidth_min,
        upload_bandwidth_min: *upload_bandwidth_min,
        download_bandwidth_max: *download_bandwidth_max,
        upload_bandwidth_max: *upload_bandwidth_max,
        class_major: *class_major,
        up_class_major: *up_class_major,
        down_qdisc_handle: *down_qdisc_handle,
        up_qdisc_handle: *up_qdisc_handle,
        ip_addresses: "198.51.100.10/32".to_string(),
        sqm_override: sqm_override.clone(),
    };
    let old_circuits = HashMap::from([(1, old.duplicate())]);
    let batch = vec![new];

    let CircuitDiffResult::Categorized(categories) = diff_circuits(&batch, &old_circuits) else {
        panic!("expected categorized diff");
    };

    assert_eq!(categories.ip_changed.len(), 1);
    assert!(categories.speed_changed.is_empty());
    assert!(categories.migrated.is_empty());
    assert!(categories.structural_changed.is_empty());
}

#[test]
fn unchanged_circuits_report_no_change() {
    let old = add_circuit(1, 0x10020, 0x20020, 0x21, 0x1, 0x2, 1.0, 1.0, 10.0, 10.0);
    let old_circuits = HashMap::from([(1, old.duplicate())]);
    let batch = vec![old];
    assert!(matches!(diff_circuits(&batch, &old_circuits), CircuitDiffResult::NoChange));
}

#[test]
fn site_count_mismatch_reports_added_and_removed_hashes() {
    let old_site = add_site(10, 0x10010, 0x20010, 0x11, 1.0, 1.0, 10.0, 10.0);
    let new_site = add_site(20, 0x10020, 0x20020, 0x21, 1.0, 1.0, 10.0, 10.0);
    let old_sites = HashMap::from([(10, old_site)]);
    let batch = vec![new_site, add_site(30, 0x10030, 0x20030, 0x31, 1.0, 1.0, 10.0, 10.0)];

    let SiteDiffResult::RebuildRequired { summary, details } = diff_sites(&batch, &old_sites) else {
        panic!("expected rebuild-required site diff");
    };

    assert!(details.is_none());
    assert!(summary.contains("site_count_mismatch"));
    assert!(summary.contains("added_count=2"));
    assert!(summary.contains("removed_count=1"));
    assert!(summary.contains("added_preview=[20, 30]"));
    assert!(summary.contains("removed_preview=[10]"));
}

#[test]
fn large_site_count_mismatch_stays_counts_only() {
    let old_sites = HashMap::from([(10, add_site(10, 0x10010, 0x20010, 0x11, 1.0, 1.0, 10.0, 10.0))]);
    let mut batch = Vec::new();
    for index in 20..30 {
        batch.push(add_site(
            index,
            0x10000 | index as u32,
            0x20000 | index as u32,
            index as u16,
            1.0,
            1.0,
            10.0,
            10.0,
        ));
    }

    let SiteDiffResult::RebuildRequired { summary, details } = diff_sites(&batch, &old_sites) else {
        panic!("expected rebuild-required site diff");
    };

    assert!(details.is_none());
    assert!(summary.contains("site_count_mismatch"));
    assert!(summary.contains("added_count=10"));
    assert!(summary.contains("removed_count=1"));
    assert!(!summary.contains("added_preview="));
    assert!(!summary.contains("removed_preview="));
}

#[test]
fn structural_site_change_reports_parent_transition() {
    let old_site = add_site(10, 0x10010, 0x20010, 0x11, 1.0, 1.0, 10.0, 10.0);
    let new_site = add_site(10, 0x10020, 0x20020, 0x21, 1.0, 1.0, 10.0, 10.0);
    let old_sites = HashMap::from([(10, old_site)]);
    let batch = vec![new_site];

    let SiteDiffResult::RebuildRequired { summary, details } = diff_sites(&batch, &old_sites) else {
        panic!("expected rebuild-required site diff");
    };

    assert_eq!(details, Some(StructuralSiteDiffDetails { site_hash: 10 }));
    assert!(summary.contains("site_hash=10"));
    assert!(summary.contains("parent=0x1:0x10→0x1:0x20"));
    assert!(summary.contains("up_parent=0x2:0x10→0x2:0x20"));
    assert!(summary.contains("minor=0x11→0x21"));
}

#[test]
fn site_rate_change_is_a_speed_change() {
    let old_site = add_site(10, 0x10010, 0x20010, 0x11, 1.0, 1.0, 10.0, 10.0);
    let new_site = add_site(10, 0x10010, 0x20010, 0x11, 2.0, 2.0, 20.0, 20.0);
    let old_sites = HashMap::from([(10, old_site)]);
    let batch = vec![new_site];
    let SiteDiffResult::SpeedChanges { changes } = diff_sites(&batch, &old_sites) else {
        panic!("expected speed changes");
    };
    assert_eq!(changes.len(), 1);
    assert!(matches!(
        &changes[0],
        BakeryCommands::AddSite { site_hash: 10, download_bandwidth_max, .. }
            if f32::from_bits(*download_bandwidth_max) == 20.0
    ));
}
