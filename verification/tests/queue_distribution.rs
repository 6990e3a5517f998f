use lqos_bakery::commands::BakeryCommands;
use lqos_bakery::queue_distribution::queue_distribution_buckets;
use lqos_bakery::tc_handle::TcHandle;
use std::collections::HashMap;

fn site(site_hash: i64, parent: u32, up_parent: u32, class_minor: u16) -> BakeryCommands {
    BakeryCommands::AddSite {
        site_hash,
        parent_class_id: TcHandle::from_u32(parent),
        up_parent_class_id: TcHandle::from_u32(up_parent),
        class_minor,
        download_bandwidth_min: 1f32.to_bits(),
        upload_bandwidth_min: 1f32.to_bits(),
        download_bandwidth_max: 100f32.to_bits(),
        upload_bandwidth_max: 100f32.to_bits(),
    }
}

fn circuit(circuit_hash: i64, class_major: u16, down: f32, up: f32) -> BakeryCommands {
    BakeryCommands::AddCircuit {
        circuit_hash,
        circuit_name: None,
        site_name: None,
        parent_class_id: TcHandle::from_u32(((class_major as u32) << 16) | 0x20),
        up_parent_class_id: TcHandle::from_u32(0x20020),
        class_minor: 0x30,
        download_bandwidth_min: 1f32.to_bits(),
        upload_bandwidth_min: 1f32.to_bits(),
        download_bandwidth_max: down.to_bits(),
        upload_bandwidth_max: up.to_bits(),
        class_major,
        up_class_major: class_major + 0x40,
        down_qdisc_handle: None,
        up_qdisc_handle: None,
        ip_addresses: String::new(),
        sqm_override: None,
    }
}

#[test]
fn queue_buckets_count_sites_and_circuits_per_queue_in_order() {
    let sites = HashMap::from([
        (1, site(1, 0x20003, 0x60003, 0x10)),
        (2, site(2, 0x20010, 0x60010, 0x11)),
        (3, site(3, 0x10003, 0x50003, 0x12)),
    ]);
    let circuits = HashMap::from([
        (10, circuit(10, 0x2, 50.0, 10.0)),
        (11, circuit(11, 0x2, 25.5, 5.0)),
        (12, circuit(12, 0x4, 7.0, 7.0)),
    ]);
    let buckets = queue_distribution_buckets(&sites, &circuits);
    let queues: Vec<u32> = buckets.iter().map(|b| b.queue).collect();
    assert_eq!(queues, vec![1, 2, 4]);
    assert_eq!((buckets[0].site_count, buckets[0].top_level_site_count, buckets[0].circuit_count), (1, 1, 0));
    assert_eq!((buckets[1].site_count, buckets[1].top_level_site_count, buckets[1].circuit_count), (2, 1, 2));
    assert_eq!((buckets[2].site_count, buckets[2].top_level_site_count, buckets[2].circuit_count), (0, 0, 1));
    let mut down: Vec<f32> = buckets[1].download_rates.iter().map(|r| f32::from_bits(*r)).collect();
    down.sort_by(|a, b| a.partial_cmp(b).unwrap());
    assert_eq!(down, vec![25.5, 50.0]);
    assert_eq!(buckets[2].upload_rates, vec![7f32.to_bits()]);
}

#[test]
fn empty_tree_has_no_queue_buckets() {
    assert!(queue_distribution_buckets(&HashMap::new(), &HashMap::new()).is_empty());
}
