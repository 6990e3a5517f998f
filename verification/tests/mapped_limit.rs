use lqos_bakery::commands::BakeryCommands;
use lqos_bakery::mapped_limit::{
    filter_batch_by_mapped_circuit_limit, format_mapped_limit, is_mapped_add_circuit,
    parse_ip_list, resolve_mapped_circuit_limit, DEFAULT_MAPPED_CIRCUITS_LIMIT, MappedLimitStats,
};
use lqos_bakery::qdisc_budget::MemorySnapshot;
use lqos_bakery::tc_handle::TcHandle;
use lqos_bakery::urgent::{
    maybe_emit_mapped_circuit_limit_urgent, maybe_emit_memory_guard_urgent, UrgentSeverity,
};
use std::collections::HashMap;

fn mk_add_circuit(hash: i64, ip_addresses: &str) -> BakeryCommands {
    BakeryCommands::AddCircuit {
        circuit_hash: hash,
        circuit_name: None,
        site_name: None,
        parent_class_id: TcHandle::from_u32(0x1),
        up_parent_class_id: TcHandle::from_u32(0x2),
        class_minor: 0x10,
        download_bandwidth_min: 10.0f32.to_bits(),
        upload_bandwidth_min: 10.0f32.to_bits(),
        download_bandwidth_max: 100.0f32.to_bits(),
        upload_bandwidth_max: 100.0f32.to_bits(),
        class_major: 0x100,
        up_class_major: 0x200,
        down_qdisc_handle: None,
        up_qdisc_handle: None,
        ip_addresses: ip_addresses.to_string(),
        sqm_override: None,
    }
}

fn has_hash(batch: &[BakeryCommands], hash: i64) -> bool {
    batch.iter().any(|cmd| {
        matches!(cmd, BakeryCommands::AddCircuit { circuit_hash, .. } if *circuit_hash == hash)
    })
}

#[test]
fn mapped_circuit_predicate_works() {
    let mapped = mk_add_circuit(1, "192.0.2.1/32");
    let unmapped = mk_add_circuit(2, "");
    assert!(is_mapped_add_circuit(&mapped));
    assert!(!is_mapped_add_circuit(&unmapped));
}

#[test]
fn whitespace_only_ip_list_is_unmapped() {
    assert!(!is_mapped_add_circuit(&mk_add_circuit(3, " , ,")));
    assert_eq!(parse_ip_list(" 192.0.2.1/32 ,, 2001:db8::1/128 "), vec![
        "192.0.2.1/32".to_string(),
        "2001:db8::1/128".to_string()
    ]);
}

#[test]
fn mapped_circuit_limit_preserves_existing_first() {
    let mut existing = HashMap::new();
    let mut batch = Vec::new();

    for h in 1..=1000 {
        let c = mk_add_circuit(h, &format!("10.0.{}.1/32", h % 255));
        existing.insert(h, c.duplicate());
        batch.push(c);
    }
    batch.push(mk_add_circuit(1001, "10.0.0.200/32"));

    let (filtered, stats) =
        filter_batch_by_mapped_circuit_limit(batch, &existing, Some(DEFAULT_MAPPED_CIRCUITS_LIMIT));
    assert_eq!(stats.enforced_limit, Some(DEFAULT_MAPPED_CIRCUITS_LIMIT));
    assert_eq!(stats.requested_mapped, 1001);
    assert_eq!(stats.allowed_mapped, 1000);
    assert_eq!(stats.dropped_mapped, 1);
    assert_eq!(filtered.len(), 1000);
    assert!(!has_hash(&filtered, 1001));
    assert!(has_hash(&filtered, 1));
    assert!(has_hash(&filtered, 1000));
}

#[test]
fn unmapped_additions_are_not_limited() {
    let mut existing = HashMap::new();
    let mut batch = Vec::new();

    for h in 1..=1000 {
        let c = mk_add_circuit(h, &format!("10.1.{}.1/32", h % 255));
        existing.insert(h, c);
        batch.push(mk_add_circuit(h, &format!("10.1.{}.1/32", h % 255)));
    }
    batch.push(mk_add_circuit(9001, ""));

    let (filtered, stats) =
        filter_batch_by_mapped_circuit_limit(batch, &existing, Some(DEFAULT_MAPPED_CIRCUITS_LIMIT));
    assert_eq!(stats.enforced_limit, Some(DEFAULT_MAPPED_CIRCUITS_LIMIT));
    assert_eq!(stats.requested_mapped, 1000);
    assert_eq!(stats.allowed_mapped, 1000);
    assert_eq!(stats.dropped_mapped, 0);
    assert!(has_hash(&filtered, 9001));
    assert_eq!(filtered.len(), 1001);
}

#[test]
fn mapped_circuit_limit_uses_custom_limit() {
    let existing = HashMap::new();
    let batch = vec![
        mk_add_circuit(1, "10.2.0.1/32"),
        mk_add_circuit(2, "10.2.0.2/32"),
        mk_add_circuit(3, "10.2.0.3/32"),
    ];

    let (filtered, stats) = filter_batch_by_mapped_circuit_limit(batch, &existing, Some(2));
    assert_eq!(stats.enforced_limit, Some(2));
    assert_eq!(stats.requested_mapped, 3);
    assert_eq!(stats.allowed_mapped, 2);
    assert_eq!(stats.dropped_mapped, 1);
    assert_eq!(filtered.len(), 2);
}

#[test]
fn mapped_circuit_limit_none_is_unlimited() {
    let existing = HashMap::new();
    let batch = vec![
        mk_add_circuit(1, "10.3.0.1/32"),
        mk_add_circuit(2, "10.3.0.2/32"),
        mk_add_circuit(3, "10.3.0.3/32"),
    ];

    let (filtered, stats) = filter_batch_by_mapped_circuit_limit(batch, &existing, None);
    assert_eq!(stats.enforced_limit, None);
    assert_eq!(stats.requested_mapped, 3);
    assert_eq!(stats.allowed_mapped, 3);
    assert_eq!(stats.dropped_mapped, 0);
    assert_eq!(filtered.len(), 3);
}

#[test]
fn mapped_limit_keeps_first_new_circuits_in_batch_order() {
    let existing = HashMap::from([(3, mk_add_circuit(3, "10.4.0.3/32"))]);
    let batch = vec![
        mk_add_circuit(1, "10.4.0.1/32"),
        mk_add_circuit(2, "10.4.0.2/32"),
        mk_add_circuit(3, "10.4.0.3/32"),
    ];
    let (filtered, stats) = filter_batch_by_mapped_circuit_limit(batch, &existing, Some(2));
    assert_eq!(stats.allowed_mapped, 2);
    assert!(has_hash(&filtered, 3));
    assert!(has_hash(&filtered, 1));
    assert!(!has_hash(&filtered, 2));
}

#[test]
fn format_mapped_limit_renders_number_or_unlimited() {
    assert_eq!(format_mapped_limit(Some(1000)), "1000");
    assert_eq!(format_mapped_limit(None), "unlimited");
}

#[test]
fn mapped_limit_resolution_follows_license() {
    let unlicensed = resolve_mapped_circuit_limit(Some((false, Some(5000))));
    assert!(!unlicensed.licensed);
    assert_eq!(unlicensed.max_circuits, Some(5000));
    assert_eq!(unlicensed.effective_limit, Some(DEFAULT_MAPPED_CIRCUITS_LIMIT));

    let licensed = resolve_mapped_circuit_limit(Some((true, Some(5000))));
    assert!(licensed.licensed);
    assert_eq!(licensed.effective_limit, Some(5000));

    let unlimited = resolve_mapped_circuit_limit(Some((true, None)));
    assert_eq!(unlimited.effective_limit, None);

    let unreachable = resolve_mapped_circuit_limit(None);
    assert!(!unreachable.licensed);
    assert_eq!(unreachable.max_circuits, None);
    assert_eq!(unreachable.effective_limit, Some(DEFAULT_MAPPED_CIRCUITS_LIMIT));
}

#[test]
fn mapped_limit_urgent_is_rate_limited() {
    let stats = MappedLimitStats {
        enforced_limit: Some(2),
        requested_mapped: 3,
        allowed_mapped: 2,
        dropped_mapped: 1,
    };
    let mut last = 0u64;
    let issue = maybe_emit_mapped_circuit_limit_urgent(&stats, &mut last, 10_000).expect("issue");
    assert_eq!(last, 10_000);
    assert_eq!(issue.severity, UrgentSeverity::Warning);
    assert_eq!(issue.code, "MAPPED_CIRCUIT_LIMIT");
    assert_eq!(
        issue.message,
        "Mapped circuit limit reached: requested 3 mapped circuits, allowed 2, dropped 1."
    );
    assert_eq!(
        issue.context.as_deref(),
        Some("{\"requested_mapped\":3,\"allowed_mapped\":2,\"dropped_mapped\":1,\"enforced_limit\":2}")
    );
    assert_eq!(issue.dedupe_key, "mapped_circuit_limit");

    assert!(maybe_emit_mapped_circuit_limit_urgent(&stats, &mut last, 10_000 + 1799).is_none());
    assert_eq!(last, 10_000);
    assert!(maybe_emit_mapped_circuit_limit_urgent(&stats, &mut last, 10_000 + 1800).is_some());
    assert_eq!(last, 11_800);

    let nothing_dropped = MappedLimitStats {
        enforced_limit: None,
        requested_mapped: 3,
        allowed_mapped: 3,
        dropped_mapped: 0,
    };
    let mut never = 0u64;
    assert!(maybe_emit_mapped_circuit_limit_urgent(&nothing_dropped, &mut never, 50).is_none());
    assert_eq!(never, 0);
}

#[test]
fn memory_guard_urgent_only_for_guard_stops() {
    assert!(maybe_emit_memory_guard_urgent("processing batch: completed", None).is_none());
    let snapshot = MemorySnapshot { available_bytes: 100, total_bytes: 200 };
    let issue = maybe_emit_memory_guard_urgent(
        "processing batch: Bakery memory guard stopped apply",
        Some(snapshot),
    )
    .expect("issue");
    assert_eq!(issue.severity, UrgentSeverity::Error);
    assert_eq!(issue.code, "BAKERY_MEMORY_GUARD");
    assert_eq!(issue.message, "processing batch: Bakery memory guard stopped apply");
    assert_eq!(
        issue.context.as_deref(),
        Some("{\"available_bytes\":100,\"total_bytes\":200,\"memory_guard_floor_bytes\":805306368}")
    );
    assert_eq!(issue.dedupe_key, "bakery_memory_guard");
}
