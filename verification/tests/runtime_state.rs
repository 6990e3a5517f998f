use lqos_bakery::commands::{BakeryCommands, RuntimeNodeOperationStatus};
use lqos_bakery::runtime::{
    runtime_error_suggests_material_desync, runtime_status_for_virtualized_state,
    stale_retained_runtime_branch_summary, RuntimeVirtualizedActiveBranch,
    RuntimeVirtualizedBranchLifecycle, VirtualizedSiteQdiscHandles, VirtualizedSiteState,
};
use lqos_bakery::tc_handle::TcHandle;
use std::collections::HashMap;

fn mk_add_site(site_hash: i64, parent: u32, up_parent: u32, class_minor: u16) -> BakeryCommands {
    BakeryCommands::AddSite {
        site_hash,
        parent_class_id: TcHandle::from_u32(parent),
        up_parent_class_id: TcHandle::from_u32(up_parent),
        class_minor,
        download_bandwidth_min: 10.0f32.to_bits(),
        upload_bandwidth_min: 10.0f32.to_bits(),
        download_bandwidth_max: 100.0f32.to_bits(),
        upload_bandwidth_max: 100.0f32.to_bits(),
    }
}

fn mk_state(
    site_name: &str,
    site: BakeryCommands,
    active_branch: RuntimeVirtualizedActiveBranch,
    lifecycle: RuntimeVirtualizedBranchLifecycle,
    pending_prune: bool,
) -> VirtualizedSiteState {
    VirtualizedSiteState {
        site_name: site_name.to_string(),
        site,
        saved_sites: HashMap::new(),
        saved_circuits: HashMap::new(),
        active_sites: HashMap::new(),
        active_circuits: HashMap::new(),
        prune_sites: HashMap::new(),
        prune_circuits: HashMap::new(),
        qdisc_handles: VirtualizedSiteQdiscHandles { down: None, up: None },
        active_branch,
        lifecycle,
        pending_prune,
        next_prune_attempt_unix: 0,
    }
}

#[test]
fn cutover_failure_counts_as_material_desync() {
    assert!(runtime_error_suggests_material_desync(
        "Top-level runtime cutover verification failed to converge: Observed live child classes still attached"
    ));
    assert!(runtime_error_suggests_material_desync(
        "Inactive branch cleanup encountered unexpected live child classes still attached: down [0x4:0xf]"
    ));
}

#[test]
fn cutover_pending_maps_to_applying_status() {
    let state = mk_state(
        "test-site-20",
        mk_add_site(20, 0x10020, 0x20020, 0x21),
        RuntimeVirtualizedActiveBranch::Shadow,
        RuntimeVirtualizedBranchLifecycle::CutoverPending,
        true,
    );
    assert_eq!(
        runtime_status_for_virtualized_state(&state),
        RuntimeNodeOperationStatus::Applying
    );
}

#[test]
fn stale_retained_runtime_branch_summary_includes_site_name_for_missing_root() {
    let saved_state = mk_state(
        "7232 Rochester",
        mk_add_site(20, 0x10000, 0x20000, 0x21),
        RuntimeVirtualizedActiveBranch::Shadow,
        RuntimeVirtualizedBranchLifecycle::FlattenedActive,
        false,
    );
    let summary = stale_retained_runtime_branch_summary(20, &saved_state, &HashMap::new())
        .expect("stale root summary");
    assert!(summary.contains("7232 Rochester"));
    assert!(summary.contains("20"));
    assert!(summary.contains("no longer present in current topology"));
}
