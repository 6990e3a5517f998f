//! Admission of a TreeGuard request to virtualize or restore a node at
//! runtime: a required reload answers it Dirty, an in-flight operation
//! answers itself, a busy top level or a full capacity defers it, and
//! anything else is admitted as applying.
use vstd::prelude::*;
use std::collections::HashMap;
use crate::commands::{
    BakeryCommands, RuntimeNodeOperationAction, RuntimeNodeOperationSnapshot, RuntimeNodeOperationStatus,
};
use crate::deferred_prune::{bumped, sat_add};
use crate::runtime::{
    active_runtime_node_operation_count, labelled, operation_snapshot_of, runtime_node_operation_action,
    runtime_node_operation_is_active, runtime_site_label, sites_where, status_in_flight,
    RuntimeNodeOperation, VirtualizedSiteState, RUNTIME_NODE_OPERATION_CAPACITY,
    RUNTIME_NODE_OPERATION_DEFERRED_RETRY_SECONDS,
};
use crate::runtime_branch::{
    active_top_level_runtime_operation_conflict, desync_published, runtime_virtualization_target_is_top_level,
    target_is_top_level, top_level_conflict, update_desync_state_from_runtime_state,
};
use crate::telemetry::{
    activity_after, bakery_reload_required_reason, push_bakery_event_with_site, BakeryTelemetryState,
};
use crate::text::{append_str, dec_int, dec_seq, dec_string, dec_string_i64, owned};

verus! {

broadcast use vstd::std_specs::hash::group_hash_axioms;

/// How a runtime request is answered.
#[derive(Debug)]
pub enum RuntimeOperationAdmission {
    /// The request is answered now with this operation state.
    Answered(RuntimeNodeOperationSnapshot),
    /// The request is admitted; its operation is recorded as applying.
    Admitted,
}

/// `virtualization` or `restore`.
pub open spec fn request_word(virtualized: bool) -> Seq<char> {
    if virtualized {
        "virtualization"@
    } else {
        "restore"@
    }
}

/// The deferral while another top-level operation is in flight.
pub open spec fn top_level_busy_summary(other: i64, virtualized: bool, label: Seq<char>) -> Seq<char> {
    "Bakery allows only one top-level TreeGuard runtime operation in flight; site "@ + dec_int(
        other as int,
    ) + " is still active, so TreeGuard "@ + request_word(virtualized) + " for "@ + label
        + " is deferred."@
}

/// The deferral while the operation capacity is used up.
pub open spec fn capacity_summary(virtualized: bool, label: Seq<char>) -> Seq<char> {
    "Bakery runtime node operation capacity ("@ + dec_seq(RUNTIME_NODE_OPERATION_CAPACITY as nat)
        + ") is saturated; deferring TreeGuard "@ + request_word(virtualized) + " for "@ + label + "."@
}

/// A new operation record with the given state.
pub open spec fn operation_record(
    operation_id: u64,
    site_hash: i64,
    site_name: Option<String>,
    action: RuntimeNodeOperationAction,
    now_unix: u64,
    status: RuntimeNodeOperationStatus,
    attempt_count: u32,
    last_error: Option<String>,
    next_retry_at_unix: Option<u64>,
) -> RuntimeNodeOperation {
    RuntimeNodeOperation {
        operation_id,
        site_hash,
        site_name,
        action,
        status,
        attempt_count,
        submitted_at_unix: now_unix,
        updated_at_unix: now_unix,
        next_retry_at_unix,
        last_error,
        failure_reason: None,
    }
}

/// The name kept with a virtualized node, if it is one.
pub open spec fn retained_name(vs: Map<i64, VirtualizedSiteState>, site_hash: i64) -> Option<String> {
    if vs.contains_key(site_hash) {
        Some(vs[site_hash].site_name)
    } else {
        None
    }
}

/// The request is deferred with `summary`: the operation keeps its id (or
/// takes the next one), counts an attempt, waits a minute, is published,
/// and a `runtime_node_op_deferred` warning is logged.
pub open spec fn deferred_outcome(
    site_hash: i64,
    action: RuntimeNodeOperationAction,
    vs: Map<i64, VirtualizedSiteState>,
    ops0: Map<i64, RuntimeNodeOperation>,
    ops1: Map<i64, RuntimeNodeOperation>,
    id0: u64,
    id1: u64,
    t0: BakeryTelemetryState,
    t1: BakeryTelemetryState,
    now_unix: u64,
    summary: Seq<char>,
    r: RuntimeOperationAdmission,
) -> bool {
    let known = ops0.contains_key(site_hash);
    let op = ops1[site_hash];
    &&& op == operation_record(
        if known {
            ops0[site_hash].operation_id
        } else {
            id0
        },
        site_hash,
        retained_name(vs, site_hash),
        action,
        now_unix,
        RuntimeNodeOperationStatus::Deferred,
        if known {
            bumped(ops0[site_hash].attempt_count)
        } else {
            1
        },
        op.last_error,
        Some(sat_add(now_unix, RUNTIME_NODE_OPERATION_DEFERRED_RETRY_SECONDS)),
    )
    &&& op.last_error matches Some(e) && e@ == summary
    &&& ops1 == ops0.insert(site_hash, op)
    &&& id1 == if known {
        id0
    } else {
        sat_add(id0, 1)
    }
    &&& r == RuntimeOperationAdmission::Answered(operation_snapshot_of(op))
    &&& exists|mid: BakeryTelemetryState|
        #[trigger] desync_published(t0, mid, ops1, vs) && t1.same_except_activity(&mid) && activity_after(
            mid.activity@,
            t1.activity@,
            now_unix,
            "runtime_node_op_deferred"@,
            "warning"@,
            Some(site_hash),
            None,
            summary,
        )
}

/// What admitting a request does (see [`admit_treeguard_runtime_operation`]).
pub open spec fn admission_outcome(
    site_hash: i64,
    virtualized: bool,
    sites: Map<i64, BakeryCommands>,
    vs: Map<i64, VirtualizedSiteState>,
    ops0: Map<i64, RuntimeNodeOperation>,
    ops1: Map<i64, RuntimeNodeOperation>,
    id0: u64,
    id1: u64,
    t0: BakeryTelemetryState,
    t1: BakeryTelemetryState,
    now_unix: u64,
    r: RuntimeOperationAdmission,
) -> bool {
    let action = if virtualized {
        RuntimeNodeOperationAction::Virtualize
    } else {
        RuntimeNodeOperationAction::Restore
    };
    let known = ops0.contains_key(site_hash);
    let label = labelled(site_hash, crate::commands::opt_view(retained_name(vs, site_hash)));
    if t0.reload_required && t0.reload_required_reason is Some {
        if known && ops0[site_hash].action == action {
            &&& r == RuntimeOperationAdmission::Answered(operation_snapshot_of(ops0[site_hash]))
            &&& ops1 == ops0
            &&& id1 == id0
            &&& t1 == t0
        } else {
            let op = operation_record(
                id0,
                site_hash,
                retained_name(vs, site_hash),
                action,
                now_unix,
                RuntimeNodeOperationStatus::Dirty,
                1,
                t0.reload_required_reason,
                None,
            );
            &&& ops1 == ops0.insert(site_hash, op)
            &&& id1 == sat_add(id0, 1)
            &&& desync_published(t0, t1, ops1, vs)
            &&& r == RuntimeOperationAdmission::Answered(operation_snapshot_of(op))
        }
    } else if known && status_in_flight(ops0[site_hash].status) {
        &&& r == RuntimeOperationAdmission::Answered(operation_snapshot_of(ops0[site_hash]))
        &&& ops1 == ops0
        &&& id1 == id0
        &&& t1 == t0
    } else if target_is_top_level(site_hash, sites, vs) && exists|other: i64|
        #[trigger] top_level_conflict(site_hash, other, ops0, sites, vs) {
        exists|other: i64|
            #[trigger] top_level_conflict(site_hash, other, ops0, sites, vs) && deferred_outcome(
                site_hash,
                action,
                vs,
                ops0,
                ops1,
                id0,
                id1,
                t0,
                t1,
                now_unix,
                top_level_busy_summary(other, virtualized, label),
                r,
            )
    } else if sites_where(ops0, |o: RuntimeNodeOperation| status_in_flight(o.status)).len()
        >= RUNTIME_NODE_OPERATION_CAPACITY {
        deferred_outcome(
            site_hash,
            action,
            vs,
            ops0,
            ops1,
            id0,
            id1,
            t0,
            t1,
            now_unix,
            capacity_summary(virtualized, label),
            r,
        )
    } else {
        let op = operation_record(
            id0,
            site_hash,
            retained_name(vs, site_hash),
            action,
            now_unix,
            RuntimeNodeOperationStatus::Applying,
            1,
            None,
            None,
        );
        &&& ops1 == ops0.insert(site_hash, op)
        &&& id1 == sat_add(id0, 1)
        &&& desync_published(t0, t1, ops1, vs)
        &&& r == RuntimeOperationAdmission::Admitted
    }
}

/// Records a deferred request (see [`deferred_outcome`]).
fn defer_operation(
    site_hash: i64,
    action: RuntimeNodeOperationAction,
    name: Option<String>,
    virtualized_sites: &HashMap<i64, VirtualizedSiteState>,
    runtime_node_operations: &mut HashMap<i64, RuntimeNodeOperation>,
    next_runtime_operation_id: &mut u64,
    telemetry: &mut BakeryTelemetryState,
    now_unix: u64,
    summary: String,
) -> (r: RuntimeOperationAdmission)
    requires
        old(telemetry).wf(),
        name == retained_name(virtualized_sites@, site_hash),
    ensures
        final(telemetry).wf(),
        deferred_outcome(
            site_hash,
            action,
            virtualized_sites@,
            old(runtime_node_operations)@,
            final(runtime_node_operations)@,
            *old(next_runtime_operation_id),
            *final(next_runtime_operation_id),
            *old(telemetry),
            *final(telemetry),
            now_unix,
            summary@,
            r,
        ),
{
    let ghost ops0 = runtime_node_operations@;
    let ghost t0 = *telemetry;
    let (operation_id, attempts) = match runtime_node_operations.get(&site_hash) {
        Some(existing) => (existing.operation_id, existing.attempt_count.saturating_add(1)),
        None => {
            let next = *next_runtime_operation_id;
            *next_runtime_operation_id = next.saturating_add(1);
            (next, 1)
        },
    };
    let mut operation = RuntimeNodeOperation::new(operation_id, site_hash, name, action, now_unix);
    operation.attempt_count = attempts;
    operation.update_status(
        RuntimeNodeOperationStatus::Deferred,
        now_unix,
        Some(summary.clone()),
        Some(now_unix.saturating_add(RUNTIME_NODE_OPERATION_DEFERRED_RETRY_SECONDS)),
    );
    let snapshot = operation.snapshot();
    runtime_node_operations.insert(site_hash, operation);
    update_desync_state_from_runtime_state(telemetry, now_unix, runtime_node_operations, virtualized_sites);
    let ghost mid = *telemetry;
    push_bakery_event_with_site(telemetry, now_unix, "runtime_node_op_deferred", "warning", Some(site_hash), summary);
    assert(desync_published(t0, mid, runtime_node_operations@, virtualized_sites@));
    assert(runtime_node_operations@ =~= ops0.insert(site_hash, runtime_node_operations@[site_hash]));
    RuntimeOperationAdmission::Answered(snapshot)
}

/// Decides whether a TreeGuard request to virtualize (`virtualized`) or
/// restore a node may start now, recording the operation and publishing the
/// operations to telemetry (see [`admission_outcome`]).
pub fn admit_treeguard_runtime_operation(
    site_hash: i64,
    virtualized: bool,
    sites: &HashMap<i64, BakeryCommands>,
    virtualized_sites: &HashMap<i64, VirtualizedSiteState>,
    runtime_node_operations: &mut HashMap<i64, RuntimeNodeOperation>,
    next_runtime_operation_id: &mut u64,
    telemetry: &mut BakeryTelemetryState,
    now_unix: u64,
) -> (r: RuntimeOperationAdmission)
    requires
        old(telemetry).wf(),
    ensures
        final(telemetry).wf(),
        admission_outcome(
            site_hash,
            virtualized,
            sites@,
            virtualized_sites@,
            old(runtime_node_operations)@,
            final(runtime_node_operations)@,
            *old(next_runtime_operation_id),
            *final(next_runtime_operation_id),
            *old(telemetry),
            *final(telemetry),
            now_unix,
            r,
        ),
{
    let ghost ops0 = runtime_node_operations@;
    let action = runtime_node_operation_action(virtualized);
    let name: Option<String> = match virtualized_sites.get(&site_hash) {
        Some(state) => Some(state.site_name.clone()),
        None => None,
    };
    match bakery_reload_required_reason(telemetry) {
        Some(reason) => {
            match runtime_node_operations.get(&site_hash) {
                Some(existing) => {
                    if existing.action == action {
                        return RuntimeOperationAdmission::Answered(existing.snapshot());
                    }
                },
                None => {},
            }
            let operation_id = *next_runtime_operation_id;
            *next_runtime_operation_id = operation_id.saturating_add(1);
            let mut operation = RuntimeNodeOperation::new(operation_id, site_hash, name, action, now_unix);
            operation.attempt_count = 1;
            operation.update_status(RuntimeNodeOperationStatus::Dirty, now_unix, Some(reason), None);
            let snapshot = operation.snapshot();
            runtime_node_operations.insert(site_hash, operation);
            update_desync_state_from_runtime_state(telemetry, now_unix, runtime_node_operations, virtualized_sites);
            assert(runtime_node_operations@ =~= ops0.insert(site_hash, runtime_node_operations@[site_hash]));
            return RuntimeOperationAdmission::Answered(snapshot);
        },
        None => {},
    }
    match runtime_node_operations.get(&site_hash) {
        Some(existing) => {
            if runtime_node_operation_is_active(existing.status) {
                return RuntimeOperationAdmission::Answered(existing.snapshot());
            }
        },
        None => {},
    }
    let label = runtime_site_label(
        site_hash,
        match &name {
            Some(n) => Some(n.as_str()),
            None => None,
        },
    );
    let word = if virtualized {
        "virtualization"
    } else {
        "restore"
    };
    if runtime_virtualization_target_is_top_level(site_hash, sites, virtualized_sites) {
        match active_top_level_runtime_operation_conflict(site_hash, runtime_node_operations, sites, virtualized_sites) {
            Some(other) => {
                let mut summary = owned(
                    "Bakery allows only one top-level TreeGuard runtime operation in flight; site ",
                );
                append_str(&mut summary, dec_string_i64(other).as_str());
                append_str(&mut summary, " is still active, so TreeGuard ");
                append_str(&mut summary, word);
                append_str(&mut summary, " for ");
                append_str(&mut summary, label.as_str());
                append_str(&mut summary, " is deferred.");
                let r = defer_operation(
                    site_hash,
                    action,
                    name,
                    virtualized_sites,
                    runtime_node_operations,
                    next_runtime_operation_id,
                    telemetry,
                    now_unix,
                    summary,
                );
                return r;
            },
            None => {},
        }
    }
    if active_runtime_node_operation_count(runtime_node_operations) >= RUNTIME_NODE_OPERATION_CAPACITY {
        let mut summary = owned("Bakery runtime node operation capacity (");
        append_str(&mut summary, dec_string(RUNTIME_NODE_OPERATION_CAPACITY as u64).as_str());
        append_str(&mut summary, ") is saturated; deferring TreeGuard ");
        append_str(&mut summary, word);
        append_str(&mut summary, " for ");
        append_str(&mut summary, label.as_str());
        append_str(&mut summary, ".");
        return defer_operation(
            site_hash,
            action,
            name,
            virtualized_sites,
            runtime_node_operations,
            next_runtime_operation_id,
            telemetry,
            now_unix,
            summary,
        );
    }
    let operation_id = *next_runtime_operation_id;
    *next_runtime_operation_id = operation_id.saturating_add(1);
    let mut operation = RuntimeNodeOperation::new(operation_id, site_hash, name, action, now_unix);
    operation.attempt_count = 1;
    operation.update_status(RuntimeNodeOperationStatus::Applying, now_unix, None, None);
    runtime_node_operations.insert(site_hash, operation);
    update_desync_state_from_runtime_state(telemetry, now_unix, runtime_node_operations, virtualized_sites);
    assert(runtime_node_operations@ =~= ops0.insert(site_hash, runtime_node_operations@[site_hash]));
    RuntimeOperationAdmission::Admitted
}

} // verus!
