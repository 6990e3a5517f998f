//! Bookkeeping of the deferred runtime prunes: which virtualized nodes are
//! due, and what a cutover check or a prune pass does to a node's state, its
//! runtime operation and the grouped activity events.
use vstd::prelude::*;
use std::collections::HashMap;
use crate::grouped_events::{grouped_emitted, GroupedBakeryEventLimiter};
use crate::maps::map_keys;
use crate::migration::Migration;
use crate::prune::{has_pending_migrations, runtime_virtualized_site_prune_ready};
use crate::runtime::{
    display_name, lifecycle_for, preserve_cutover_pending_or_lifecycle_from_active_branch,
    runtime_site_display_name, runtime_status_for_virtualized_state, status_for_lifecycle,
    RuntimeNodeOperation, RuntimeVirtualizedActiveBranch, RuntimeVirtualizedBranchLifecycle,
    VirtualizedSiteState, RUNTIME_CUTOVER_RETRY_SECONDS, RUNTIME_SITE_PRUNE_MAX_ATTEMPTS,
    RUNTIME_SITE_PRUNE_RETRY_SECONDS,
};
use crate::commands::RuntimeNodeOperationStatus;
use crate::subtree_prune::RuntimePrunePassResult;
use crate::telemetry::BakeryTelemetryState;
use crate::text::{append_str, dec_seq, dec_string, owned};

verus! {

broadcast use vstd::std_specs::hash::group_hash_axioms;

/// A node's deferred prune is due now.
pub open spec fn prune_due(state: VirtualizedSiteState, migrations: Map<i64, Migration>, now_unix: u64) -> bool {
    state.pending_prune && state.next_prune_attempt_unix <= now_unix && !has_pending_migrations(
        state,
        migrations,
    )
}

/// The virtualized nodes whose deferred prune is due, each once.
pub fn deferred_prune_site_hashes(
    virtualized_sites: &HashMap<i64, VirtualizedSiteState>,
    migrations: &HashMap<i64, Migration>,
    now_unix: u64,
) -> (r: Vec<i64>)
    ensures
        r@.no_duplicates(),
        forall|h: i64| #[trigger]
            r@.contains(h) <==> virtualized_sites@.contains_key(h) && prune_due(
                virtualized_sites@[h],
                migrations@,
                now_unix,
            ),
{
    let keys = map_keys(virtualized_sites);
    let mut out: Vec<i64> = Vec::new();
    let mut i: usize = 0;
    while i < keys.len()
        invariant
            i <= keys@.len(),
            keys@.no_duplicates(),
            keys@.to_set() == virtualized_sites@.dom(),
            out@.no_duplicates(),
            forall|h: i64| #[trigger]
                out@.contains(h) <==> keys@.take(i as int).contains(h) && virtualized_sites@.contains_key(h)
                    && prune_due(virtualized_sites@[h], migrations@, now_unix),
        decreases keys@.len() - i,
    {
        let h = keys[i];
        let ghost before = out@;
        assert(keys@.contains(h));
        let due = match virtualized_sites.get(&h) {
            Some(state) => runtime_virtualized_site_prune_ready(state, migrations, now_unix),
            None => false,
        };
        proof {
            assert(!keys@.take(i as int).contains(h)) by {
                if keys@.take(i as int).contains(h) {
                    let j = choose|j: int| 0 <= j < i && keys@.take(i as int)[j] == h;
                    assert(keys@[j] == keys@[i as int]);
                }
            }
        }
        if due {
            out.push(h);
            proof {
                assert forall|x: int, y: int| 0 <= x < y < out@.len() implies out@[x] != out@[y] by {
                    if y == out@.len() - 1 && x < before.len() {
                        assert(before.contains(before[x]));
                    }
                }
            }
        }
        proof {
            assert(keys@.take(i + 1) =~= keys@.take(i as int).push(h));
            assert forall|x: i64| #[trigger] out@.contains(x) <==> keys@.take(i + 1).contains(x)
                && virtualized_sites@.contains_key(x) && prune_due(virtualized_sites@[x], migrations@, now_unix) by {
                crate::summary::lemma_push_contains(keys@.take(i as int), h, x);
                crate::summary::lemma_push_contains(before, h, x);
            }
        }
        i = i + 1;
    }
    assert(keys@.take(keys@.len() as int) =~= keys@);
    out
}

/// A pending full reload (one with a reason recorded) holds back every
/// deferred prune.
pub open spec fn reload_holds_prunes(telemetry: BakeryTelemetryState) -> bool {
    telemetry.reload_required && telemetry.reload_required_reason is Some
}

/// The nodes a flush of deferred prunes works on: none while a full reload
/// is pending, so the flush then leaves every node, runtime operation and
/// the telemetry as they are; otherwise the nodes due now (see
/// [`deferred_prune_site_hashes`]).
pub fn deferred_prune_flush_targets(
    telemetry: &BakeryTelemetryState,
    virtualized_sites: &HashMap<i64, VirtualizedSiteState>,
    migrations: &HashMap<i64, Migration>,
    now_unix: u64,
) -> (r: Vec<i64>)
    ensures
        reload_holds_prunes(*telemetry) ==> r@ == Seq::<i64>::empty(),
        !reload_holds_prunes(*telemetry) ==> r@.no_duplicates(),
        !reload_holds_prunes(*telemetry) ==> forall|h: i64| #[trigger]
            r@.contains(h) <==> virtualized_sites@.contains_key(h) && prune_due(
                virtualized_sites@[h],
                migrations@,
                now_unix,
            ),
{
    if crate::telemetry::bakery_reload_required_reason(telemetry).is_some() {
        return Vec::new();
    }
    deferred_prune_site_hashes(virtualized_sites, migrations, now_unix)
}

/// `n + 1`, saturating.
pub open spec fn bumped(n: u32) -> u32 {
    if n < u32::MAX {
        (n + 1) as u32
    } else {
        u32::MAX
    }
}

/// `a + b`, saturating.
pub open spec fn sat_add(a: u64, b: u64) -> u64 {
    if a + b <= u64::MAX {
        (a + b) as u64
    } else {
        u64::MAX
    }
}

/// The node's operation, if tracked, moved to `status` at `now_unix` with the
/// given error and retry time, its attempts bumped when `bump` is set.
pub open spec fn operation_after(
    before: Map<i64, RuntimeNodeOperation>,
    after: Map<i64, RuntimeNodeOperation>,
    site_hash: i64,
    status: RuntimeNodeOperationStatus,
    now_unix: u64,
    last_error: Option<String>,
    next_retry_at_unix: Option<u64>,
    bump: bool,
) -> bool {
    if before.contains_key(site_hash) {
        after == before.insert(
            site_hash,
            RuntimeNodeOperation {
                status,
                updated_at_unix: now_unix,
                last_error,
                failure_reason: None,
                next_retry_at_unix,
                attempt_count: if bump {
                    bumped(before[site_hash].attempt_count)
                } else {
                    before[site_hash].attempt_count
                },
                ..before[site_hash]
            },
        )
    } else {
        after == before
    }
}

/// The site a node's events are attributed to.
pub open spec fn event_site(site_hash: i64, state: VirtualizedSiteState) -> Option<(i64, Option<String>)> {
    Some((site_hash, Some(state.site_name)))
}

/// Display name of a node in event texts.
pub open spec fn node_display(site_hash: i64, state: VirtualizedSiteState) -> Seq<char> {
    display_name(site_hash, Some(state.site_name@))
}

/// `Runtime cutover completed for site <s>; shadow branch is active and original branch is standby.`
pub open spec fn cutover_completed_message(site: Seq<char>) -> Seq<char> {
    "Runtime cutover completed for site "@ + site
        + "; shadow branch is active and original branch is standby."@
}

/// `Runtime cutover for site <s> marked Dirty after <n> attempts: <summary>`
pub open spec fn cutover_dirty_message(site: Seq<char>, attempts: u32, summary: Seq<char>) -> Seq<char> {
    "Runtime cutover for site "@ + site + " marked Dirty after "@ + dec_seq(attempts as nat) + " attempts: "@
        + summary
}

/// `Runtime cutover retry <n>/<max> for site <s> waiting for active/standby convergence: <summary>`
pub open spec fn cutover_retry_message(site: Seq<char>, attempts: u32, summary: Seq<char>) -> Seq<char> {
    "Runtime cutover retry "@ + dec_seq(attempts as nat) + "/"@ + dec_seq(
        RUNTIME_SITE_PRUNE_MAX_ATTEMPTS as nat,
    ) + " for site "@ + site + " waiting for active/standby convergence: "@ + summary
}

/// The node after a verified cutover: its shadow branch is active.
pub open spec fn cutover_completed_state(state: VirtualizedSiteState) -> VirtualizedSiteState {
    VirtualizedSiteState {
        pending_prune: false,
        next_prune_attempt_unix: 0,
        lifecycle: RuntimeVirtualizedBranchLifecycle::FlattenedActive,
        ..state
    }
}

/// The node after its last allowed attempt failed.
pub open spec fn dirty_state(state: VirtualizedSiteState) -> VirtualizedSiteState {
    VirtualizedSiteState {
        pending_prune: false,
        next_prune_attempt_unix: 0,
        lifecycle: RuntimeVirtualizedBranchLifecycle::Failed,
        ..state
    }
}

/// What a cutover check does, given whether the shadow branch was verified
/// active (see [`apply_runtime_cutover_verification`]).
pub open spec fn cutover_outcome(
    site_hash: i64,
    s0: VirtualizedSiteState,
    s1: VirtualizedSiteState,
    ops0: Map<i64, RuntimeNodeOperation>,
    ops1: Map<i64, RuntimeNodeOperation>,
    verification: Result<(), String>,
    now_unix: u64,
    l0: GroupedBakeryEventLimiter,
    l1: GroupedBakeryEventLimiter,
    t0: BakeryTelemetryState,
    t1: BakeryTelemetryState,
) -> bool {
    match verification {
        Ok(()) => {
            &&& s1 == cutover_completed_state(s0)
            &&& operation_after(
                ops0,
                ops1,
                site_hash,
                status_for_lifecycle(RuntimeVirtualizedBranchLifecycle::FlattenedActive, false),
                now_unix,
                None,
                None,
                false,
            )
            &&& grouped_emitted(
                l0,
                l1,
                t0,
                t1,
                now_unix,
                "runtime_cutover_completed|completed"@,
                "runtime_cutover_completed"@,
                "info"@,
                event_site(site_hash, s0),
                cutover_completed_message(node_display(site_hash, s0)),
                "runtime cutover completion events"@,
            )
        },
        Err(summary) => if !ops0.contains_key(site_hash) {
            &&& s1 == s0
            &&& ops1 == ops0
            &&& l1 == l0
            &&& t1 == t0
        } else {
            let attempts = bumped(ops0[site_hash].attempt_count);
            if attempts >= RUNTIME_SITE_PRUNE_MAX_ATTEMPTS {
                &&& s1 == dirty_state(s0)
                &&& operation_after(
                    ops0,
                    ops1,
                    site_hash,
                    RuntimeNodeOperationStatus::Dirty,
                    now_unix,
                    Some(summary),
                    None,
                    true,
                )
                &&& grouped_emitted(
                    l0,
                    l1,
                    t0,
                    t1,
                    now_unix,
                    "runtime_cutover_dirty|activation_failed|"@ + summary@,
                    "runtime_cutover_dirty"@,
                    "error"@,
                    event_site(site_hash, s0),
                    cutover_dirty_message(node_display(site_hash, s0), attempts, summary@),
                    "runtime cutover Dirty events due to activation verification failure: "@ + summary@,
                )
            } else {
                let retry_at = sat_add(now_unix, RUNTIME_CUTOVER_RETRY_SECONDS);
                &&& s1 == VirtualizedSiteState { next_prune_attempt_unix: retry_at, ..s0 }
                &&& operation_after(
                    ops0,
                    ops1,
                    site_hash,
                    status_for_lifecycle(s0.lifecycle, s0.pending_prune),
                    now_unix,
                    Some(summary),
                    Some(retry_at),
                    true,
                )
                &&& grouped_emitted(
                    l0,
                    l1,
                    t0,
                    t1,
                    now_unix,
                    "runtime_cutover_retry|activation_failed|"@ + summary@,
                    "runtime_cutover_retry"@,
                    "warning"@,
                    event_site(site_hash, s0),
                    cutover_retry_message(node_display(site_hash, s0), attempts, summary@),
                    "runtime cutover retry events due to activation verification failure: "@ + summary@,
                )
            }
        },
    }
}

/// `<a><b>` as a fresh string.
fn concat(a: &str, b: &str) -> (r: String)
    ensures
        r@ == a@ + b@,
{
    let mut s = owned(a);
    append_str(&mut s, b);
    s
}

/// Records the check of a node whose cutover is pending: when the shadow
/// branch is verified active the node becomes `FlattenedActive`; otherwise a
/// tracked operation counts an attempt and either marks the node `Failed`
/// (Dirty) after [`RUNTIME_SITE_PRUNE_MAX_ATTEMPTS`] or schedules a retry a
/// second later. Each outcome is a grouped event (see [`cutover_outcome`]).
pub fn apply_runtime_cutover_verification(
    site_hash: i64,
    state: &mut VirtualizedSiteState,
    operations: &mut HashMap<i64, RuntimeNodeOperation>,
    verification: Result<(), String>,
    now_unix: u64,
    grouped: &mut GroupedBakeryEventLimiter,
    telemetry: &mut BakeryTelemetryState,
)
    requires
        old(grouped).wf(),
        old(telemetry).wf(),
    ensures
        final(grouped).wf(),
        final(telemetry).wf(),
        cutover_outcome(
            site_hash,
            *old(state),
            *final(state),
            old(operations)@,
            final(operations)@,
            verification,
            now_unix,
            *old(grouped),
            *final(grouped),
            *old(telemetry),
            *final(telemetry),
        ),
{
    let ghost ops0 = operations@;
    let site_name = state.site_name.clone();
    let display = runtime_site_display_name(site_hash, Some(site_name.as_str()));
    match verification {
        Ok(()) => {
            state.pending_prune = false;
            state.next_prune_attempt_unix = 0;
            state.lifecycle = RuntimeVirtualizedBranchLifecycle::FlattenedActive;
            match operations.remove(&site_hash) {
                Some(mut op) => {
                    op.update_status(runtime_status_for_virtualized_state(state), now_unix, None, None);
                    operations.insert(site_hash, op);
                    assert(operations@ =~= ops0.insert(site_hash, operations@[site_hash]));
                },
                None => {
                    assert(operations@ =~= ops0);
                },
            }
            let mut summary = owned("Runtime cutover completed for site ");
            append_str(&mut summary, display.as_str());
            append_str(&mut summary, "; shadow branch is active and original branch is standby.");
            grouped.emit_with_site_name(
                telemetry,
                now_unix,
                owned("runtime_cutover_completed|completed"),
                "runtime_cutover_completed",
                "info",
                Some((site_hash, Some(site_name))),
                summary,
                owned("runtime cutover completion events"),
            );
        },
        Err(summary) => {
            match operations.remove(&site_hash) {
                Some(mut op) => {
                    op.attempt_count = op.attempt_count.saturating_add(1);
                    let attempts = op.attempt_count;
                    let attempts_text = dec_string(attempts as u64);
                    if attempts >= RUNTIME_SITE_PRUNE_MAX_ATTEMPTS {
                        state.pending_prune = false;
                        state.next_prune_attempt_unix = 0;
                        state.lifecycle = RuntimeVirtualizedBranchLifecycle::Failed;
                        op.update_status(
                            runtime_status_for_virtualized_state(state),
                            now_unix,
                            Some(summary.clone()),
                            None,
                        );
                        operations.insert(site_hash, op);
                        assert(operations@ =~= ops0.insert(site_hash, operations@[site_hash]));
                        let mut message = owned("Runtime cutover for site ");
                        append_str(&mut message, display.as_str());
                        append_str(&mut message, " marked Dirty after ");
                        append_str(&mut message, attempts_text.as_str());
                        append_str(&mut message, " attempts: ");
                        append_str(&mut message, summary.as_str());
                        grouped.emit_with_site_name(
                            telemetry,
                            now_unix,
                            concat("runtime_cutover_dirty|activation_failed|", summary.as_str()),
                            "runtime_cutover_dirty",
                            "error",
                            Some((site_hash, Some(site_name))),
                            message,
                            concat(
                                "runtime cutover Dirty events due to activation verification failure: ",
                                summary.as_str(),
                            ),
                        );
                    } else {
                        let retry_at = now_unix.saturating_add(RUNTIME_CUTOVER_RETRY_SECONDS);
                        state.next_prune_attempt_unix = retry_at;
                        op.update_status(
                            runtime_status_for_virtualized_state(state),
                            now_unix,
                            Some(summary.clone()),
                            Some(retry_at),
                        );
                        operations.insert(site_hash, op);
                        assert(operations@ =~= ops0.insert(site_hash, operations@[site_hash]));
                        let mut message = owned("Runtime cutover retry ");
                        append_str(&mut message, attempts_text.as_str());
                        append_str(&mut message, "/");
                        append_str(&mut message, dec_string(RUNTIME_SITE_PRUNE_MAX_ATTEMPTS as u64).as_str());
                        append_str(&mut message, " for site ");
                        append_str(&mut message, display.as_str());
                        append_str(&mut message, " waiting for active/standby convergence: ");
                        append_str(&mut message, summary.as_str());
                        grouped.emit_with_site_name(
                            telemetry,
                            now_unix,
                            concat("runtime_cutover_retry|activation_failed|", summary.as_str()),
                            "runtime_cutover_retry",
                            "warning",
                            Some((site_hash, Some(site_name))),
                            message,
                            concat(
                                "runtime cutover retry events due to activation verification failure: ",
                                summary.as_str(),
                            ),
                        );
                    }
                },
                None => {
                    assert(operations@ =~= ops0);
                },
            }
        },
    }
}

/// The lifecycle kept after a pass: a pending cutover stays pending,
/// anything else follows the active branch and whether a prune is pending.
pub open spec fn kept_lifecycle(state: VirtualizedSiteState) -> RuntimeVirtualizedBranchLifecycle {
    if state.lifecycle == RuntimeVirtualizedBranchLifecycle::CutoverPending {
        RuntimeVirtualizedBranchLifecycle::CutoverPending
    } else {
        lifecycle_for(state.active_branch, state.pending_prune)
    }
}

/// `Deferred runtime site prune completed for site <s>.`
pub open spec fn prune_completed_message(site: Seq<char>) -> Seq<char> {
    "Deferred runtime site prune completed for site "@ + site + "."@
}

/// `Deferred runtime site prune for site <s> made progress: <summary>`
pub open spec fn prune_progress_message(site: Seq<char>, summary: Seq<char>) -> Seq<char> {
    "Deferred runtime site prune for site "@ + site + " made progress: "@ + summary
}

/// `Deferred runtime site prune for site <s> marked Dirty after <n> attempts: <summary>`
pub open spec fn prune_dirty_message(site: Seq<char>, attempts: u32, summary: Seq<char>) -> Seq<char> {
    "Deferred runtime site prune for site "@ + site + " marked Dirty after "@ + dec_seq(attempts as nat)
        + " attempts: "@ + summary
}

/// `Deferred runtime site prune retry <n>/<max> for site <s> failed: <summary>`
pub open spec fn prune_retry_message(site: Seq<char>, attempts: u32, summary: Seq<char>) -> Seq<char> {
    "Deferred runtime site prune retry "@ + dec_seq(attempts as nat) + "/"@ + dec_seq(
        RUNTIME_SITE_PRUNE_MAX_ATTEMPTS as nat,
    ) + " for site "@ + site + " failed: "@ + summary
}

/// `Deferred runtime site prune for site <s> failed outside operation tracking: <summary>`
pub open spec fn prune_untracked_message(site: Seq<char>, summary: Seq<char>) -> Seq<char> {
    "Deferred runtime site prune for site "@ + site + " failed outside operation tracking: "@ + summary
}

/// What the result of a prune pass does to the node, its operation and the
/// events (see [`apply_runtime_prune_pass_result`]); `restored` says whether
/// a restored node has finished cleaning up and can be forgotten.
pub open spec fn prune_pass_outcome(
    site_hash: i64,
    s0: VirtualizedSiteState,
    s1: VirtualizedSiteState,
    ops0: Map<i64, RuntimeNodeOperation>,
    ops1: Map<i64, RuntimeNodeOperation>,
    result: RuntimePrunePassResult,
    now_unix: u64,
    l0: GroupedBakeryEventLimiter,
    l1: GroupedBakeryEventLimiter,
    t0: BakeryTelemetryState,
    t1: BakeryTelemetryState,
    restored: bool,
) -> bool {
    let site = node_display(site_hash, s0);
    match result {
        RuntimePrunePassResult::Completed => {
            let done = VirtualizedSiteState { pending_prune: false, next_prune_attempt_unix: 0, ..s0 };
            let s = VirtualizedSiteState { lifecycle: kept_lifecycle(done), ..done };
            &&& s1 == s
            &&& restored == (s0.active_branch != RuntimeVirtualizedActiveBranch::Shadow)
            &&& operation_after(ops0, ops1, site_hash, status_for_lifecycle(s.lifecycle, false), now_unix, None, None, false)
            &&& grouped_emitted(
                l0,
                l1,
                t0,
                t1,
                now_unix,
                "runtime_site_prune_completed|completed"@,
                "runtime_site_prune_completed"@,
                "info"@,
                event_site(site_hash, s0),
                prune_completed_message(site),
                "runtime site prune completion events"@,
            )
        },
        RuntimePrunePassResult::Progress(summary) => {
            let s = VirtualizedSiteState { next_prune_attempt_unix: now_unix, lifecycle: kept_lifecycle(s0), ..s0 };
            &&& s1 == s
            &&& !restored
            &&& operation_after(
                ops0,
                ops1,
                site_hash,
                status_for_lifecycle(s.lifecycle, s.pending_prune),
                now_unix,
                Some(summary),
                Some(now_unix),
                false,
            )
            &&& grouped_emitted(
                l0,
                l1,
                t0,
                t1,
                now_unix,
                "runtime_site_prune_progress|"@ + summary@,
                "runtime_site_prune_progress"@,
                "info"@,
                event_site(site_hash, s0),
                prune_progress_message(site, summary@),
                "runtime site prune progress events: "@ + summary@,
            )
        },
        RuntimePrunePassResult::Pending(summary) => {
            let retry_at = sat_add(now_unix, RUNTIME_SITE_PRUNE_RETRY_SECONDS);
            let s = VirtualizedSiteState { next_prune_attempt_unix: retry_at, lifecycle: kept_lifecycle(s0), ..s0 };
            &&& s1 == s
            &&& !restored
            &&& operation_after(
                ops0,
                ops1,
                site_hash,
                status_for_lifecycle(s.lifecycle, s.pending_prune),
                now_unix,
                Some(summary),
                Some(retry_at),
                false,
            )
            &&& l1 == l0
            &&& t1 == t0
        },
        RuntimePrunePassResult::Failed(summary) => {
            &&& !restored
            &&& if !ops0.contains_key(site_hash) {
                &&& s1 == VirtualizedSiteState {
                    next_prune_attempt_unix: sat_add(now_unix, RUNTIME_SITE_PRUNE_RETRY_SECONDS),
                    ..s0
                }
                &&& ops1 == ops0
                &&& grouped_emitted(
                    l0,
                    l1,
                    t0,
                    t1,
                    now_unix,
                    "runtime_site_prune_retry|outside_tracking|"@ + summary@,
                    "runtime_site_prune_retry"@,
                    "warning"@,
                    event_site(site_hash, s0),
                    prune_untracked_message(site, summary@),
                    "runtime site prune retry events outside operation tracking: "@ + summary@,
                )
            } else {
                let attempts = bumped(ops0[site_hash].attempt_count);
                if attempts >= RUNTIME_SITE_PRUNE_MAX_ATTEMPTS {
                    &&& s1 == dirty_state(s0)
                    &&& operation_after(
                        ops0,
                        ops1,
                        site_hash,
                        RuntimeNodeOperationStatus::Dirty,
                        now_unix,
                        Some(summary),
                        None,
                        true,
                    )
                    &&& grouped_emitted(
                        l0,
                        l1,
                        t0,
                        t1,
                        now_unix,
                        "runtime_site_prune_dirty|execute_failed|"@ + summary@,
                        "runtime_site_prune_dirty"@,
                        "error"@,
                        event_site(site_hash, s0),
                        prune_dirty_message(site, attempts, summary@),
                        "runtime site prune Dirty events due to execution failure: "@ + summary@,
                    )
                } else {
                    let retry_at = sat_add(now_unix, RUNTIME_SITE_PRUNE_RETRY_SECONDS);
                    let s = VirtualizedSiteState {
                        next_prune_attempt_unix: retry_at,
                        lifecycle: kept_lifecycle(s0),
                        ..s0
                    };
                    &&& s1 == s
                    &&& operation_after(
                        ops0,
                        ops1,
                        site_hash,
                        status_for_lifecycle(s.lifecycle, s.pending_prune),
                        now_unix,
                        Some(summary),
                        Some(retry_at),
                        true,
                    )
                    &&& grouped_emitted(
                        l0,
                        l1,
                        t0,
                        t1,
                        now_unix,
                        "runtime_site_prune_retry|execute_failed|"@ + summary@,
                        "runtime_site_prune_retry"@,
                        "warning"@,
                        event_site(site_hash, s0),
                        prune_retry_message(site, attempts, summary@),
                        "runtime site prune retry events due to execution failure: "@ + summary@,
                    )
                }
            }
        },
    }
}

/// Records the result of a deferred prune pass of a node: completion ends
/// the pending prune; progress asks for an immediate new pass; a wait
/// retries in [`RUNTIME_SITE_PRUNE_RETRY_SECONDS`]; a failure counts an
/// attempt and marks the node Dirty after [`RUNTIME_SITE_PRUNE_MAX_ATTEMPTS`]
/// (see [`prune_pass_outcome`]). Returns whether a restored node has finished
/// cleaning up and can be forgotten.
pub fn apply_runtime_prune_pass_result(
    site_hash: i64,
    state: &mut VirtualizedSiteState,
    operations: &mut HashMap<i64, RuntimeNodeOperation>,
    result: RuntimePrunePassResult,
    now_unix: u64,
    grouped: &mut GroupedBakeryEventLimiter,
    telemetry: &mut BakeryTelemetryState,
) -> (restored: bool)
    requires
        old(grouped).wf(),
        old(telemetry).wf(),
    ensures
        final(grouped).wf(),
        final(telemetry).wf(),
        prune_pass_outcome(
            site_hash,
            *old(state),
            *final(state),
            old(operations)@,
            final(operations)@,
            result,
            now_unix,
            *old(grouped),
            *final(grouped),
            *old(telemetry),
            *final(telemetry),
            restored,
        ),
{
    let ghost ops0 = operations@;
    let site_name = state.site_name.clone();
    let display = runtime_site_display_name(site_hash, Some(site_name.as_str()));
    match result {
        RuntimePrunePassResult::Completed => {
            state.pending_prune = false;
            state.next_prune_attempt_unix = 0;
            state.lifecycle = preserve_cutover_pending_or_lifecycle_from_active_branch(state);
            match operations.remove(&site_hash) {
                Some(mut op) => {
                    op.update_status(runtime_status_for_virtualized_state(state), now_unix, None, None);
                    operations.insert(site_hash, op);
                    assert(operations@ =~= ops0.insert(site_hash, operations@[site_hash]));
                },
                None => {
                    assert(operations@ =~= ops0);
                },
            }
            let mut message = owned("Deferred runtime site prune completed for site ");
            append_str(&mut message, display.as_str());
            append_str(&mut message, ".");
            grouped.emit_with_site_name(
                telemetry,
                now_unix,
                owned("runtime_site_prune_completed|completed"),
                "runtime_site_prune_completed",
                "info",
                Some((site_hash, Some(site_name))),
                message,
                owned("runtime site prune completion events"),
            );
            !state.active_branch_hides_original_site()
        },
        RuntimePrunePassResult::Progress(summary) => {
            state.next_prune_attempt_unix = now_unix;
            state.lifecycle = preserve_cutover_pending_or_lifecycle_from_active_branch(state);
            match operations.remove(&site_hash) {
                Some(mut op) => {
                    op.update_status(
                        runtime_status_for_virtualized_state(state),
                        now_unix,
                        Some(summary.clone()),
                        Some(now_unix),
                    );
                    operations.insert(site_hash, op);
                    assert(operations@ =~= ops0.insert(site_hash, operations@[site_hash]));
                },
                None => {
                    assert(operations@ =~= ops0);
                },
            }
            let mut message = owned("Deferred runtime site prune for site ");
            append_str(&mut message, display.as_str());
            append_str(&mut message, " made progress: ");
            append_str(&mut message, summary.as_str());
            grouped.emit_with_site_name(
                telemetry,
                now_unix,
                concat("runtime_site_prune_progress|", summary.as_str()),
                "runtime_site_prune_progress",
                "info",
                Some((site_hash, Some(site_name))),
                message,
                concat("runtime site prune progress events: ", summary.as_str()),
            );
            false
        },
        RuntimePrunePassResult::Pending(summary) => {
            let retry_at = now_unix.saturating_add(RUNTIME_SITE_PRUNE_RETRY_SECONDS);
            state.next_prune_attempt_unix = retry_at;
            state.lifecycle = preserve_cutover_pending_or_lifecycle_from_active_branch(state);
            match operations.remove(&site_hash) {
                Some(mut op) => {
                    op.update_status(
                        runtime_status_for_virtualized_state(state),
                        now_unix,
                        Some(summary),
                        Some(retry_at),
                    );
                    operations.insert(site_hash, op);
                    assert(operations@ =~= ops0.insert(site_hash, operations@[site_hash]));
                },
                None => {
                    assert(operations@ =~= ops0);
                },
            }
            false
        },
        RuntimePrunePassResult::Failed(summary) => {
            match operations.remove(&site_hash) {
                Some(mut op) => {
                    op.attempt_count = op.attempt_count.saturating_add(1);
                    let attempts = op.attempt_count;
                    let attempts_text = dec_string(attempts as u64);
                    if attempts >= RUNTIME_SITE_PRUNE_MAX_ATTEMPTS {
                        state.pending_prune = false;
                        state.next_prune_attempt_unix = 0;
                        state.lifecycle = RuntimeVirtualizedBranchLifecycle::Failed;
                        op.update_status(
                            runtime_status_for_virtualized_state(state),
                            now_unix,
                            Some(summary.clone()),
                            None,
                        );
                        operations.insert(site_hash, op);
                        assert(operations@ =~= ops0.insert(site_hash, operations@[site_hash]));
                        let mut message = owned("Deferred runtime site prune for site ");
                        append_str(&mut message, display.as_str());
                        append_str(&mut message, " marked Dirty after ");
                        append_str(&mut message, attempts_text.as_str());
                        append_str(&mut message, " attempts: ");
                        append_str(&mut message, summary.as_str());
                        grouped.emit_with_site_name(
                            telemetry,
                            now_unix,
                            concat("runtime_site_prune_dirty|execute_failed|", summary.as_str()),
                            "runtime_site_prune_dirty",
                            "error",
                            Some((site_hash, Some(site_name))),
                            message,
                            concat("runtime site prune Dirty events due to execution failure: ", summary.as_str()),
                        );
                    } else {
                        let retry_at = now_unix.saturating_add(RUNTIME_SITE_PRUNE_RETRY_SECONDS);
                        state.next_prune_attempt_unix = retry_at;
                        state.lifecycle = preserve_cutover_pending_or_lifecycle_from_active_branch(state);
                        op.update_status(
                            runtime_status_for_virtualized_state(state),
                            now_unix,
                            Some(summary.clone()),
                            Some(retry_at),
                        );
                        operations.insert(site_hash, op);
                        assert(operations@ =~= ops0.insert(site_hash, operations@[site_hash]));
                        let mut message = owned("Deferred runtime site prune retry ");
                        append_str(&mut message, attempts_text.as_str());
                        append_str(&mut message, "/");
                        append_str(&mut message, dec_string(RUNTIME_SITE_PRUNE_MAX_ATTEMPTS as u64).as_str());
                        append_str(&mut message, " for site ");
                        append_str(&mut message, display.as_str());
                        append_str(&mut message, " failed: ");
                        append_str(&mut message, summary.as_str());
                        grouped.emit_with_site_name(
                            telemetry,
                            now_unix,
                            concat("runtime_site_prune_retry|execute_failed|", summary.as_str()),
                            "runtime_site_prune_retry",
                            "warning",
                            Some((site_hash, Some(site_name))),
                            message,
                            concat("runtime site prune retry events due to execution failure: ", summary.as_str()),
                        );
                    }
                },
                None => {
                    assert(operations@ =~= ops0);
                    state.next_prune_attempt_unix = now_unix.saturating_add(RUNTIME_SITE_PRUNE_RETRY_SECONDS);
                    let mut message = owned("Deferred runtime site prune for site ");
                    append_str(&mut message, display.as_str());
                    append_str(&mut message, " failed outside operation tracking: ");
                    append_str(&mut message, summary.as_str());
                    grouped.emit_with_site_name(
                        telemetry,
                        now_unix,
                        concat("runtime_site_prune_retry|outside_tracking|", summary.as_str()),
                        "runtime_site_prune_retry",
                        "warning",
                        Some((site_hash, Some(site_name))),
                        message,
                        concat("runtime site prune retry events outside operation tracking: ", summary.as_str()),
                    );
                },
            }
            false
        },
    }
}

/// `down` or `up`, the direction whose snapshot failed.
pub open spec fn snapshot_direction(uplink: bool) -> Seq<char> {
    if uplink {
        "up"@
    } else {
        "down"@
    }
}

/// `downlink` or `uplink`.
pub open spec fn snapshot_link(uplink: bool) -> Seq<char> {
    if uplink {
        "uplink"@
    } else {
        "downlink"@
    }
}

/// `Deferred runtime site prune for site <s> marked Dirty after snapshot failure: <summary>`
pub open spec fn snapshot_dirty_message(site: Seq<char>, summary: Seq<char>) -> Seq<char> {
    "Deferred runtime site prune for site "@ + site + " marked Dirty after snapshot failure: "@ + summary
}

/// `Deferred runtime site prune retry <n>/<max> for site <s> postponed: <summary>`
pub open spec fn snapshot_retry_message(site: Seq<char>, attempts: u32, summary: Seq<char>) -> Seq<char> {
    "Deferred runtime site prune retry "@ + dec_seq(attempts as nat) + "/"@ + dec_seq(
        RUNTIME_SITE_PRUNE_MAX_ATTEMPTS as nat,
    ) + " for site "@ + site + " postponed: "@ + summary
}

/// What a failed read of the live classes does to a node that was due for a
/// prune (see [`apply_runtime_prune_snapshot_failure`]).
pub open spec fn snapshot_failure_outcome(
    site_hash: i64,
    s0: VirtualizedSiteState,
    s1: VirtualizedSiteState,
    ops0: Map<i64, RuntimeNodeOperation>,
    ops1: Map<i64, RuntimeNodeOperation>,
    uplink: bool,
    summary: String,
    now_unix: u64,
    l0: GroupedBakeryEventLimiter,
    l1: GroupedBakeryEventLimiter,
    t0: BakeryTelemetryState,
    t1: BakeryTelemetryState,
) -> bool {
    let site = node_display(site_hash, s0);
    let retry_at = sat_add(now_unix, RUNTIME_SITE_PRUNE_RETRY_SECONDS);
    if !ops0.contains_key(site_hash) {
        &&& s1 == VirtualizedSiteState { next_prune_attempt_unix: retry_at, ..s0 }
        &&& ops1 == ops0
        &&& l1 == l0
        &&& t1 == t0
    } else {
        let attempts = bumped(ops0[site_hash].attempt_count);
        if attempts >= RUNTIME_SITE_PRUNE_MAX_ATTEMPTS {
            &&& s1 == dirty_state(s0)
            &&& operation_after(
                ops0,
                ops1,
                site_hash,
                RuntimeNodeOperationStatus::Dirty,
                now_unix,
                Some(summary),
                None,
                true,
            )
            &&& grouped_emitted(
                l0,
                l1,
                t0,
                t1,
                now_unix,
                "runtime_site_prune_dirty|"@ + snapshot_direction(uplink) + "_snapshot|"@ + summary@,
                "runtime_site_prune_dirty"@,
                "error"@,
                event_site(site_hash, s0),
                snapshot_dirty_message(site, summary@),
                "runtime site prune Dirty events due to "@ + snapshot_link(uplink) + " snapshot failure: "@
                    + summary@,
            )
        } else {
            let s = VirtualizedSiteState {
                next_prune_attempt_unix: retry_at,
                lifecycle: kept_lifecycle(s0),
                ..s0
            };
            &&& s1 == s
            &&& operation_after(
                ops0,
                ops1,
                site_hash,
                status_for_lifecycle(s.lifecycle, s.pending_prune),
                now_unix,
                Some(summary),
                Some(retry_at),
                true,
            )
            &&& grouped_emitted(
                l0,
                l1,
                t0,
                t1,
                now_unix,
                "runtime_site_prune_retry|"@ + snapshot_direction(uplink) + "_snapshot|"@ + summary@,
                "runtime_site_prune_retry"@,
                "warning"@,
                event_site(site_hash, s0),
                snapshot_retry_message(site, attempts, summary@),
                "runtime site prune retry events due to "@ + snapshot_link(uplink) + " snapshot failure: "@
                    + summary@,
            )
        }
    }
}

/// Records that the live classes of one direction (`uplink` or downlink)
/// could not be read for a node whose deferred prune was due: the node is
/// retried in [`RUNTIME_SITE_PRUNE_RETRY_SECONDS`]; a tracked operation
/// counts an attempt and, after [`RUNTIME_SITE_PRUNE_MAX_ATTEMPTS`], the
/// node is marked Dirty (see [`snapshot_failure_outcome`]).
pub fn apply_runtime_prune_snapshot_failure(
    site_hash: i64,
    state: &mut VirtualizedSiteState,
    operations: &mut HashMap<i64, RuntimeNodeOperation>,
    uplink: bool,
    summary: String,
    now_unix: u64,
    grouped: &mut GroupedBakeryEventLimiter,
    telemetry: &mut BakeryTelemetryState,
)
    requires
        old(grouped).wf(),
        old(telemetry).wf(),
    ensures
        final(grouped).wf(),
        final(telemetry).wf(),
        snapshot_failure_outcome(
            site_hash,
            *old(state),
            *final(state),
            old(operations)@,
            final(operations)@,
            uplink,
            summary,
            now_unix,
            *old(grouped),
            *final(grouped),
            *old(telemetry),
            *final(telemetry),
        ),
{
    let ghost ops0 = operations@;
    let site_name = state.site_name.clone();
    let display = runtime_site_display_name(site_hash, Some(site_name.as_str()));
    let direction = if uplink { "up" } else { "down" };
    let link = if uplink { "uplink" } else { "downlink" };
    proof {
        reveal_strlit("up");
        reveal_strlit("down");
        reveal_strlit("uplink");
        reveal_strlit("downlink");
    }
    let retry_at = now_unix.saturating_add(RUNTIME_SITE_PRUNE_RETRY_SECONDS);
    state.next_prune_attempt_unix = retry_at;
    match operations.remove(&site_hash) {
        Some(mut op) => {
            op.attempt_count = op.attempt_count.saturating_add(1);
            let attempts = op.attempt_count;
            if attempts >= RUNTIME_SITE_PRUNE_MAX_ATTEMPTS {
                state.pending_prune = false;
                state.next_prune_attempt_unix = 0;
                state.lifecycle = RuntimeVirtualizedBranchLifecycle::Failed;
                op.update_status(
                    runtime_status_for_virtualized_state(state),
                    now_unix,
                    Some(summary.clone()),
                    None,
                );
                operations.insert(site_hash, op);
                assert(operations@ =~= ops0.insert(site_hash, operations@[site_hash]));
                let mut key = owned("runtime_site_prune_dirty|");
                append_str(&mut key, direction);
                append_str(&mut key, "_snapshot|");
                append_str(&mut key, summary.as_str());
                let mut message = owned("Deferred runtime site prune for site ");
                append_str(&mut message, display.as_str());
                append_str(&mut message, " marked Dirty after snapshot failure: ");
                append_str(&mut message, summary.as_str());
                let mut group = owned("runtime site prune Dirty events due to ");
                append_str(&mut group, link);
                append_str(&mut group, " snapshot failure: ");
                append_str(&mut group, summary.as_str());
                grouped.emit_with_site_name(
                    telemetry,
                    now_unix,
                    key,
                    "runtime_site_prune_dirty",
                    "error",
                    Some((site_hash, Some(site_name))),
                    message,
                    group,
                );
            } else {
                state.lifecycle = preserve_cutover_pending_or_lifecycle_from_active_branch(state);
                op.update_status(
                    runtime_status_for_virtualized_state(state),
                    now_unix,
                    Some(summary.clone()),
                    Some(retry_at),
                );
                operations.insert(site_hash, op);
                assert(operations@ =~= ops0.insert(site_hash, operations@[site_hash]));
                let mut key = owned("runtime_site_prune_retry|");
                append_str(&mut key, direction);
                append_str(&mut key, "_snapshot|");
                append_str(&mut key, summary.as_str());
                let mut message = owned("Deferred runtime site prune retry ");
                append_str(&mut message, dec_string(attempts as u64).as_str());
                append_str(&mut message, "/");
                append_str(&mut message, dec_string(RUNTIME_SITE_PRUNE_MAX_ATTEMPTS as u64).as_str());
                append_str(&mut message, " for site ");
                append_str(&mut message, display.as_str());
                append_str(&mut message, " postponed: ");
                append_str(&mut message, summary.as_str());
                let mut group = owned("runtime site prune retry events due to ");
                append_str(&mut group, link);
                append_str(&mut group, " snapshot failure: ");
                append_str(&mut group, summary.as_str());
                grouped.emit_with_site_name(
                    telemetry,
                    now_unix,
                    key,
                    "runtime_site_prune_retry",
                    "warning",
                    Some((site_hash, Some(site_name))),
                    message,
                    group,
                );
            }
        },
        None => {
            assert(operations@ =~= ops0);
        },
    }
}

} // verus!
