//! The stages of a live circuit migration that decide from what was
//! observed: checking that a new class is live, moving the circuit's
//! addresses onto it, and the teardown of the temporary shadow class.
use vstd::prelude::*;
use std::collections::HashMap;
use crate::commands::{same_command, to_prune_spec, BakeryCommands};
use crate::config::BakeryConfig;
use crate::ip_mapping::{remap_migration_ips, remapped_map, IpFlowTable, IpMappingState};
use crate::migration::{
    branch_ready, branch_summary, build_temp_add_cmd, migration_label, migration_target_label,
    Migration, MigrationBranchVerification, MigrationStage, MIGRATION_VERIFICATION_MAX_RETRIES,
};
use crate::commands::{clone_exact, opt_view};
use crate::tc_handle::{handle_value, TcHandle};
use crate::telemetry::{mark_reload_required, BakeryTelemetryState};
use crate::text::{append_str, owned};

verus! {

broadcast use vstd::std_specs::hash::group_hash_axioms;

/// `. A full reload is now required before further incremental topology mutations.`
pub open spec fn reload_suffix() -> Seq<char> {
    ". A full reload is now required before further incremental topology mutations."@
}

/// `final` or `shadow`.
pub open spec fn phase_word(final_phase: bool) -> Seq<char> {
    if final_phase {
        "final"@
    } else {
        "shadow"@
    }
}

/// `Bakery live-move <phase> verification failed for <label>: <error>. A full reload ...`
pub open spec fn verification_error_reason(final_phase: bool, label: Seq<char>, error: Seq<char>) -> Seq<char> {
    "Bakery live-move "@ + phase_word(final_phase) + " verification failed for "@ + label + ": "@ + error
        + reload_suffix()
}

/// `Bakery live-move <phase> verification did not find the expected <phase> class/qdisc for <label>: <summary>. A full reload ...`
pub open spec fn verification_missing_reason(final_phase: bool, label: Seq<char>, summary: Seq<char>) -> Seq<
    char,
> {
    "Bakery live-move "@ + phase_word(final_phase) + " verification did not find the expected "@ + phase_word(
        final_phase,
    ) + " class/qdisc for "@ + label + ": "@ + summary + reload_suffix()
}

/// `Bakery live-move <phase> remap failed for <label>: <summary>. A full reload ...`
pub open spec fn remap_failed_reason(final_phase: bool, label: Seq<char>, summary: Seq<char>) -> Seq<char> {
    "Bakery live-move "@ + phase_word(final_phase) + " remap failed for "@ + label + ": "@ + summary
        + reload_suffix()
}

/// The migration stopped and a full reload became required for `reason`.
pub open spec fn abandoned(
    m0: Migration,
    m1: Migration,
    t0: BakeryTelemetryState,
    t1: BakeryTelemetryState,
    reason: Seq<char>,
) -> bool {
    &&& m1 == Migration { stage: MigrationStage::Done, ..m0 }
    &&& t1.wf()
    &&& t1.reload_required
    &&& opt_view(t1.reload_required_reason) == Some(reason)
    &&& t1.same_except_reload(&t0)
}

/// What checking a new class does to a migration waiting on it (see
/// [`advance_migration_verification`]); other stages are left alone.
pub open spec fn verification_outcome(
    m0: Migration,
    m1: Migration,
    t0: BakeryTelemetryState,
    t1: BakeryTelemetryState,
    verification: Result<MigrationBranchVerification, String>,
) -> bool {
    let final_phase = m0.stage == MigrationStage::VerifyFinalReady;
    let attempts = if final_phase {
        m0.final_verify_attempts
    } else {
        m0.shadow_verify_attempts
    };
    let label = migration_label(m0);
    if m0.stage != MigrationStage::VerifyShadowReady && m0.stage != MigrationStage::VerifyFinalReady {
        m1 == m0 && t1 == t0
    } else {
        match verification {
            Err(e) => abandoned(m0, m1, t0, t1, verification_error_reason(final_phase, label, e@)),
            Ok(v) => if branch_ready(v) {
                &&& t1 == t0
                &&& m1 == if final_phase {
                    Migration { stage: MigrationStage::SwapToFinal, final_verify_attempts: 0, ..m0 }
                } else {
                    Migration { stage: MigrationStage::SwapToShadow, shadow_verify_attempts: 0, ..m0 }
                }
            } else if attempts < MIGRATION_VERIFICATION_MAX_RETRIES {
                &&& t1 == t0
                &&& m1 == if final_phase {
                    Migration { final_verify_attempts: (attempts + 1) as u8, ..m0 }
                } else {
                    Migration { shadow_verify_attempts: (attempts + 1) as u8, ..m0 }
                }
            } else {
                abandoned(m0, m1, t0, t1, verification_missing_reason(final_phase, label, branch_summary(v)))
            },
        }
    }
}

/// `Bakery live-move <phase> <what> for <label>: <detail><suffix>` as a string.
fn live_move_reason(phase: &str, what: &str, label: &str, detail: &str) -> (r: String)
    ensures
        r@ == "Bakery live-move "@ + phase@ + what@ + label@ + ": "@ + detail@ + reload_suffix(),
{
    let mut s = owned("Bakery live-move ");
    append_str(&mut s, phase);
    append_str(&mut s, what);
    append_str(&mut s, label);
    append_str(&mut s, ": ");
    append_str(&mut s, detail);
    append_str(&mut s, ". A full reload is now required before further incremental topology mutations.");
    s
}

/// Judges a check of the class a migration waits for (shadow or final):
/// a failed read abandons the migration; a live class moves it on to the
/// swap; a missing one is retried up to [`MIGRATION_VERIFICATION_MAX_RETRIES`]
/// times, then abandons it. Abandoning requires a full reload (see
/// [`verification_outcome`]).
pub fn advance_migration_verification(
    mig: &mut Migration,
    verification: Result<MigrationBranchVerification, String>,
    telemetry: &mut BakeryTelemetryState,
    now_unix: u64,
)
    requires
        old(telemetry).wf(),
    ensures
        final(telemetry).wf(),
        verification_outcome(*old(mig), *final(mig), *old(telemetry), *final(telemetry), verification),
{
    if mig.stage != MigrationStage::VerifyShadowReady && mig.stage != MigrationStage::VerifyFinalReady {
        return;
    }
    let final_phase = mig.stage == MigrationStage::VerifyFinalReady;
    let phase = if final_phase { "final" } else { "shadow" };
    proof {
        reveal_strlit("final");
        reveal_strlit("shadow");
        reveal_strlit(" verification failed for ");
        reveal_strlit(" verification did not find the expected final class/qdisc for ");
        reveal_strlit(" verification did not find the expected shadow class/qdisc for ");
    }
    let label = migration_target_label(mig);
    let reason = match &verification {
        Err(e) => Some(live_move_reason(phase, " verification failed for ", label.as_str(), e.as_str())),
        Ok(v) => {
            let attempts = if final_phase {
                mig.final_verify_attempts
            } else {
                mig.shadow_verify_attempts
            };
            if v.ready() {
                if final_phase {
                    mig.stage = MigrationStage::SwapToFinal;
                    mig.final_verify_attempts = 0;
                } else {
                    mig.stage = MigrationStage::SwapToShadow;
                    mig.shadow_verify_attempts = 0;
                }
                None
            } else if attempts < MIGRATION_VERIFICATION_MAX_RETRIES {
                if final_phase {
                    mig.final_verify_attempts = attempts + 1;
                } else {
                    mig.shadow_verify_attempts = attempts + 1;
                }
                None
            } else {
                let what = if final_phase {
                    " verification did not find the expected final class/qdisc for "
                } else {
                    " verification did not find the expected shadow class/qdisc for "
                };
                let summary = v.summary();
                proof {
                    reveal_strlit(" verification did not find the expected ");
                    reveal_strlit(" class/qdisc for ");
                    assert(what@ =~= " verification did not find the expected "@ + phase@ + " class/qdisc for "@);
                }
                let r = live_move_reason(phase, what, label.as_str(), summary.as_str());
                assert(r@ =~= verification_missing_reason(final_phase, label@, summary@));
                Some(r)
            }
        },
    };
    if let Some(reason) = reason {
        mark_reload_required(telemetry, now_unix, reason);
        mig.stage = MigrationStage::Done;
    }
}

/// What the outcome of moving a migration's addresses does (see
/// [`apply_migration_swap_result`]); stages other than the two swaps are
/// left alone.
pub open spec fn swap_outcome(
    m0: Migration,
    m1: Migration,
    c0: Map<i64, BakeryCommands>,
    c1: Map<i64, BakeryCommands>,
    t0: BakeryTelemetryState,
    t1: BakeryTelemetryState,
    result: Result<(), String>,
    changed: bool,
) -> bool {
    let final_phase = m0.stage == MigrationStage::SwapToFinal;
    if m0.stage != MigrationStage::SwapToShadow && m0.stage != MigrationStage::SwapToFinal {
        m1 == m0 && c1 == c0 && t1 == t0 && !changed
    } else {
        match result {
            Err(e) => {
                &&& abandoned(m0, m1, t0, t1, remap_failed_reason(final_phase, migration_label(m0), e@))
                &&& c1 == c0
                &&& !changed
            },
            Ok(()) => {
                &&& t1 == t0
                &&& if final_phase {
                    &&& m1 == Migration { stage: MigrationStage::TeardownMigrationScaffold, ..m0 }
                    &&& c1 == c0.insert(m0.circuit_hash, c1[m0.circuit_hash])
                    &&& same_command(c1[m0.circuit_hash], m0.desired_cmd)
                    &&& changed
                } else {
                    &&& m1 == Migration { stage: MigrationStage::BuildFinal, ..m0 }
                    &&& c1 == c0
                    &&& !changed
                }
            },
        }
    }
}

/// Judges the move of a migration's addresses onto its shadow or final
/// class: a failure abandons the migration (a full reload is required);
/// after the shadow swap the final class is built next; after the final
/// swap the circuit's desired command becomes its effective one and the
/// shadow is torn down. Returns whether the effective circuits changed.
pub fn apply_migration_swap_result(
    mig: &mut Migration,
    result: Result<(), String>,
    circuits: &mut HashMap<i64, BakeryCommands>,
    telemetry: &mut BakeryTelemetryState,
    now_unix: u64,
) -> (changed: bool)
    requires
        old(telemetry).wf(),
    ensures
        final(telemetry).wf(),
        swap_outcome(
            *old(mig),
            *final(mig),
            old(circuits)@,
            final(circuits)@,
            *old(telemetry),
            *final(telemetry),
            result,
            changed,
        ),
{
    if mig.stage != MigrationStage::SwapToShadow && mig.stage != MigrationStage::SwapToFinal {
        return false;
    }
    let final_phase = mig.stage == MigrationStage::SwapToFinal;
    let phase = if final_phase { "final" } else { "shadow" };
    proof {
        reveal_strlit("final");
        reveal_strlit("shadow");
        reveal_strlit(" remap failed for ");
    }
    match result {
        Err(e) => {
            let label = migration_target_label(mig);
            let reason = live_move_reason(phase, " remap failed for ", label.as_str(), e.as_str());
            mark_reload_required(telemetry, now_unix, reason);
            mig.stage = MigrationStage::Done;
            false
        },
        Ok(()) => {
            if final_phase {
                circuits.insert(mig.circuit_hash, mig.desired_cmd.duplicate());
                mig.stage = MigrationStage::TeardownMigrationScaffold;
                true
            } else {
                mig.stage = MigrationStage::BuildFinal;
                false
            }
        },
    }
}

/// Runs a swap stage: moves the migration's addresses onto its shadow (or
/// final) class through the kernel's IP table, then judges the outcome as
/// [`apply_migration_swap_result`] does. When the move succeeded the
/// record holds the new mappings. Returns whether the effective circuits
/// changed.
pub fn advance_migration_swap<T: IpFlowTable>(
    mig: &mut Migration,
    mappings: &mut IpMappingState,
    table: &mut T,
    circuits: &mut HashMap<i64, BakeryCommands>,
    telemetry: &mut BakeryTelemetryState,
    now_unix: u64,
) -> (changed: bool)
    requires
        old(telemetry).wf(),
        old(mappings).wf(),
    ensures
        final(telemetry).wf(),
        final(mappings).wf(),
        final(mappings).staged == old(mappings).staged,
        final(mappings).unknown == old(mappings).unknown,
        final(mappings).seeded == old(mappings).seeded,
        old(mig).stage != MigrationStage::SwapToShadow && old(mig).stage != MigrationStage::SwapToFinal
            ==> *final(mappings) == *old(mappings),
        exists|result: Result<(), String>|
            #[trigger] swap_outcome(
                *old(mig),
                *final(mig),
                old(circuits)@,
                final(circuits)@,
                *old(telemetry),
                *final(telemetry),
                result,
                changed,
            ) && (result is Ok ==> final(mappings).current_map() == remapped_map(
                old(mappings).current_map(),
                old(mig).ips@,
                TcHandle(
                    handle_value(
                        old(mig).class_major,
                        if old(mig).stage == MigrationStage::SwapToFinal {
                            old(mig).final_minor
                        } else {
                            old(mig).shadow_minor
                        },
                    ),
                ),
            )),
{
    if mig.stage != MigrationStage::SwapToShadow && mig.stage != MigrationStage::SwapToFinal {
        let untouched = Err(String::new());
        let ghost witness = untouched;
        let changed = apply_migration_swap_result(mig, untouched, circuits, telemetry, now_unix);
        assert(swap_outcome(
            *old(mig),
            *mig,
            old(circuits)@,
            circuits@,
            *old(telemetry),
            *telemetry,
            witness,
            changed,
        ));
        return changed;
    }
    let target_minor = if mig.stage == MigrationStage::SwapToFinal {
        mig.final_minor
    } else {
        mig.shadow_minor
    };
    let result = remap_migration_ips(mig, target_minor, mappings, table);
    let ghost res = result;
    let changed = apply_migration_swap_result(mig, result, circuits, telemetry, now_unix);
    assert(swap_outcome(
        *old(mig),
        *mig,
        old(circuits)@,
        circuits@,
        *old(telemetry),
        *telemetry,
        res,
        changed,
    ));
    changed
}

/// The temporary shadow circuit of a migration: its old rates under the
/// new parents, on the shadow minor, without leaf qdisc handles.
pub open spec fn is_scaffold_of(c: BakeryCommands, m: Migration) -> bool {
    c matches BakeryCommands::AddCircuit {
        circuit_hash,
        parent_class_id,
        up_parent_class_id,
        class_minor,
        class_major,
        up_class_major,
        sqm_override,
        ..
    } && circuit_hash == m.circuit_hash && parent_class_id == m.parent_class_id && up_parent_class_id
        == m.up_parent_class_id && class_minor == m.shadow_minor && class_major == m.class_major
        && up_class_major == m.up_class_major && sqm_override == m.sqm_override
}

/// The deletions that tear down a migration's shadow circuit.
pub fn migration_scaffold_prune_commands(mig: &Migration, config: &BakeryConfig) -> (r: Vec<Vec<String>>)
    ensures
        exists|c: BakeryCommands|
            is_scaffold_of(c, *mig) && to_prune_spec(c, *config, true) == Some(r.deep_view()),
{
    let base = BakeryCommands::AddCircuit {
        circuit_hash: mig.circuit_hash,
        circuit_name: clone_exact(&mig.circuit_name),
        site_name: clone_exact(&mig.site_name),
        parent_class_id: mig.parent_class_id,
        up_parent_class_id: mig.up_parent_class_id,
        class_minor: mig.shadow_minor,
        download_bandwidth_min: mig.old_down_min,
        upload_bandwidth_min: mig.old_up_min,
        download_bandwidth_max: mig.old_down_max,
        upload_bandwidth_max: mig.old_up_max,
        class_major: mig.class_major,
        up_class_major: mig.up_class_major,
        down_qdisc_handle: None,
        up_qdisc_handle: None,
        ip_addresses: String::new(),
        sqm_override: clone_exact(&mig.sqm_override),
    };
    match build_temp_add_cmd(
        &base,
        mig.shadow_minor,
        mig.old_down_min,
        mig.old_down_max,
        mig.old_up_min,
        mig.old_up_max,
        false,
    ) {
        Some(shadow) => match shadow.to_prune(config, true) {
            Some(commands) => {
                assert(is_scaffold_of(shadow, *mig));
                commands
            },
            None => {
                assert(false);
                Vec::new()
            },
        },
        None => {
            assert(false);
            Vec::new()
        },
    }
}

} // verus!
