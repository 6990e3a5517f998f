//! Properties of the change classification and of the `tc` commands built
//! for circuits, stated over the commands' fields.
use vstd::prelude::*;
use crate::circuit_add::{add_circuit_argvs, add_site_argvs, CircuitRateStrings, SiteRateStrings};
use crate::lazy_queues::{expire_after, tick_outcome};
use crate::deferred_prune::{bumped, cutover_outcome, prune_pass_outcome};
use crate::subtree_prune::RuntimePrunePassResult;
use crate::grouped_events::GroupedBakeryEventLimiter;
use crate::telemetry::BakeryTelemetryState;
use crate::runtime::{RuntimeNodeOperation, VirtualizedSiteState, RUNTIME_SITE_PRUNE_MAX_ATTEMPTS};
use crate::live_tc::LiveTcClassEntry;
use crate::live_verify::shadow_active_outcome;
use crate::prune::parent_matches;
use crate::tc_handle::{handle_value, TcHandle};
use crate::mq_setup::{mq_queue_argvs, mq_queues_argvs, mq_setup_argvs, MqDirectionRates};
use crate::commands::{class_del_argv, opt_view, to_prune_spec, BakeryCommands, ExecutionMode, RuntimeNodeOperationStatus};
use crate::config::{BakeryConfig, LazyQueueMode};
use crate::diff::circuits::{categories_match, circuit_change, circuits_differ, CircuitChange, CircuitDiffCategories};
use crate::diff::sites::{site_diff_matches, site_speed_change, structurally_different, SiteDiffResult};
use crate::runtime::{
    lifecycle_for, status_for_lifecycle, status_in_flight, RuntimeVirtualizedActiveBranch,
    RuntimeVirtualizedBranchLifecycle,
};

verus! {

/// Two circuits hold the same place in the class tree: the same parents,
/// minor and majors.
pub open spec fn same_circuit_place(a: BakeryCommands, b: BakeryCommands) -> bool {
    &&& a->AddCircuit_parent_class_id == b->AddCircuit_parent_class_id
    &&& a->AddCircuit_up_parent_class_id == b->AddCircuit_up_parent_class_id
    &&& a->AddCircuit_class_minor == b->AddCircuit_class_minor
    &&& a->AddCircuit_class_major == b->AddCircuit_class_major
    &&& a->AddCircuit_up_class_major == b->AddCircuit_up_class_major
}

/// Two circuits differ in some rate (any of the four) or in their SQM
/// override.
pub open spec fn circuit_rates_differ(a: BakeryCommands, b: BakeryCommands) -> bool {
    ||| a->AddCircuit_download_bandwidth_min != b->AddCircuit_download_bandwidth_min
    ||| a->AddCircuit_upload_bandwidth_min != b->AddCircuit_upload_bandwidth_min
    ||| a->AddCircuit_download_bandwidth_max != b->AddCircuit_download_bandwidth_max
    ||| a->AddCircuit_upload_bandwidth_max != b->AddCircuit_upload_bandwidth_max
    ||| opt_view(a->AddCircuit_sqm_override) != opt_view(b->AddCircuit_sqm_override)
}

/// A circuit that keeps its place in the class tree is never a migration:
/// it is a speed change (alone or with an IP change) exactly when a rate or
/// the SQM override differs, and an IP change (alone or with a speed change)
/// exactly when its IP list differs.
pub proof fn law_circuit_changes_in_place_follow_the_changed_fields(a: BakeryCommands, b: BakeryCommands)
    requires
        a is AddCircuit,
        b is AddCircuit,
        same_circuit_place(a, b),
    ensures
        circuit_change(a, b) != CircuitChange::Migration,
        (circuit_change(a, b) == CircuitChange::Speed || circuit_change(a, b) == CircuitChange::SpeedAndIp)
            <==> circuit_rates_differ(a, b),
        (circuit_change(a, b) == CircuitChange::Ip || circuit_change(a, b) == CircuitChange::SpeedAndIp)
            <==> a->AddCircuit_ip_addresses@ != b->AddCircuit_ip_addresses@,
        circuit_change(a, b) == CircuitChange::Unchanged <==> !circuit_rates_differ(a, b)
            && a->AddCircuit_ip_addresses@ == b->AddCircuit_ip_addresses@,
{
}

/// A circuit that moves to other parents, minor or majors is a migration,
/// whatever else changed.
pub proof fn law_circuit_that_moves_is_a_migration(a: BakeryCommands, b: BakeryCommands)
    requires
        a is AddCircuit,
        b is AddCircuit,
        !same_circuit_place(a, b),
    ensures
        circuit_change(a, b) == CircuitChange::Migration,
{
}

/// For two versions of a site, a speed change is reported exactly when one
/// of the four rates differs; it is the old site (hash, parents, minor) with
/// the new site's four rates.
pub proof fn law_site_speed_change_carries_the_new_rates(old: BakeryCommands, new: BakeryCommands)
    requires
        old is AddSite,
        new is AddSite,
        old->AddSite_site_hash == new->AddSite_site_hash,
    ensures
        site_speed_change(old, new) is Some <==> (old->AddSite_download_bandwidth_min
            != new->AddSite_download_bandwidth_min || old->AddSite_upload_bandwidth_min
            != new->AddSite_upload_bandwidth_min || old->AddSite_download_bandwidth_max
            != new->AddSite_download_bandwidth_max || old->AddSite_upload_bandwidth_max
            != new->AddSite_upload_bandwidth_max),
        site_speed_change(old, new) matches Some(c) ==> {
            &&& c is AddSite
            &&& c->AddSite_site_hash == old->AddSite_site_hash
            &&& c->AddSite_parent_class_id == old->AddSite_parent_class_id
            &&& c->AddSite_up_parent_class_id == old->AddSite_up_parent_class_id
            &&& c->AddSite_class_minor == old->AddSite_class_minor
            &&& c->AddSite_download_bandwidth_min == new->AddSite_download_bandwidth_min
            &&& c->AddSite_upload_bandwidth_min == new->AddSite_upload_bandwidth_min
            &&& c->AddSite_download_bandwidth_max == new->AddSite_download_bandwidth_max
            &&& c->AddSite_upload_bandwidth_max == new->AddSite_upload_bandwidth_max
        },
{
}

/// Each HTB class a circuit build emits is shaped by its own direction's
/// rates: a class on the ISP-facing interface carries the download rate,
/// ceiling and quantum, one on the Internet-facing interface the upload
/// ones. A builder run emits a class on each interface.
#[verifier::spinoff_prover]
pub proof fn law_circuit_classes_carry_their_direction_rates(
    cmd: BakeryCommands,
    mode: ExecutionMode,
    cfg: BakeryConfig,
    rates: CircuitRateStrings,
)
    requires
        cmd is AddCircuit,
        cfg.isp_interface@ != cfg.internet_interface@,
    ensures
        add_circuit_argvs(cmd, mode, cfg, rates) matches Some(cmds) && {
            &&& forall|i: int|
                0 <= i < cmds.len() && (#[trigger] cmds[i])[0] == "class"@ && cmds[i][3] == cfg.isp_interface@
                    ==> cmds[i].len() == 17 && cmds[i][10] == rates.down_min@ && cmds[i][12] == rates.down_max@
                    && cmds[i][16] == rates.down_quantum@
            &&& forall|i: int|
                0 <= i < cmds.len() && (#[trigger] cmds[i])[0] == "class"@ && cmds[i][3]
                    == cfg.internet_interface@ ==> cmds[i].len() == 17 && cmds[i][10] == rates.up_min@ && cmds[i][12]
                    == rates.up_max@ && cmds[i][16] == rates.up_quantum@
            &&& mode == ExecutionMode::Builder ==> (exists|i: int|
                0 <= i < cmds.len() && (#[trigger] cmds[i])[0] == "class"@ && cmds[i][3] == cfg.isp_interface@)
                && (exists|i: int|
                0 <= i < cmds.len() && (#[trigger] cmds[i])[0] == "class"@ && cmds[i][3]
                    == cfg.internet_interface@)
        },
{
    reveal_strlit("class");
    reveal_strlit("qdisc");
    let cmds = add_circuit_argvs(cmd, mode, cfg, rates)->0;
    let (htb, sqm) = crate::circuit_add::circuit_build_parts(mode, cfg);
    let (down_o, up_o) = crate::commands::directional_override(opt_view(cmd->AddCircuit_sqm_override));
    let dc = crate::circuit_add::circuit_class_argv(
        cfg.isp_interface@,
        cmd->AddCircuit_parent_class_id,
        cmd->AddCircuit_class_major,
        cmd->AddCircuit_class_minor,
        rates.down_min@,
        rates.down_max@,
        rates.down_quantum@,
    );
    let uc = crate::circuit_add::circuit_class_argv(
        cfg.internet_interface@,
        cmd->AddCircuit_up_parent_class_id,
        cmd->AddCircuit_up_class_major,
        cmd->AddCircuit_class_minor,
        rates.up_min@,
        rates.up_max@,
        rates.up_quantum@,
    );
    let ds = crate::circuit_add::circuit_sqm_argv(
        cfg.isp_interface@,
        cmd->AddCircuit_class_major,
        cmd->AddCircuit_class_minor,
        rates.down_sqm.deep_view(),
    );
    let us = crate::circuit_add::circuit_sqm_argv(
        cfg.internet_interface@,
        cmd->AddCircuit_up_class_major,
        cmd->AddCircuit_class_minor,
        rates.up_sqm.deep_view(),
    );
    assert(ds[0] == "qdisc"@ && us[0] == "qdisc"@);
    assert(dc[0] == "class"@ && uc[0] == "class"@ && dc[3] == cfg.isp_interface@ && uc[3] == cfg.internet_interface@);
    assert forall|i: int| 0 <= i < cmds.len() implies (#[trigger] cmds[i]) == dc || cmds[i] == uc || cmds[i] == ds
        || cmds[i] == us by {
    }
    assert(dc.len() == 17 && dc[10] == rates.down_min@ && dc[12] == rates.down_max@ && dc[16] == rates.down_quantum@);
    assert(uc.len() == 17 && uc[10] == rates.up_min@ && uc[12] == rates.up_max@ && uc[16] == rates.up_quantum@);
    assert forall|i: int|
        0 <= i < cmds.len() && (#[trigger] cmds[i])[0] == "class"@ && cmds[i][3] == cfg.isp_interface@ implies cmds[i].len()
        == 17 && cmds[i][10] == rates.down_min@ && cmds[i][12] == rates.down_max@ && cmds[i][16]
        == rates.down_quantum@ by {
        assert(cmds[i] == dc || cmds[i] == uc || cmds[i] == ds || cmds[i] == us);
        assert("qdisc"@ != "class"@) by {
            assert("qdisc"@[0] != "class"@[0]);
        }
    }
    assert forall|i: int|
        0 <= i < cmds.len() && (#[trigger] cmds[i])[0] == "class"@ && cmds[i][3] == cfg.internet_interface@ implies cmds[i].len()
        == 17 && cmds[i][10] == rates.up_min@ && cmds[i][12] == rates.up_max@ && cmds[i][16] == rates.up_quantum@ by {
        assert(cmds[i] == dc || cmds[i] == uc || cmds[i] == ds || cmds[i] == us);
        assert("qdisc"@ != "class"@) by {
            assert("qdisc"@[0] != "class"@[0]);
        }
    }
    if mode == ExecutionMode::Builder {
        assert(cmds[0] == dc);
        let down_sqm = !cfg.monitor_only && !crate::commands::is_none_override(down_o);
        let j: int = if down_sqm {
            2
        } else {
            1
        };
        assert(cmds[j] == uc);
    }
}

/// When an idle circuit expires under fully lazy queues (no force), its
/// classes go too: the deletions include the class of each direction.
/// Under lazy HTB only its SQM qdiscs go: no deletion is a class deletion.
/// A forced prune always deletes the class of each direction.
#[verifier::spinoff_prover]
#[verifier::rlimit(30)]
pub proof fn law_circuit_prune_removes_classes_when_classes_are_lazy(cmd: BakeryCommands, cfg: BakeryConfig, force: bool)
    requires
        cmd is AddCircuit,
    ensures
        force || cfg.lazy_queues == Some(LazyQueueMode::Full) ==> (to_prune_spec(cmd, cfg, force) matches Some(cmds)
            && cmds.contains(
            class_del_argv(cfg.isp_interface@, cmd->AddCircuit_parent_class_id, cmd->AddCircuit_class_minor),
        ) && cmds.contains(
            class_del_argv(
                cfg.internet_interface@,
                cmd->AddCircuit_up_parent_class_id,
                cmd->AddCircuit_class_minor,
            ),
        )),
        !force && cfg.lazy_queues == Some(LazyQueueMode::Htb) ==> (to_prune_spec(cmd, cfg, force) matches Some(
            cmds,
        ) && forall|i: int| 0 <= i < cmds.len() ==> (#[trigger] cmds[i])[0] == "qdisc"@),
        !force && (cfg.lazy_queues is None || cfg.lazy_queues == Some(LazyQueueMode::No)) ==> to_prune_spec(
            cmd,
            cfg,
            force,
        ) is None,
{
    reveal_strlit("class");
    reveal_strlit("qdisc");
    if let Some(cmds) = to_prune_spec(cmd, cfg, force) {
        let n = cmds.len();
        if force || cfg.lazy_queues == Some(LazyQueueMode::Full) {
            assert(cmds[n - 2] == class_del_argv(
                cfg.isp_interface@,
                cmd->AddCircuit_parent_class_id,
                cmd->AddCircuit_class_minor,
            ));
            assert(cmds[n - 1] == class_del_argv(
                cfg.internet_interface@,
                cmd->AddCircuit_up_parent_class_id,
                cmd->AddCircuit_class_minor,
            ));
        }
    }
}

/// Every stage still in flight (building the flattened branch, cutting
/// over, restoring) reports `Applying`; `Completed` is reported only for a
/// settled branch with no prune pending.
pub proof fn law_in_flight_lifecycles_report_applying(lifecycle: RuntimeVirtualizedBranchLifecycle, pending_prune: bool)
    ensures
        lifecycle == RuntimeVirtualizedBranchLifecycle::FlattenBuildPending || lifecycle
            == RuntimeVirtualizedBranchLifecycle::CutoverPending || lifecycle
            == RuntimeVirtualizedBranchLifecycle::RestorePending ==> status_for_lifecycle(lifecycle, pending_prune)
            == RuntimeNodeOperationStatus::Applying,
        status_for_lifecycle(lifecycle, pending_prune) == RuntimeNodeOperationStatus::Completed ==> (lifecycle
            == RuntimeVirtualizedBranchLifecycle::PhysicalActive || ((lifecycle
            == RuntimeVirtualizedBranchLifecycle::FlattenedActive || lifecycle
            == RuntimeVirtualizedBranchLifecycle::PhysicalActiveCleanupPending) && !pending_prune)),
{
}

/// A batch circuit of a categorized diff lands in the category of its
/// change: new circuits are added, missing ones removed, a circuit that
/// keeps its place is a speed change exactly when a rate or its SQM
/// override differs and an IP change exactly when its IP list differs, and
/// a circuit that moves is a migration (and neither a speed nor an IP
/// change).
pub proof fn law_diffed_circuits_land_in_their_category(
    old: Map<i64, BakeryCommands>,
    new: Map<i64, BakeryCommands>,
    cat: CircuitDiffCategories,
    k: i64,
)
    requires
        categories_match(old, new, cat),
    ensures
        new.contains_key(k) && !old.contains_key(k) ==> cat.newly_added@.contains(&new[k]),
        old.contains_key(k) && !new.contains_key(k) ==> cat.removed_circuits@.contains(k),
        new.contains_key(k) && old.contains_key(k) ==> !cat.removed_circuits@.contains(k),
        old.contains_key(k) && new.contains_key(k) && old[k] is AddCircuit && new[k] is AddCircuit
            && same_circuit_place(old[k], new[k]) ==> {
            &&& cat.speed_changed@.contains(&new[k]) <== circuit_rates_differ(old[k], new[k])
            &&& cat.ip_changed@.contains(&new[k]) <== old[k]->AddCircuit_ip_addresses@
                != new[k]->AddCircuit_ip_addresses@
        },
        old.contains_key(k) && new.contains_key(k) && old[k] is AddCircuit && new[k] is AddCircuit
            && !same_circuit_place(old[k], new[k]) ==> cat.migrated@.contains(&new[k]),
{
    if new.contains_key(k) && !old.contains_key(k) {
        assert(exists|j: i64| new.contains_key(j) && !old.contains_key(j) && new[k] == new[j]);
    }
    if old.contains_key(k) && !new.contains_key(k) {
        assert(old.dom().difference(new.dom()).contains(k));
        assert(cat.removed_circuits@.to_set().contains(k));
    }
    if old.contains_key(k) && new.contains_key(k) {
        assert(!old.dom().difference(new.dom()).contains(k));
        assert(!cat.removed_circuits@.to_set().contains(k));
        if old[k] is AddCircuit && new[k] is AddCircuit {
            if same_circuit_place(old[k], new[k]) {
                law_circuit_changes_in_place_follow_the_changed_fields(old[k], new[k]);
            } else {
                law_circuit_that_moves_is_a_migration(old[k], new[k]);
            }
        }
    }
}

/// A diff that finds nothing to do means the batch holds exactly the old
/// circuits, none of them changed in place, rate, override or IP list.
pub proof fn law_unchanged_circuits_are_identical_in_what_matters(old: Map<i64, BakeryCommands>, new: Map<
    i64,
    BakeryCommands,
>, k: i64)
    requires
        !circuits_differ(old, new),
        old.contains_key(k),
        old[k] is AddCircuit,
        new.contains_key(k) ==> new[k] is AddCircuit,
    ensures
        new.contains_key(k),
        same_circuit_place(old[k], new[k]),
        !circuit_rates_differ(old[k], new[k]),
        old[k]->AddCircuit_ip_addresses@ == new[k]->AddCircuit_ip_addresses@,
{
    if !new.contains_key(k) {
        assert(old.contains_key(k) && !new.contains_key(k));
    }
    if !same_circuit_place(old[k], new[k]) {
        law_circuit_that_moves_is_a_migration(old[k], new[k]);
        assert(crate::diff::circuits::changed_as(old, new, k, true, true, true));
    } else {
        law_circuit_changes_in_place_follow_the_changed_fields(old[k], new[k]);
        if circuit_change(old[k], new[k]) != CircuitChange::Unchanged {
            assert(crate::diff::circuits::changed_as(old, new, k, true, true, true));
        }
    }
}

/// Two versions of a site are structurally different exactly when the site
/// moved: other parents or another minor.
pub proof fn law_site_structure_is_its_place(old: BakeryCommands, new: BakeryCommands)
    requires
        old is AddSite,
        new is AddSite,
        old->AddSite_site_hash == new->AddSite_site_hash,
    ensures
        structurally_different(old, new) <==> (old->AddSite_parent_class_id != new->AddSite_parent_class_id
            || old->AddSite_up_parent_class_id != new->AddSite_up_parent_class_id || old->AddSite_class_minor
            != new->AddSite_class_minor),
{
}

/// When the site tree keeps its shape, a site whose rates changed is
/// applied live: the diff reports speed changes, among them the old site
/// with the new rates; when no site moved or changed rates the diff finds
/// nothing to do; and a site that moved forces a rebuild.
pub proof fn law_site_diff_applies_rate_changes_live(
    old: Map<i64, BakeryCommands>,
    new: Map<i64, BakeryCommands>,
    r: SiteDiffResult,
    k: i64,
)
    requires
        site_diff_matches(old, new, r),
        old.contains_key(k),
        new.contains_key(k),
        old[k] is AddSite,
        new[k] is AddSite,
        old[k]->AddSite_site_hash == new[k]->AddSite_site_hash,
    ensures
        structurally_different(old[k], new[k]) ==> r is RebuildRequired,
        old.len() == new.len() && !(r is RebuildRequired) && site_speed_change(old[k], new[k]) is Some ==> (
        r matches SiteDiffResult::SpeedChanges { changes } && changes@.contains(
            site_speed_change(old[k], new[k])->0,
        )),
        r is NoChange ==> site_speed_change(old[k], new[k]) is None && !structurally_different(old[k], new[k]),
{
    if structurally_different(old[k], new[k]) {
        assert(crate::diff::sites::site_blocks(old, new, k));
    }
    if site_speed_change(old[k], new[k]) is Some {
        let c = site_speed_change(old[k], new[k])->0;
        assert(crate::diff::sites::speed_change_for(old, new, k, c));
    }
}

/// What a circuit build emits follows the execution and queue modes: a
/// builder run makes a class on each interface; a live update without lazy
/// queues emits nothing and under lazy HTB no class; a monitor-only host
/// gets no SQM qdisc; each SQM qdisc carries its own direction's tokens
/// under its own direction's class; nothing goes to the Internet-facing
/// interface's SQM on a stick.
pub proof fn law_circuit_build_follows_the_modes(
    cmd: BakeryCommands,
    mode: ExecutionMode,
    cfg: BakeryConfig,
    rates: CircuitRateStrings,
)
    requires
        cmd is AddCircuit,
        cfg.isp_interface@ != cfg.internet_interface@,
    ensures
        add_circuit_argvs(cmd, mode, cfg, rates) matches Some(cmds) && {
            &&& mode == ExecutionMode::LiveUpdate && (cfg.lazy_queues is None || cfg.lazy_queues == Some(
                LazyQueueMode::No,
            )) ==> cmds.len() == 0
            &&& mode == ExecutionMode::LiveUpdate && cfg.lazy_queues == Some(LazyQueueMode::Htb) ==> forall|i: int|
                0 <= i < cmds.len() ==> (#[trigger] cmds[i])[0] == "qdisc"@
            &&& cfg.monitor_only ==> forall|i: int| 0 <= i < cmds.len() ==> (#[trigger] cmds[i])[0] == "class"@
            &&& forall|i: int|
                0 <= i < cmds.len() && (#[trigger] cmds[i])[0] == "qdisc"@ && cmds[i][3] == cfg.isp_interface@ ==> {
                    &&& cmds[i][5] == crate::tc_handle::class_id_seq(
                        cmd->AddCircuit_class_major,
                        cmd->AddCircuit_class_minor,
                    )
                    &&& cmds[i].subrange(6, cmds[i].len() as int) == rates.down_sqm.deep_view()
                }
            &&& forall|i: int|
                0 <= i < cmds.len() && (#[trigger] cmds[i])[0] == "qdisc"@ && cmds[i][3] == cfg.internet_interface@
                    ==> {
                    &&& !cfg.on_a_stick
                    &&& cmds[i][5] == crate::tc_handle::class_id_seq(
                        cmd->AddCircuit_up_class_major,
                        cmd->AddCircuit_class_minor,
                    )
                    &&& cmds[i].subrange(6, cmds[i].len() as int) == rates.up_sqm.deep_view()
                }
        },
{
    reveal_strlit("class");
    reveal_strlit("qdisc");
    assert("qdisc"@ != "class"@) by {
        assert("qdisc"@[0] != "class"@[0]);
    }
    let cmds = add_circuit_argvs(cmd, mode, cfg, rates)->0;
    let dc = crate::circuit_add::circuit_class_argv(
        cfg.isp_interface@,
        cmd->AddCircuit_parent_class_id,
        cmd->AddCircuit_class_major,
        cmd->AddCircuit_class_minor,
        rates.down_min@,
        rates.down_max@,
        rates.down_quantum@,
    );
    let uc = crate::circuit_add::circuit_class_argv(
        cfg.internet_interface@,
        cmd->AddCircuit_up_parent_class_id,
        cmd->AddCircuit_up_class_major,
        cmd->AddCircuit_class_minor,
        rates.up_min@,
        rates.up_max@,
        rates.up_quantum@,
    );
    let ds = crate::circuit_add::circuit_sqm_argv(
        cfg.isp_interface@,
        cmd->AddCircuit_class_major,
        cmd->AddCircuit_class_minor,
        rates.down_sqm.deep_view(),
    );
    let us = crate::circuit_add::circuit_sqm_argv(
        cfg.internet_interface@,
        cmd->AddCircuit_up_class_major,
        cmd->AddCircuit_class_minor,
        rates.up_sqm.deep_view(),
    );
    assert(ds[0] == "qdisc"@ && us[0] == "qdisc"@ && ds[3] == cfg.isp_interface@ && us[3] == cfg.internet_interface@);
    assert(dc[0] == "class"@ && uc[0] == "class"@);
    assert(ds.subrange(6, ds.len() as int) =~= rates.down_sqm.deep_view());
    assert(us.subrange(6, us.len() as int) =~= rates.up_sqm.deep_view());
    assert forall|i: int| 0 <= i < cmds.len() implies (#[trigger] cmds[i]) == dc || cmds[i] == uc || cmds[i] == ds
        || (cmds[i] == us && !cfg.on_a_stick) by {
    }
}

/// The operation status of every lifecycle stage: a failed branch is dirty;
/// building, cutting over and restoring are in flight; a settled flattened
/// or cleanup-pending branch is awaiting cleanup while a prune is pending
/// and completed otherwise; the physical branch is completed.
pub proof fn law_lifecycle_statuses(lifecycle: RuntimeVirtualizedBranchLifecycle, pending_prune: bool)
    ensures
        lifecycle == RuntimeVirtualizedBranchLifecycle::Failed ==> status_for_lifecycle(lifecycle, pending_prune)
            == RuntimeNodeOperationStatus::Dirty,
        (lifecycle == RuntimeVirtualizedBranchLifecycle::FlattenedActive || lifecycle
            == RuntimeVirtualizedBranchLifecycle::PhysicalActiveCleanupPending) ==> status_for_lifecycle(
            lifecycle,
            pending_prune,
        ) == if pending_prune {
            RuntimeNodeOperationStatus::AppliedAwaitingCleanup
        } else {
            RuntimeNodeOperationStatus::Completed
        },
        lifecycle == RuntimeVirtualizedBranchLifecycle::PhysicalActive ==> status_for_lifecycle(
            lifecycle,
            pending_prune,
        ) == RuntimeNodeOperationStatus::Completed,
{
}

/// A site's two classes are shaped by their own direction's rates, sit
/// under the site's own parents and carry the parent's major with the
/// site's minor.
pub proof fn law_site_classes_carry_their_direction_rates(cmd: BakeryCommands, cfg: BakeryConfig, rates: SiteRateStrings)
    requires
        cmd is AddSite,
    ensures
        add_site_argvs(cmd, cfg, rates) matches Some(cmds) && {
            &&& cmds.len() == 2
            &&& cmds[0][3] == cfg.isp_interface@ && cmds[1][3] == cfg.internet_interface@
            &&& cmds[0][5] == crate::tc_handle::tc_seq(cmd->AddSite_parent_class_id.0)
            &&& cmds[1][5] == crate::tc_handle::tc_seq(cmd->AddSite_up_parent_class_id.0)
            &&& cmds[0][7] == crate::tc_handle::class_id_seq(
                cmd->AddSite_parent_class_id.major(),
                cmd->AddSite_class_minor,
            )
            &&& cmds[1][7] == crate::tc_handle::class_id_seq(
                cmd->AddSite_up_parent_class_id.major(),
                cmd->AddSite_class_minor,
            )
            &&& cmds[0][10] == rates.down_min@ && cmds[0][12] == rates.down_max@ && cmds[0][16] == rates.down_quantum@
            &&& cmds[1][10] == rates.up_min@ && cmds[1][12] == rates.up_max@ && cmds[1][16] == rates.up_quantum@
        },
{
}

/// The SQM qdiscs a circuit prune deletes: the ISP-facing one unless its
/// override is `none`, the Internet-facing one unless its override is
/// `none` or the host runs on a stick; each under its own direction's
/// major and the circuit's minor.
pub proof fn law_circuit_prune_deletes_each_direction_qdisc(cmd: BakeryCommands, cfg: BakeryConfig, force: bool)
    requires
        cmd is AddCircuit,
        to_prune_spec(cmd, cfg, force) is Some,
        cfg.isp_interface@ != cfg.internet_interface@,
    ensures
        ({
            let cmds = to_prune_spec(cmd, cfg, force)->0;
            let (down_o, up_o) = crate::commands::directional_override(opt_view(cmd->AddCircuit_sqm_override));
            &&& cmds.contains(
                crate::commands::qdisc_del_parent_argv(
                    cfg.isp_interface@,
                    cmd->AddCircuit_class_major,
                    cmd->AddCircuit_class_minor,
                ),
            ) <==> !crate::commands::is_none_override(down_o)
            &&& !cfg.on_a_stick && !crate::commands::is_none_override(up_o) ==> cmds.contains(
                crate::commands::qdisc_del_parent_argv(
                    cfg.internet_interface@,
                    cmd->AddCircuit_up_class_major,
                    cmd->AddCircuit_class_minor,
                ),
            )
            &&& forall|i: int|
                0 <= i < cmds.len() && (#[trigger] cmds[i])[0] == "qdisc"@ && cmds[i][3]
                    == cfg.internet_interface@ ==> !cfg.on_a_stick
                    && !crate::commands::is_none_override(up_o)
        }),
{
    reveal_strlit("class");
    reveal_strlit("qdisc");
    assert("qdisc"@ != "class"@) by {
        assert("qdisc"@[0] != "class"@[0]);
    }
    let cmds = to_prune_spec(cmd, cfg, force)->0;
    let (down_o, up_o) = crate::commands::directional_override(opt_view(cmd->AddCircuit_sqm_override));
    let dq = crate::commands::qdisc_del_parent_argv(cfg.isp_interface@, cmd->AddCircuit_class_major, cmd->AddCircuit_class_minor);
    let uq = crate::commands::qdisc_del_parent_argv(
        cfg.internet_interface@,
        cmd->AddCircuit_up_class_major,
        cmd->AddCircuit_class_minor,
    );
    let dcl = class_del_argv(cfg.isp_interface@, cmd->AddCircuit_parent_class_id, cmd->AddCircuit_class_minor);
    let ucl = class_del_argv(cfg.internet_interface@, cmd->AddCircuit_up_parent_class_id, cmd->AddCircuit_class_minor);
    assert(dcl[0] == "class"@ && ucl[0] == "class"@ && dq[0] == "qdisc"@ && uq[0] == "qdisc"@);
    assert(dq.len() == 6 && uq.len() == 6 && dcl.len() == 8 && ucl.len() == 8);
    assert forall|i: int| 0 <= i < cmds.len() implies (#[trigger] cmds[i]) == dcl || cmds[i] == ucl || (cmds[i]
        == dq && !crate::commands::is_none_override(down_o)) || (cmds[i] == uq && !cfg.on_a_stick
        && !crate::commands::is_none_override(up_o)) by {
    }
    if !crate::commands::is_none_override(down_o) {
        let n_up: int = if !crate::commands::is_none_override(up_o) && !cfg.on_a_stick { 1 } else { 0 };
        assert(cmds[n_up] == dq);
    } else {
        if cmds.contains(dq) {
            let i = choose|i: int| 0 <= i < cmds.len() && cmds[i] == dq;
            assert(cmds[i] == dcl || cmds[i] == ucl || cmds[i] == uq);
            assert(dq[0] != dcl[0]);
            if cmds[i] == uq {
                assert(dq[5] == uq[5] && dq[3] == uq[3]);
            }
        }
    }
    if !cfg.on_a_stick && !crate::commands::is_none_override(up_o) {
        assert(cmds[0] == uq);
    }
}

/// On a tick with lazy queues and expiry on, a tracked live circuit is torn
/// down exactly when it has been idle longer than the expiry time; one idle
/// for no longer keeps its last-activity time.
pub proof fn law_idle_circuits_expire_after_the_expiry_time(
    circuits: Map<i64, BakeryCommands>,
    live: Map<i64, u64>,
    live_after: Map<i64, u64>,
    cfg: BakeryConfig,
    lazy_expire_seconds: Option<u64>,
    now: u64,
    active: usize,
    commands: Seq<Seq<Seq<char>>>,
    id: i64,
)
    requires
        tick_outcome(circuits, live, live_after, cfg, lazy_expire_seconds, now, active, commands),
        cfg.lazy_queues == Some(LazyQueueMode::Htb) || cfg.lazy_queues == Some(LazyQueueMode::Full),
        expire_after(lazy_expire_seconds) > 0,
        live.contains_key(id),
        live[id] <= now,
        circuits.contains_key(id),
        circuits[id] is AddCircuit,
    ensures
        !live_after.contains_key(id) <==> now - live[id] > expire_after(lazy_expire_seconds),
        live_after.contains_key(id) ==> live_after[id] == live[id],
{
}

/// A class of an `mq` queue block is one of the block's two classes on its
/// device: the top class at the direction's rate and ceiling, or the default
/// class at its guaranteed rate and ceiling; both use the direction's
/// quantum.
pub open spec fn mq_class_uses(c: Seq<Seq<char>>, dev: Seq<char>, rates: MqDirectionRates) -> bool {
    &&& c[3] == dev
    &&& (c.len() == 15 && c[10] == rates.rate@ && c[12] == rates.rate@ && c[14] == rates.quantum@) || (c.len()
        == 17 && c[10] == rates.default_rate@ && c[12] == rates.default_ceil@ && c[16] == rates.quantum@)
}

proof fn lemma_mq_queue_classes(
    dev: Seq<char>,
    first: nat,
    count: nat,
    sqm: Seq<Seq<char>>,
    rates: MqDirectionRates,
)
    ensures
        forall|i: int|
            0 <= i < mq_queues_argvs(dev, first, count, sqm, rates).len() && (#[trigger] mq_queues_argvs(
                dev,
                first,
                count,
                sqm,
                rates,
            )[i])[0] == "class"@ ==> mq_class_uses(mq_queues_argvs(dev, first, count, sqm, rates)[i], dev, rates),
        forall|i: int|
            0 <= i < mq_queues_argvs(dev, first, count, sqm, rates).len() ==> (#[trigger] mq_queues_argvs(
                dev,
                first,
                count,
                sqm,
                rates,
            )[i])[3] == dev,
    decreases count,
{
    reveal_strlit("class");
    reveal_strlit("qdisc");
    assert("qdisc"@ != "class"@) by {
        assert("qdisc"@[0] != "class"@[0]);
    }
    if count > 0 {
        lemma_mq_queue_classes(dev, first, (count - 1) as nat, sqm, rates);
        let prev = mq_queues_argvs(dev, first, (count - 1) as nat, sqm, rates);
        let b = mq_queue_argvs(dev, (first + count - 1) as nat, sqm, rates);
        let all = mq_queues_argvs(dev, first, count, sqm, rates);
        assert(all == prev + b);
        assert(b[0][0] == "qdisc"@ && b[2][0] == "qdisc"@ && b[4][0] == "qdisc"@);
        assert(mq_class_uses(b[1], dev, rates) && mq_class_uses(b[3], dev, rates));
        assert(b[0][3] == dev && b[1][3] == dev && b[2][3] == dev && b[3][3] == dev && b[4][3] == dev);
        assert forall|i: int| 0 <= i < all.len() implies (#[trigger] all[i])[3] == dev && (all[i][0] == "class"@
            ==> mq_class_uses(all[i], dev, rates)) by {
            if i >= prev.len() {
                assert(all[i] == b[i - prev.len()]);
            } else {
                assert(all[i] == prev[i]);
            }
        }
    }
}

/// Every HTB class of the `mq` setup is shaped by its own direction: a
/// class on the ISP-facing interface uses the downlink rates, one on the
/// Internet-facing interface the uplink rates; the setup starts by
/// deleting the ISP-facing root.
pub proof fn law_mq_classes_carry_their_direction_rates(
    cfg: BakeryConfig,
    queues: nat,
    stick_offset: nat,
    sqm: Seq<Seq<char>>,
    down: MqDirectionRates,
    up: MqDirectionRates,
)
    requires
        cfg.isp_interface@ != cfg.internet_interface@,
    ensures
        ({
            let cmds = mq_setup_argvs(cfg, queues, stick_offset, sqm, down, up);
            &&& cmds[0] == seq!["qdisc"@, "del"@, "dev"@, cfg.isp_interface@, "root"@]
            &&& forall|i: int|
                0 <= i < cmds.len() && (#[trigger] cmds[i])[0] == "class"@ && cmds[i][3] == cfg.isp_interface@
                    ==> mq_class_uses(cmds[i], cfg.isp_interface@, down)
            &&& forall|i: int|
                0 <= i < cmds.len() && (#[trigger] cmds[i])[0] == "class"@ && cmds[i][3] == cfg.internet_interface@
                    ==> mq_class_uses(cmds[i], cfg.internet_interface@, up)
        }),
{
    reveal_strlit("class");
    reveal_strlit("qdisc");
    assert("qdisc"@ != "class"@) by {
        assert("qdisc"@[0] != "class"@[0]);
    }
    let isp = cfg.isp_interface@;
    let inet = cfg.internet_interface@;
    let cmds = mq_setup_argvs(cfg, queues, stick_offset, sqm, down, up);
    let downs = mq_queues_argvs(isp, 1, queues, sqm, down);
    let ups = mq_queues_argvs(inet, stick_offset + 1, queues, sqm, up);
    lemma_mq_queue_classes(isp, 1, queues, sqm, down);
    lemma_mq_queue_classes(inet, stick_offset + 1, queues, sqm, up);
    let clear = if cfg.on_a_stick {
        seq![crate::mq_setup::root_del_argv(isp)]
    } else {
        seq![crate::mq_setup::root_del_argv(isp), crate::mq_setup::root_del_argv(inet)]
    };
    let up_root = if cfg.on_a_stick {
        Seq::<Seq<Seq<char>>>::empty()
    } else {
        seq![crate::mq_setup::mq_root_argv(inet)]
    };
    let head = clear + seq![crate::mq_setup::mq_root_argv(isp)];
    assert(cmds == head + downs + up_root + ups);
    assert forall|i: int| 0 <= i < head.len() implies (#[trigger] head[i])[0] == "qdisc"@ by {}
    assert forall|i: int| 0 <= i < up_root.len() implies (#[trigger] up_root[i])[0] == "qdisc"@ by {}
    assert forall|i: int|
        0 <= i < cmds.len() && (#[trigger] cmds[i])[0] == "class"@ && cmds[i][3] == isp implies mq_class_uses(
        cmds[i],
        isp,
        down,
    ) by {
        let a = head.len() as int;
        let b = a + downs.len();
        let c = b + up_root.len();
        if i < a {
            assert(cmds[i] == head[i]);
        } else if i < b {
            assert(cmds[i] == downs[i - a]);
        } else if i < c {
            assert(cmds[i] == up_root[i - b]);
        } else {
            assert(cmds[i] == ups[i - c]);
        }
    }
    assert forall|i: int|
        0 <= i < cmds.len() && (#[trigger] cmds[i])[0] == "class"@ && cmds[i][3] == inet implies mq_class_uses(
        cmds[i],
        inet,
        up,
    ) by {
        let a = head.len() as int;
        let b = a + downs.len();
        let c = b + up_root.len();
        if i < a {
            assert(cmds[i] == head[i]);
        } else if i < b {
            assert(cmds[i] == downs[i - a]);
        } else if i < c {
            assert(cmds[i] == up_root[i - b]);
        } else {
            assert(cmds[i] == ups[i - c]);
        }
    }
    assert(cmds[0] == head[0]);
}

/// A node's operation stays in flight (holding a capacity slot) exactly
/// while its branch is being built, cut over or restored, or while a
/// settled flattened or cleanup-pending branch still has a prune pending.
pub proof fn law_operations_stay_in_flight_until_settled(lifecycle: RuntimeVirtualizedBranchLifecycle, pending_prune: bool)
    ensures
        status_in_flight(status_for_lifecycle(lifecycle, pending_prune)) <==> (lifecycle
            == RuntimeVirtualizedBranchLifecycle::FlattenBuildPending || lifecycle
            == RuntimeVirtualizedBranchLifecycle::CutoverPending || lifecycle
            == RuntimeVirtualizedBranchLifecycle::RestorePending || ((lifecycle
            == RuntimeVirtualizedBranchLifecycle::FlattenedActive || lifecycle
            == RuntimeVirtualizedBranchLifecycle::PhysicalActiveCleanupPending) && pending_prune)),
{
}

/// The settled lifecycle of a branch: the shadow branch active means the
/// node is flattened; the original branch active means the physical tree,
/// with cleanup still pending exactly while a prune is pending. Such a
/// node's operation is completed unless a prune is pending, in which case
/// it awaits cleanup.
pub proof fn law_settled_lifecycle_follows_the_active_branch(branch: RuntimeVirtualizedActiveBranch, pending_prune: bool)
    ensures
        branch == RuntimeVirtualizedActiveBranch::Shadow ==> lifecycle_for(branch, pending_prune)
            == RuntimeVirtualizedBranchLifecycle::FlattenedActive,
        branch == RuntimeVirtualizedActiveBranch::Original ==> lifecycle_for(branch, pending_prune) == if pending_prune {
            RuntimeVirtualizedBranchLifecycle::PhysicalActiveCleanupPending
        } else {
            RuntimeVirtualizedBranchLifecycle::PhysicalActive
        },
        status_for_lifecycle(lifecycle_for(branch, pending_prune), pending_prune) == if pending_prune {
            RuntimeNodeOperationStatus::AppliedAwaitingCleanup
        } else {
            RuntimeNodeOperationStatus::Completed
        },
{
}

/// A cutover check: when the shadow branch is verified active the node is
/// flattened with no prune pending and its operation completed; when it is
/// not, a tracked operation counts one more attempt and, at the attempt
/// limit, the node fails and its operation turns Dirty, else the node keeps
/// its lifecycle and pending prune and is retried no earlier than now (the
/// operation's retry time is the node's next attempt); an untracked node is
/// left as it was.
pub proof fn law_cutover_checks_complete_retry_or_fail(
    site_hash: i64,
    s0: VirtualizedSiteState,
    s1: VirtualizedSiteState,
    ops0: Map<i64, RuntimeNodeOperation>,
    ops1: Map<i64, RuntimeNodeOperation>,
    verification: Result<(), String>,
    now_unix: u64,
    l0: GroupedBakeryEventLimiter,
    l1: GroupedBakeryEventLimiter,
    t0: BakeryTelemetryState,
    t1: BakeryTelemetryState,
)
    requires
        cutover_outcome(site_hash, s0, s1, ops0, ops1, verification, now_unix, l0, l1, t0, t1),
    ensures
        verification is Ok ==> {
            &&& s1.lifecycle == RuntimeVirtualizedBranchLifecycle::FlattenedActive
            &&& !s1.pending_prune
            &&& s1.active_branch == s0.active_branch
            &&& ops0.contains_key(site_hash) ==> ops1[site_hash].status == RuntimeNodeOperationStatus::Completed
                && ops1[site_hash].attempt_count == ops0[site_hash].attempt_count
                && ops1[site_hash].last_error is None
        },
        verification is Err && !ops0.contains_key(site_hash) ==> s1 == s0 && ops1 == ops0,
        verification is Err && ops0.contains_key(site_hash) ==> {
            &&& ops1.contains_key(site_hash)
            &&& ops1[site_hash].attempt_count == bumped(ops0[site_hash].attempt_count)
            &&& ops1[site_hash].attempt_count >= RUNTIME_SITE_PRUNE_MAX_ATTEMPTS ==> {
                &&& s1.lifecycle == RuntimeVirtualizedBranchLifecycle::Failed
                &&& !s1.pending_prune
                &&& ops1[site_hash].status == RuntimeNodeOperationStatus::Dirty
            }
            &&& ops1[site_hash].attempt_count < RUNTIME_SITE_PRUNE_MAX_ATTEMPTS ==> {
                &&& s1.lifecycle == s0.lifecycle
                &&& s1.pending_prune == s0.pending_prune
                &&& s1.next_prune_attempt_unix >= now_unix
                &&& ops1[site_hash].next_retry_at_unix == Some(s1.next_prune_attempt_unix)
            }
        },
{
}

/// A prune pass result: only a completed pass can let a restored node go,
/// and it does so exactly when the original branch is active; a completed
/// pass leaves no prune pending and, outside a pending cutover, completes
/// the operation; progress retries at once; a pass waiting for children
/// retries later and logs nothing; a failed pass counts an attempt on a
/// tracked operation and fails the node at the attempt limit, else retries
/// later.
pub proof fn law_prune_passes_complete_retry_or_fail(
    site_hash: i64,
    s0: VirtualizedSiteState,
    s1: VirtualizedSiteState,
    ops0: Map<i64, RuntimeNodeOperation>,
    ops1: Map<i64, RuntimeNodeOperation>,
    result: RuntimePrunePassResult,
    now_unix: u64,
    l0: GroupedBakeryEventLimiter,
    l1: GroupedBakeryEventLimiter,
    t0: BakeryTelemetryState,
    t1: BakeryTelemetryState,
    restored: bool,
)
    requires
        prune_pass_outcome(site_hash, s0, s1, ops0, ops1, result, now_unix, l0, l1, t0, t1, restored),
    ensures
        restored ==> result is Completed,
        result is Completed ==> {
            &&& restored == (s0.active_branch == RuntimeVirtualizedActiveBranch::Original)
            &&& !s1.pending_prune
            &&& s1.active_branch == s0.active_branch
            &&& s0.lifecycle != RuntimeVirtualizedBranchLifecycle::CutoverPending && ops0.contains_key(site_hash)
                ==> ops1[site_hash].status == RuntimeNodeOperationStatus::Completed
        },
        result is Progress ==> s1.next_prune_attempt_unix == now_unix && s1.pending_prune == s0.pending_prune,
        result is Pending ==> s1.next_prune_attempt_unix > now_unix || s1.next_prune_attempt_unix == u64::MAX,
        result is Pending ==> t1 == t0 && s1.pending_prune == s0.pending_prune,
        result is Failed && ops0.contains_key(site_hash) ==> {
            &&& ops1[site_hash].attempt_count == bumped(ops0[site_hash].attempt_count)
            &&& ops1[site_hash].attempt_count >= RUNTIME_SITE_PRUNE_MAX_ATTEMPTS ==> s1.lifecycle
                == RuntimeVirtualizedBranchLifecycle::Failed && ops1[site_hash].status
                == RuntimeNodeOperationStatus::Dirty && !s1.pending_prune
            &&& ops1[site_hash].attempt_count < RUNTIME_SITE_PRUNE_MAX_ATTEMPTS ==> (s1.next_prune_attempt_unix
                > now_unix || s1.next_prune_attempt_unix == u64::MAX) && s1.pending_prune == s0.pending_prune
        },
        result is Failed && !ops0.contains_key(site_hash) ==> ops1 == ops0 && (s1.next_prune_attempt_unix > now_unix
            || s1.next_prune_attempt_unix == u64::MAX),
{
}

/// A class pair is live where it should be: its downlink class is in the
/// downlink snapshot under `parent`, its uplink class in the uplink snapshot
/// under `up_parent`.
pub open spec fn pair_live_under(
    down_class: u32,
    up_class: u32,
    parent: TcHandle,
    up_parent: TcHandle,
    down: Map<u32, LiveTcClassEntry>,
    up: Map<u32, LiveTcClassEntry>,
) -> bool {
    &&& down.contains_key(down_class)
    &&& up.contains_key(up_class)
    &&& parent_matches(down[down_class].parent, parent)
    &&& parent_matches(up[up_class].parent, up_parent)
}

/// The active shadow branch is verified exactly when every active circuit's
/// classes (its majors with its minor) and every active site's classes
/// (its parents' majors with its minor) are live under their parents.
pub proof fn law_shadow_is_verified_exactly_when_all_of_it_is_live(
    state: VirtualizedSiteState,
    down: Map<u32, LiveTcClassEntry>,
    up: Map<u32, LiveTcClassEntry>,
    r: Result<(), Seq<char>>,
)
    requires
        shadow_active_outcome(state, down, up, r),
    ensures
        r is Ok <==> {
            &&& forall|k: i64| #[trigger]
                state.active_circuits@.contains_key(k) && state.active_circuits@[k] is AddCircuit ==> {
                    let c = state.active_circuits@[k];
                    pair_live_under(
                        handle_value(c->AddCircuit_class_major, c->AddCircuit_class_minor),
                        handle_value(c->AddCircuit_up_class_major, c->AddCircuit_class_minor),
                        c->AddCircuit_parent_class_id,
                        c->AddCircuit_up_parent_class_id,
                        down,
                        up,
                    )
                }
            &&& forall|k: i64| #[trigger]
                state.active_sites@.contains_key(k) && state.active_sites@[k] is AddSite ==> {
                    let c = state.active_sites@[k];
                    pair_live_under(
                        handle_value(c->AddSite_parent_class_id.major(), c->AddSite_class_minor),
                        handle_value(c->AddSite_up_parent_class_id.major(), c->AddSite_class_minor),
                        c->AddSite_parent_class_id,
                        c->AddSite_up_parent_class_id,
                        down,
                        up,
                    )
                }
        },
{
    let sites = state.active_sites@;
    let circuits = state.active_circuits@;
    if r is Ok {
        assert forall|k: i64| #[trigger]
            circuits.contains_key(k) && circuits[k] is AddCircuit implies {
            let c = circuits[k];
            pair_live_under(
                handle_value(c->AddCircuit_class_major, c->AddCircuit_class_minor),
                handle_value(c->AddCircuit_up_class_major, c->AddCircuit_class_minor),
                c->AddCircuit_parent_class_id,
                c->AddCircuit_up_parent_class_id,
                down,
                up,
            )
        } by {
            assert(crate::live_verify::active_circuit_check(k, circuits[k], down, up) is None);
        }
        assert forall|k: i64| #[trigger]
            sites.contains_key(k) && sites[k] is AddSite implies {
            let c = sites[k];
            pair_live_under(
                handle_value(c->AddSite_parent_class_id.major(), c->AddSite_class_minor),
                handle_value(c->AddSite_up_parent_class_id.major(), c->AddSite_class_minor),
                c->AddSite_parent_class_id,
                c->AddSite_up_parent_class_id,
                down,
                up,
            )
        } by {
            assert(crate::live_verify::active_site_check(k, sites[k], down, up) is None);
        }
    } else {
        let m = r->Err_0;
        if exists|k: i64| #[trigger] sites.contains_key(k) && crate::live_verify::active_site_check(
            k,
            sites[k],
            down,
            up,
        ) == Some(m) {
            let k = choose|k: i64| #[trigger] sites.contains_key(k) && crate::live_verify::active_site_check(
                k,
                sites[k],
                down,
                up,
            ) == Some(m);
            assert(sites.contains_key(k) && sites[k] is AddSite);
        } else {
            let k = choose|k: i64| #[trigger] circuits.contains_key(k) && crate::live_verify::active_circuit_check(
                k,
                circuits[k],
                down,
                up,
            ) == Some(m);
            assert(circuits.contains_key(k) && circuits[k] is AddCircuit);
        }
    }
}

} // verus!
