//! What committing a batch of shaping commands does: a full reload (and
//! why, with the batch cut to the mapped-circuit limit), nothing, or an
//! incremental update with the site speed changes to apply live.
use vstd::prelude::*;
use std::collections::HashMap;
use crate::commands::{opt_cmds_view, opt_view, to_prune_spec, BakeryCommands, ExecutionMode};
use crate::config::{BakeryConfig, LazyQueueMode};
use crate::circuit_add::{add_circuit_argvs, CircuitRateStrings};
use crate::diff::circuits::{batch_circuits, circuits_differ, diff_circuits, CircuitDiffResult};
use crate::diff::sites::{batch_sites, diff_sites, site_blocks, site_diff_matches, speed_change_for, SiteDiffResult};
use crate::mapped_limit::{
    existing_mapped, filter_batch_by_mapped_circuit_limit, kept_mapped, mapped_candidates, surviving,
    MappedLimitStats,
};
use crate::migration::{circuits_with_pending_migration_targets, Migration};
use crate::commands::same_command;
use crate::overlay::{apply_runtime_virtualization_overlay, baseline_result, overlay_result, reconstruct_structural_baseline_state};
use crate::runtime::VirtualizedSiteState;
use crate::telemetry::{bakery_reload_required_reason, BakeryTelemetryState};
use crate::text::{append_str, owned};

verus! {

/// What to do with a committed batch.
#[derive(Debug)]
pub enum CommitPlan {
    /// Rebuild the whole tree from `batch` (the committed batch cut to the
    /// mapped-circuit limit, as `stats` reports).
    FullReload {
        /// Why the full reload happens.
        summary: String,
        /// The commands to rebuild from.
        batch: Vec<BakeryCommands>,
        /// What the mapped-circuit limit did to the batch.
        stats: MappedLimitStats,
    },
    /// The batch changes nothing.
    NoChange,
    /// Apply the changes live: the batch with the runtime virtualization
    /// overlay, and the sites whose rates changed.
    Incremental {
        /// The batch as the live tree should see it.
        effective_batch: Vec<BakeryCommands>,
        /// One updated `AddSite` per site whose rates changed.
        site_speed_changes: Vec<BakeryCommands>,
    },
}

/// The batch cut to the mapped-circuit limit (see
/// `filter_batch_by_mapped_circuit_limit`).
pub open spec fn mapped_limit_outcome(
    batch: Seq<BakeryCommands>,
    existing: Map<i64, BakeryCommands>,
    limit: Option<usize>,
    out: Seq<BakeryCommands>,
    stats: MappedLimitStats,
) -> bool {
    let cands = mapped_candidates(batch);
    &&& stats.enforced_limit == limit
    &&& stats.requested_mapped == cands.len()
    &&& match limit {
        Some(l) if cands.len() > l => {
            &&& out == surviving(batch, kept_mapped(cands, existing_mapped(existing), l as nat))
            &&& stats.allowed_mapped == l
            &&& stats.dropped_mapped == cands.len() - l
        },
        _ => {
            &&& out == batch
            &&& stats.allowed_mapped == cands.len()
            &&& stats.dropped_mapped == 0
        },
    }
}

/// `r` is a full reload for `summary` of `raw` cut to the limit against the
/// baseline circuits `bc`.
pub open spec fn full_reload_as(
    r: CommitPlan,
    summary: Seq<char>,
    raw: Seq<BakeryCommands>,
    bc: Map<i64, BakeryCommands>,
    limit: Option<usize>,
) -> bool {
    r matches CommitPlan::FullReload { summary: s, batch, stats } && s@ == summary && mapped_limit_outcome(
        raw,
        bc,
        limit,
        batch@,
        stats,
    )
}

/// The site tree changed shape between `old` and `new`.
pub open spec fn site_structure_changed(old: Map<i64, BakeryCommands>, new: Map<i64, BakeryCommands>) -> bool {
    old.len() != new.len() || exists|k: i64| site_blocks(old, new, k)
}

/// Nothing differs between the `old` and `new` sites.
pub open spec fn sites_unchanged(old: Map<i64, BakeryCommands>, new: Map<i64, BakeryCommands>) -> bool {
    !site_structure_changed(old, new) && !exists|k: i64, c: BakeryCommands| speed_change_for(old, new, k, c)
}

/// `ct` holds the circuits with each pending migration's target in place.
pub open spec fn with_migration_targets(
    ct: Map<i64, BakeryCommands>,
    circuits: Map<i64, BakeryCommands>,
    migrations: Map<i64, Migration>,
) -> bool {
    &&& ct.dom() == circuits.dom() + migrations.dom()
    &&& forall|k: i64| #[trigger] migrations.contains_key(k) ==> same_command(ct[k], migrations[k].desired_cmd)
    &&& forall|k: i64| #[trigger]
        circuits.contains_key(k) && !migrations.contains_key(k) ==> same_command(ct[k], circuits[k])
}

/// The pending reload reason: the recorded reason while a reload is required.
pub open spec fn pending_reload_reason(t: BakeryTelemetryState) -> Option<Seq<char>> {
    if t.reload_required {
        opt_view(t.reload_required_reason)
    } else {
        None
    }
}

/// The baseline a commit compares the batch's site tree with (`bs`, `bc`:
/// the tree before any runtime virtualization).
pub open spec fn commit_baseline(
    sites: Map<i64, BakeryCommands>,
    circuits: Map<i64, BakeryCommands>,
    vs: Map<i64, VirtualizedSiteState>,
    bs: Map<i64, BakeryCommands>,
    bc: Map<i64, BakeryCommands>,
) -> bool {
    exists|o: Seq<i64>| #[trigger] baseline_result(o, sites, circuits, vs, bs, bc)
}

/// What a commit compares with the live tree: the batch with the runtime
/// virtualization overlay (`eff`), and the live circuits with pending
/// migration targets (`ct`).
pub open spec fn commit_live_views(
    circuits: Map<i64, BakeryCommands>,
    vs: Map<i64, VirtualizedSiteState>,
    migrations: Map<i64, Migration>,
    raw: Seq<BakeryCommands>,
    eff: Seq<BakeryCommands>,
    ct: Map<i64, BakeryCommands>,
) -> bool {
    &&& exists|o: Seq<i64>| #[trigger] overlay_result(o, raw, vs, eff)
    &&& with_migration_targets(ct, circuits, migrations)
}

/// What committing `raw` does, in order of precedence:
/// - a pending reload reason forces a full reload;
/// - so does a root MQ that was never set up (a cold start);
/// - so does a change of queue mode (shape or observe);
/// - so does a change of the site tree's shape against the baseline (with
///   the site diff's summary);
/// - when neither the sites nor the circuits differ from the live tree,
///   nothing happens;
/// - otherwise the changes are applied live, with the site speed changes the
///   site diff reports.
///
/// (The circuit diff reports no structural circuit change, so no
/// circuit-structure rebuild arises here.)
pub open spec fn commit_outcome(
    t: BakeryTelemetryState,
    mq_created: bool,
    tree_active: bool,
    desired_active: bool,
    limit: Option<usize>,
    sites: Map<i64, BakeryCommands>,
    circuits: Map<i64, BakeryCommands>,
    vs: Map<i64, VirtualizedSiteState>,
    migrations: Map<i64, Migration>,
    raw: Seq<BakeryCommands>,
    bs: Map<i64, BakeryCommands>,
    bc: Map<i64, BakeryCommands>,
    r: CommitPlan,
) -> bool {
    if pending_reload_reason(t) is Some {
        full_reload_as(
            r,
            "Bakery full reload triggered by reload-required state: "@ + pending_reload_reason(t)->0,
            raw,
            bc,
            limit,
        )
    } else if !mq_created {
        full_reload_as(r, "Bakery full reload triggered by baseline rebuild after restart/cold start."@, raw, bc, limit)
    } else if tree_active != desired_active {
        full_reload_as(
            r,
            "Bakery full reload triggered by queue mode transition to "@ + (if desired_active {
                "shape"@
            } else {
                "observe"@
            }) + "."@,
            raw,
            bc,
            limit,
        )
    } else if site_structure_changed(bs, batch_sites(raw)) {
        exists|s: String, d| #[trigger]
            site_diff_matches(bs, batch_sites(raw), SiteDiffResult::RebuildRequired { summary: s, details: d })
                && full_reload_as(r, s@, raw, bc, limit)
    } else {
        exists|eff: Seq<BakeryCommands>, ct: Map<i64, BakeryCommands>| #[trigger]
            commit_live_views(circuits, vs, migrations, raw, eff, ct) && if sites_unchanged(
                sites,
                batch_sites(eff),
            ) && !circuits_differ(ct, batch_circuits(eff)) {
                r is NoChange
            } else {
                r matches CommitPlan::Incremental { effective_batch, site_speed_changes } && effective_batch@ == eff
                    && exists|sd: SiteDiffResult| #[trigger]
                    site_diff_matches(sites, batch_sites(eff), sd) && site_speed_changes@ == match sd {
                        SiteDiffResult::SpeedChanges { changes } => changes@,
                        _ => Seq::<BakeryCommands>::empty(),
                    }
            }
    }
}

fn full_reload(
    summary: String,
    raw: Vec<BakeryCommands>,
    baseline_circuits: &HashMap<i64, BakeryCommands>,
    limit: Option<usize>,
) -> (r: CommitPlan)
    ensures
        full_reload_as(r, summary@, raw@, baseline_circuits@, limit),
{
    let (batch, stats) = filter_batch_by_mapped_circuit_limit(raw, baseline_circuits, limit);
    CommitPlan::FullReload { summary, batch, stats }
}

/// Decides what committing `raw` does (see [`commit_outcome`]): `telemetry`
/// holds the reload-required state, `mq_created` whether the root MQ was set
/// up, `tree_active` whether the shaping tree is live, `desired_active`
/// whether the queue mode wants it live, and `limit` the mapped-circuit
/// limit.
pub fn plan_commit_batch(
    raw: Vec<BakeryCommands>,
    sites: &HashMap<i64, BakeryCommands>,
    circuits: &HashMap<i64, BakeryCommands>,
    virtualized_sites: &HashMap<i64, VirtualizedSiteState>,
    migrations: &HashMap<i64, Migration>,
    telemetry: &BakeryTelemetryState,
    mq_created: bool,
    tree_active: bool,
    desired_active: bool,
    limit: Option<usize>,
) -> (r: CommitPlan)
    ensures
        exists|bs: Map<i64, BakeryCommands>, bc: Map<i64, BakeryCommands>|
            #[trigger] commit_baseline(sites@, circuits@, virtualized_sites@, bs, bc) && commit_outcome(
                *telemetry,
                mq_created,
                tree_active,
                desired_active,
                limit,
                sites@,
                circuits@,
                virtualized_sites@,
                migrations@,
                raw@,
                bs,
                bc,
                r,
            ),
{
    let ghost raw0 = raw@;
    let (baseline_sites, baseline_circuits) = reconstruct_structural_baseline_state(sites, circuits, virtualized_sites);
    let ghost bs = baseline_sites@;
    let ghost bc = baseline_circuits@;
    assert(commit_baseline(sites@, circuits@, virtualized_sites@, bs, bc));
    let r = match bakery_reload_required_reason(telemetry) {
        Some(reason) => {
            let mut summary = owned("Bakery full reload triggered by reload-required state: ");
            append_str(&mut summary, reason.as_str());
            full_reload(summary, raw, &baseline_circuits, limit)
        },
        None => if !mq_created {
            full_reload(
                owned("Bakery full reload triggered by baseline rebuild after restart/cold start."),
                raw,
                &baseline_circuits,
                limit,
            )
        } else if tree_active != desired_active {
            let mut summary = owned("Bakery full reload triggered by queue mode transition to ");
            if desired_active {
                append_str(&mut summary, "shape");
            } else {
                append_str(&mut summary, "observe");
            }
            append_str(&mut summary, ".");
            full_reload(summary, raw, &baseline_circuits, limit)
        } else {
            match diff_sites(&raw, &baseline_sites) {
                SiteDiffResult::RebuildRequired { summary, details } => {
                    let ghost s = summary;
                    assert(site_diff_matches(
                        bs,
                        batch_sites(raw0),
                        SiteDiffResult::RebuildRequired { summary: s, details },
                    ));
                    full_reload(summary, raw, &baseline_circuits, limit)
                },
                _ => {
                    let effective = apply_runtime_virtualization_overlay(raw, virtualized_sites);
                    let circuits_for_diff = circuits_with_pending_migration_targets(circuits, migrations);
                    let ghost eff = effective@;
                    let ghost ct = circuits_for_diff@;
                    assert(commit_live_views(circuits@, virtualized_sites@, migrations@, raw0, eff, ct));
                    let site_change = diff_sites(&effective, sites);
                    let circuit_change = diff_circuits(&effective, &circuits_for_diff);
                    let unchanged = match (&site_change, &circuit_change) {
                        (SiteDiffResult::NoChange, CircuitDiffResult::NoChange) => true,
                        _ => false,
                    };
                    if unchanged {
                        CommitPlan::NoChange
                    } else {
                        let ghost sd = site_change;
                        assert(site_diff_matches(sites@, batch_sites(eff), sd));
                        let site_speed_changes = match site_change {
                            SiteDiffResult::SpeedChanges { changes } => changes,
                            _ => Vec::new(),
                        };
                        CommitPlan::Incremental { effective_batch: effective, site_speed_changes }
                    }
                },
            }
        },
    };
    r
}

/// What one incoming command does to the open batch.
#[derive(Debug)]
pub enum BatchAction {
    /// A new, empty batch was opened (dropping any open one).
    Opened,
    /// The command joined the open batch.
    Queued,
    /// A tree command arrived with no batch open and was dropped.
    Dropped,
    /// Commit the batch that was open, if any; none is open afterwards.
    Commit(Option<Vec<BakeryCommands>>),
    /// Not a batch command: handle it directly.
    Other(BakeryCommands),
}

/// Whether a command builds the tree and so only travels inside a batch.
pub open spec fn is_tree_command(c: BakeryCommands) -> bool {
    c is MqSetup || c is AddSite || c is AddCircuit
}

/// Routes one command through the batch: `StartBatch` opens an empty batch,
/// `CommitBatch` hands over the open batch (if any) and closes it, a tree
/// command (`MqSetup`, `AddSite`, `AddCircuit`) joins the open batch or is
/// dropped when none is open, and any other command is returned untouched.
pub fn batch_step(batch: &mut Option<Vec<BakeryCommands>>, command: BakeryCommands) -> (r: BatchAction)
    ensures
        command is StartBatch ==> r is Opened && (*final(batch) matches Some(v) && v@.len() == 0),
        command is CommitBatch ==> *final(batch) is None && (r matches BatchAction::Commit(c) && match (
            c,
            *old(batch),
        ) {
            (Some(x), Some(y)) => x@ == y@,
            (None, None) => true,
            _ => false,
        }),
        is_tree_command(command) ==> match *old(batch) {
            Some(b) => r is Queued && (*final(batch) matches Some(v) && v@ == b@.push(command)),
            None => r is Dropped && *final(batch) is None,
        },
        !(command is StartBatch) && !(command is CommitBatch) && !is_tree_command(command) ==> r
            == BatchAction::Other(command) && *final(batch) == *old(batch),
{
    match command {
        BakeryCommands::StartBatch => {
            *batch = Some(Vec::new());
            BatchAction::Opened
        },
        BakeryCommands::CommitBatch => BatchAction::Commit(batch.take()),
        BakeryCommands::MqSetup { .. } | BakeryCommands::AddSite { .. } | BakeryCommands::AddCircuit { .. } => {
            match batch {
                Some(b) => {
                    b.push(command);
                    BatchAction::Queued
                },
                None => BatchAction::Dropped,
            }
        },
        other => BatchAction::Other(other),
    }
}

/// The deletions that take a removed circuit out of the live tree: all of
/// it without lazy queues; with lazy queues only what was built, which is
/// nothing until the circuit was activated (its SQM qdiscs for lazy HTB,
/// qdiscs and classes for fully lazy queues).
pub open spec fn removal_prune_argvs(circuit: BakeryCommands, cfg: BakeryConfig, activated: bool) -> Option<
    Seq<Seq<Seq<char>>>,
> {
    match cfg.lazy_queues {
        None => to_prune_spec(circuit, cfg, true),
        Some(LazyQueueMode::No) => to_prune_spec(circuit, cfg, true),
        Some(LazyQueueMode::Htb) => if activated {
            to_prune_spec(circuit, cfg, false)
        } else {
            None
        },
        Some(LazyQueueMode::Full) => if activated {
            to_prune_spec(circuit, cfg, true)
        } else {
            None
        },
    }
}

/// Removes a circuit the batch no longer holds: it leaves the known and the
/// activated circuits, and the deletions to run are returned (see
/// [`removal_prune_argvs`]); `None` for an unknown circuit.
pub fn remove_committed_circuit(
    circuit_hash: i64,
    circuits: &mut HashMap<i64, BakeryCommands>,
    live_circuits: &mut HashMap<i64, u64>,
    config: &BakeryConfig,
) -> (r: Option<Vec<Vec<String>>>)
    ensures
        final(circuits)@ == old(circuits)@.remove(circuit_hash),
        old(circuits)@.contains_key(circuit_hash) ==> final(live_circuits)@ == old(live_circuits)@.remove(
            circuit_hash,
        ) && opt_cmds_view(r) == removal_prune_argvs(
            old(circuits)@[circuit_hash],
            *config,
            old(live_circuits)@.contains_key(circuit_hash),
        ),
        !old(circuits)@.contains_key(circuit_hash) ==> final(live_circuits)@ == old(live_circuits)@ && r is None,
{
    match circuits.remove(&circuit_hash) {
        Some(circuit) => {
            let was_activated = live_circuits.contains_key(&circuit_hash);
            let commands = match config.lazy_queues {
                None => circuit.to_prune(config, true),
                Some(LazyQueueMode::No) => circuit.to_prune(config, true),
                Some(LazyQueueMode::Htb) => if was_activated {
                    circuit.to_prune(config, false)
                } else {
                    None
                },
                Some(LazyQueueMode::Full) => if was_activated {
                    circuit.to_prune(config, true)
                } else {
                    None
                },
            };
            live_circuits.remove(&circuit_hash);
            commands
        },
        None => None,
    }
}

/// Appends the commands of `o`, if any.
pub open spec fn then_cmds(a: Seq<Seq<Seq<char>>>, o: Option<Seq<Seq<Seq<char>>>>) -> Seq<Seq<Seq<char>>> {
    match o {
        Some(x) => a + x,
        None => a,
    }
}

/// The immediate commands that apply a circuit's new rates when it cannot
/// be migrated: without lazy queues, delete it and build it again; for lazy
/// HTB, an activated circuit loses its SQM and is built again (classes,
/// then qdiscs), an inactive one only gets its classes; for fully lazy
/// queues an activated circuit is deleted and built again, an inactive one
/// needs nothing. `rates` are the circuit's rates written for `tc`.
pub open spec fn speed_fallback_argvs(
    circuit: BakeryCommands,
    cfg: BakeryConfig,
    activated: bool,
    rates: CircuitRateStrings,
) -> Seq<Seq<Seq<char>>> {
    let e = Seq::<Seq<Seq<char>>>::empty();
    match cfg.lazy_queues {
        Some(LazyQueueMode::Htb) => if activated {
            then_cmds(
                then_cmds(
                    then_cmds(e, to_prune_spec(circuit, cfg, false)),
                    add_circuit_argvs(circuit, ExecutionMode::Builder, cfg, rates),
                ),
                add_circuit_argvs(circuit, ExecutionMode::LiveUpdate, cfg, rates),
            )
        } else {
            then_cmds(e, add_circuit_argvs(circuit, ExecutionMode::Builder, cfg, rates))
        },
        Some(LazyQueueMode::Full) => if activated {
            then_cmds(
                then_cmds(e, to_prune_spec(circuit, cfg, true)),
                add_circuit_argvs(circuit, ExecutionMode::LiveUpdate, cfg, rates),
            )
        } else {
            e
        },
        _ => then_cmds(
            then_cmds(e, to_prune_spec(circuit, cfg, true)),
            add_circuit_argvs(circuit, ExecutionMode::Builder, cfg, rates),
        ),
    }
}

/// Appends the commands of `o`, if any.
fn extend_with(out: &mut Vec<Vec<String>>, o: Option<Vec<Vec<String>>>)
    ensures
        final(out).deep_view() == then_cmds(old(out).deep_view(), opt_cmds_view(o)),
{
    match o {
        Some(v) => {
            let ghost before = out.deep_view();
            let mut v = v;
            let ghost vv = v.deep_view();
            out.append(&mut v);
            assert(out.deep_view() =~= before + vv);
        },
        None => {},
    }
}

/// The immediate commands for a circuit's speed change (see
/// [`speed_fallback_argvs`]).
pub fn speed_fallback_commands(
    circuit: &BakeryCommands,
    config: &BakeryConfig,
    was_activated: bool,
    rates: &CircuitRateStrings,
) -> (r: Vec<Vec<String>>)
    ensures
        r.deep_view() == speed_fallback_argvs(*circuit, *config, was_activated, *rates),
{
    let mut out: Vec<Vec<String>> = Vec::new();
    proof {
        assert(out.deep_view() =~= Seq::<Seq<Seq<char>>>::empty());
    }
    match config.lazy_queues {
        Some(LazyQueueMode::Htb) => {
            if was_activated {
                extend_with(&mut out, circuit.to_prune(config, false));
                extend_with(&mut out, circuit.add_circuit(ExecutionMode::Builder, config, rates));
                extend_with(&mut out, circuit.add_circuit(ExecutionMode::LiveUpdate, config, rates));
            } else {
                extend_with(&mut out, circuit.add_circuit(ExecutionMode::Builder, config, rates));
            }
        },
        Some(LazyQueueMode::Full) => {
            if was_activated {
                extend_with(&mut out, circuit.to_prune(config, true));
                extend_with(&mut out, circuit.add_circuit(ExecutionMode::LiveUpdate, config, rates));
            }
        },
        _ => {
            extend_with(&mut out, circuit.to_prune(config, true));
            extend_with(&mut out, circuit.add_circuit(ExecutionMode::Builder, config, rates));
        },
    }
    out
}

} // verus!
