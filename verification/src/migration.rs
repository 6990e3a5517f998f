//! Live circuit migrations: a circuit moves to a new parent through a
//! temporary shadow class; these are the records, checks and decisions that
//! drive the move.
use vstd::prelude::*;
use std::collections::HashMap;
use std::collections::HashSet;
use crate::commands::{clone_exact, opt_view, same_command, BakeryCommands};
use crate::config::BakeryConfig;
use crate::live_tc::LiveTcClassEntry;
use crate::maps::{lemma_seq_exists_to_set, map_keys};
use vstd::std_specs::hash::spec_values_iter;
use vstd::std_specs::iter::IteratorSpec;
use crate::mapped_limit::{ip_list, parse_ip_list, string_views};
use crate::runtime::{labelled, opt_str_view, runtime_circuit_label};
use crate::tc_handle::{handle_value, qdisc_handle_seq, qdisc_handle_string, tc_seq, TcHandle};
use crate::telemetry::{
    activity_after, apply_result_summary, bakery_reload_required_reason, clear_reload_required,
    is_live_migration_reason, is_live_migration_reload_required_reason, mark_reload_required,
    push_bakery_event, summarize_apply_result, BakeryActivityEntry, BakeryTelemetryState,
    ExecuteResult,
};
use crate::text::{append_str, dec_int, dec_seq, dec_string, dec_string_i64, owned};

verus! {

broadcast use vstd::std_specs::hash::group_hash_axioms;

/// Verification attempts allowed for a migration stage.
pub const MIGRATION_VERIFICATION_MAX_RETRIES: u8 = 3;

/// Stage of a live migration.
#[derive(Clone, Copy, Debug, PartialEq, Eq, Structural)]
pub enum MigrationStage {
    /// Build the shadow class.
    PrepareShadow,
    /// Confirm the shadow class is live.
    VerifyShadowReady,
    /// Move traffic to the shadow class.
    SwapToShadow,
    /// Build the final class.
    BuildFinal,
    /// Confirm the final class is live.
    VerifyFinalReady,
    /// Move traffic to the final class.
    SwapToFinal,
    /// Remove the shadow class.
    TeardownMigrationScaffold,
    /// Finished (or abandoned).
    Done,
}

/// A pending live migration of one circuit.
#[derive(Debug)]
pub struct Migration {
    /// Circuit hash.
    pub circuit_hash: i64,
    /// Human circuit name, if known.
    pub circuit_name: Option<String>,
    /// Human site name, if known.
    pub site_name: Option<String>,
    /// Previous downlink class major.
    pub old_class_major: u16,
    /// Previous uplink class major.
    pub old_up_class_major: u16,
    /// Previous downlink leaf qdisc handle.
    pub old_down_qdisc_handle: Option<u16>,
    /// Previous uplink leaf qdisc handle.
    pub old_up_qdisc_handle: Option<u16>,
    /// New downlink parent.
    pub parent_class_id: TcHandle,
    /// New uplink parent.
    pub up_parent_class_id: TcHandle,
    /// New downlink class major.
    pub class_major: u16,
    /// New uplink class major.
    pub up_class_major: u16,
    /// New downlink leaf qdisc handle.
    pub down_qdisc_handle: Option<u16>,
    /// New uplink leaf qdisc handle.
    pub up_qdisc_handle: Option<u16>,
    /// Previous minimum download rate (Mbps, `f32` bits).
    pub old_down_min: u32,
    /// Previous maximum download rate (Mbps, `f32` bits).
    pub old_down_max: u32,
    /// Previous minimum upload rate (Mbps, `f32` bits).
    pub old_up_min: u32,
    /// Previous maximum upload rate (Mbps, `f32` bits).
    pub old_up_max: u32,
    /// New minimum download rate (Mbps, `f32` bits).
    pub new_down_min: u32,
    /// New maximum download rate (Mbps, `f32` bits).
    pub new_down_max: u32,
    /// New minimum upload rate (Mbps, `f32` bits).
    pub new_up_min: u32,
    /// New maximum upload rate (Mbps, `f32` bits).
    pub new_up_max: u32,
    /// Previous class minor.
    pub old_minor: u16,
    /// Minor of the temporary shadow class.
    pub shadow_minor: u16,
    /// Minor of the final class.
    pub final_minor: u16,
    /// The circuit's IP addresses, for remapping.
    pub ips: Vec<String>,
    /// SQM override, if any.
    pub sqm_override: Option<String>,
    /// The circuit's desired final command.
    pub desired_cmd: BakeryCommands,
    /// Current stage.
    pub stage: MigrationStage,
    /// Shadow verification attempts so far.
    pub shadow_verify_attempts: u8,
    /// Final verification attempts so far.
    pub final_verify_attempts: u8,
}

/// `circuit <label>` or `circuit <label> at site <site>` when the site is named.
pub open spec fn migration_label(m: Migration) -> Seq<char> {
    let circuit = labelled(m.circuit_hash, opt_view(m.circuit_name));
    match opt_view(m.site_name) {
        Some(site) if site.len() > 0 => "circuit "@ + circuit + " at site "@ + site,
        _ => "circuit "@ + circuit,
    }
}

/// Operator-facing label of a migration's target circuit.
pub fn migration_target_label(migration: &Migration) -> (r: String)
    ensures
        r@ == migration_label(*migration),
{
    let circuit_label = match &migration.circuit_name {
        Some(n) => runtime_circuit_label(migration.circuit_hash, Some(n.as_str())),
        None => runtime_circuit_label(migration.circuit_hash, None),
    };
    let mut s = owned("circuit ");
    append_str(&mut s, circuit_label.as_str());
    match &migration.site_name {
        Some(site) if site.as_str().unicode_len() > 0 => {
            append_str(&mut s, " at site ");
            append_str(&mut s, site.as_str());
        },
        _ => {},
    }
    s
}

/// What a live class snapshot shows about one expected class.
#[derive(Debug)]
pub struct MigrationDirectionVerification {
    /// Interface inspected.
    pub interface_name: String,
    /// Class that should exist.
    pub expected_handle: TcHandle,
    /// Parent it should have.
    pub expected_parent: TcHandle,
    /// Whether the class was seen.
    pub observed_present: bool,
    /// Observed parent; `None` at the root or when missing.
    pub observed_parent: Option<TcHandle>,
    /// Observed leaf qdisc major, if any.
    pub observed_leaf_qdisc_major: Option<u16>,
}

/// The expected class sits under the expected parent with a leaf qdisc.
pub open spec fn direction_ready(v: MigrationDirectionVerification) -> bool {
    v.observed_parent == Some(v.expected_parent) && v.observed_leaf_qdisc_major is Some
}

/// What was observed, in words.
pub open spec fn observed_text(v: MigrationDirectionVerification) -> Seq<char> {
    if !v.observed_present {
        "observed missing"@
    } else {
        match (v.observed_parent, v.observed_leaf_qdisc_major) {
            (Some(p), Some(leaf)) => "observed parent "@ + tc_seq(p.0) + " with leaf qdisc "@
                + qdisc_handle_seq(leaf),
            (Some(p), None) => "observed parent "@ + tc_seq(p.0) + " with no leaf qdisc"@,
            (None, Some(leaf)) => "observed at root with leaf qdisc "@ + qdisc_handle_seq(leaf),
            (None, None) => "observed at root with no leaf qdisc"@,
        }
    }
}

/// `<direction> <iface> expected class <h> under parent <p> with a leaf qdisc, <observed>`
pub open spec fn direction_summary(v: MigrationDirectionVerification, direction: Seq<char>) -> Seq<
    char,
> {
    direction + " "@ + v.interface_name@ + " expected class "@ + tc_seq(v.expected_handle.0)
        + " under parent "@ + tc_seq(v.expected_parent.0) + " with a leaf qdisc, "@ + observed_text(
        v,
    )
}

impl MigrationDirectionVerification {
    /// Whether the expected class is live under its parent with a leaf qdisc.
    pub fn ready(&self) -> (r: bool)
        ensures
            r == direction_ready(*self),
    {
        match self.observed_parent {
            Some(p) => p == self.expected_parent && self.observed_leaf_qdisc_major.is_some(),
            None => false,
        }
    }

    /// Operator-facing description of what was expected and what was seen.
    pub fn summary(&self, direction: &str) -> (r: String)
        ensures
            r@ == direction_summary(*self, direction@),
    {
        let observed = if !self.observed_present {
            owned("observed missing")
        } else {
            match (self.observed_parent, self.observed_leaf_qdisc_major) {
                (Some(p), Some(leaf)) => {
                    let mut o = owned("observed parent ");
                    let ps = p.as_tc_string();
                    append_str(&mut o, ps.as_str());
                    append_str(&mut o, " with leaf qdisc ");
                    let ls = qdisc_handle_string(leaf);
                    append_str(&mut o, ls.as_str());
                    o
                },
                (Some(p), None) => {
                    let mut o = owned("observed parent ");
                    let ps = p.as_tc_string();
                    append_str(&mut o, ps.as_str());
                    append_str(&mut o, " with no leaf qdisc");
                    o
                },
                (None, Some(leaf)) => {
                    let mut o = owned("observed at root with leaf qdisc ");
                    let ls = qdisc_handle_string(leaf);
                    append_str(&mut o, ls.as_str());
                    o
                },
                (None, None) => owned("observed at root with no leaf qdisc"),
            }
        };
        let mut s = owned(direction);
        append_str(&mut s, " ");
        append_str(&mut s, self.interface_name.as_str());
        append_str(&mut s, " expected class ");
        let eh = self.expected_handle.as_tc_string();
        append_str(&mut s, eh.as_str());
        append_str(&mut s, " under parent ");
        let ep = self.expected_parent.as_tc_string();
        append_str(&mut s, ep.as_str());
        append_str(&mut s, " with a leaf qdisc, ");
        append_str(&mut s, observed.as_str());
        s
    }
}

/// Verification of both directions of a migration branch (uplink absent on a stick).
#[derive(Debug)]
pub struct MigrationBranchVerification {
    /// Downlink check.
    pub down: MigrationDirectionVerification,
    /// Uplink check, if there is an uplink interface.
    pub up: Option<MigrationDirectionVerification>,
}

/// Both present directions are ready.
pub open spec fn branch_ready(b: MigrationBranchVerification) -> bool {
    direction_ready(b.down) && match b.up {
        Some(u) => direction_ready(u),
        None => true,
    }
}

/// The direction summaries, joined by `; `.
pub open spec fn branch_summary(b: MigrationBranchVerification) -> Seq<char> {
    match b.up {
        Some(u) => direction_summary(b.down, "down"@) + "; "@ + direction_summary(u, "up"@),
        None => direction_summary(b.down, "down"@),
    }
}

impl MigrationBranchVerification {
    /// Whether every checked direction is ready.
    pub fn ready(&self) -> (r: bool)
        ensures
            r == branch_ready(*self),
    {
        self.down.ready() && match &self.up {
            Some(u) => u.ready(),
            None => true,
        }
    }

    /// Operator-facing description of both directions.
    pub fn summary(&self) -> (r: String)
        ensures
            r@ == branch_summary(*self),
    {
        let mut s = self.down.summary("down");
        match &self.up {
            Some(u) => {
                append_str(&mut s, "; ");
                let us = u.summary("up");
                append_str(&mut s, us.as_str());
            },
            None => {},
        }
        s
    }
}

/// What a class snapshot (keyed by raw handle) shows about an expected class.
pub fn verify_migration_direction(
    interface_name: String,
    snapshot: &HashMap<u32, LiveTcClassEntry>,
    expected_handle: TcHandle,
    expected_parent: TcHandle,
) -> (r: MigrationDirectionVerification)
    ensures
        r.interface_name == interface_name,
        r.expected_handle == expected_handle,
        r.expected_parent == expected_parent,
        r.observed_present == snapshot@.contains_key(expected_handle.0),
        r.observed_parent == if snapshot@.contains_key(expected_handle.0) {
            snapshot@[expected_handle.0].parent
        } else {
            None
        },
        r.observed_leaf_qdisc_major == if snapshot@.contains_key(expected_handle.0) {
            snapshot@[expected_handle.0].leaf_qdisc_major
        } else {
            None
        },
{
    let key = expected_handle.as_u32();
    match snapshot.get(&key) {
        Some(e) => MigrationDirectionVerification {
            interface_name,
            expected_handle,
            expected_parent,
            observed_present: true,
            observed_parent: e.parent,
            observed_leaf_qdisc_major: e.leaf_qdisc_major,
        },
        None => MigrationDirectionVerification {
            interface_name,
            expected_handle,
            expected_parent,
            observed_present: false,
            observed_parent: None,
            observed_leaf_qdisc_major: None,
        },
    }
}

/// `qdisc del dev <iface> parent <h>` then `class del dev <iface> classid <h>`
/// (the first only when a leaf qdisc is attached), for a class seen under the
/// wrong parent.
pub open spec fn wrong_parent_prune_argvs(
    iface: Seq<char>,
    snapshot: Map<u32, LiveTcClassEntry>,
    expected_handle: TcHandle,
    expected_parent: TcHandle,
) -> Seq<Seq<Seq<char>>> {
    if !snapshot.contains_key(expected_handle.0) || snapshot[expected_handle.0].parent == Some(
        expected_parent,
    ) {
        Seq::empty()
    } else {
        let h = tc_seq(expected_handle.0);
        let class_del = seq!["class"@, "del"@, "dev"@, iface, "classid"@, h];
        if snapshot[expected_handle.0].leaf_qdisc_major is Some {
            seq![seq!["qdisc"@, "del"@, "dev"@, iface, "parent"@, h], class_del]
        } else {
            seq![class_del]
        }
    }
}

/// Deletions that clear an expected class observed under the wrong parent (or
/// at the root), so it can be rebuilt in place.
pub fn wrong_parent_prune_commands_for_direction(
    interface_name: String,
    snapshot: &HashMap<u32, LiveTcClassEntry>,
    expected_handle: TcHandle,
    expected_parent: TcHandle,
) -> (r: Vec<Vec<String>>)
    ensures
        r.deep_view() == wrong_parent_prune_argvs(
            interface_name@,
            snapshot@,
            expected_handle,
            expected_parent,
        ),
{
    let key = expected_handle.as_u32();
    let observed = match snapshot.get(&key) {
        Some(e) => e,
        None => {
            let v: Vec<Vec<String>> = Vec::new();
            assert(v.deep_view() =~= Seq::<Seq<Seq<char>>>::empty());
            return v;
        },
    };
    if observed.parent == Some(expected_parent) {
        let v: Vec<Vec<String>> = Vec::new();
        assert(v.deep_view() =~= Seq::<Seq<Seq<char>>>::empty());
        return v;
    }
    let mut commands: Vec<Vec<String>> = Vec::new();
    if observed.leaf_qdisc_major.is_some() {
        let v = vec![
            owned("qdisc"),
            owned("del"),
            owned("dev"),
            owned(interface_name.as_str()),
            owned("parent"),
            expected_handle.as_tc_string(),
        ];
        commands.push(v);
    }
    let c = vec![
        owned("class"),
        owned("del"),
        owned("dev"),
        interface_name,
        owned("classid"),
        expected_handle.as_tc_string(),
    ];
    commands.push(c);
    proof {
        let iface = interface_name@;
        let h = tc_seq(expected_handle.0);
        assert(commands@.last().deep_view() =~= seq!["class"@, "del"@, "dev"@, iface, "classid"@, h]);
        if observed.leaf_qdisc_major is Some {
            assert(commands@[0].deep_view() =~= seq!["qdisc"@, "del"@, "dev"@, iface, "parent"@, h]);
        }
    }
    assert(commands.deep_view() =~= wrong_parent_prune_argvs(
        interface_name@,
        snapshot@,
        expected_handle,
        expected_parent,
    ));
    commands
}

/// The class handle `major:minor`.
pub open spec fn class_handle(major: u16, minor: u16) -> TcHandle {
    TcHandle(handle_value(major, minor))
}

/// Verification of a migration branch from the observed class snapshots; the
/// uplink snapshot is consulted only when there is an uplink interface.
pub fn migration_branch_verification(
    config: &BakeryConfig,
    down_snapshot: &HashMap<u32, LiveTcClassEntry>,
    up_snapshot: Option<&HashMap<u32, LiveTcClassEntry>>,
    down_handle: TcHandle,
    down_parent: TcHandle,
    up_handle: TcHandle,
    up_parent: TcHandle,
) -> (r: MigrationBranchVerification)
    requires
        !config.on_a_stick ==> up_snapshot is Some,
    ensures
        r.down.interface_name@ == config.isp_interface@,
        r.down.expected_handle == down_handle,
        r.down.expected_parent == down_parent,
        r.down.observed_present == down_snapshot@.contains_key(down_handle.0),
        r.down.observed_present ==> r.down.observed_parent == down_snapshot@[down_handle.0].parent
            && r.down.observed_leaf_qdisc_major == down_snapshot@[down_handle.0].leaf_qdisc_major,
        !r.down.observed_present ==> r.down.observed_parent is None
            && r.down.observed_leaf_qdisc_major is None,
        config.on_a_stick ==> r.up is None,
        !config.on_a_stick ==> (r.up matches Some(u) && {
            let s = up_snapshot->0@;
            &&& u.interface_name@ == config.internet_interface@
            &&& u.expected_handle == up_handle
            &&& u.expected_parent == up_parent
            &&& u.observed_present == s.contains_key(up_handle.0)
            &&& u.observed_present ==> u.observed_parent == s[up_handle.0].parent
                && u.observed_leaf_qdisc_major == s[up_handle.0].leaf_qdisc_major
            &&& !u.observed_present ==> u.observed_parent is None
                && u.observed_leaf_qdisc_major is None
        }),
{
    let down = verify_migration_direction(config.isp_interface(), down_snapshot, down_handle, down_parent);
    if config.on_a_stick_mode() {
        return MigrationBranchVerification { down, up: None };
    }
    let up = match up_snapshot {
        Some(s) => verify_migration_direction(config.internet_interface(), s, up_handle, up_parent),
        None => {
            return MigrationBranchVerification { down, up: None };
        },
    };
    MigrationBranchVerification { down, up: Some(up) }
}

/// Deletions that clear a migration branch's classes seen under the wrong
/// parent: downlink first, then uplink unless on a stick.
pub fn migration_branch_wrong_parent_prune_commands(
    config: &BakeryConfig,
    down_snapshot: &HashMap<u32, LiveTcClassEntry>,
    up_snapshot: Option<&HashMap<u32, LiveTcClassEntry>>,
    down_handle: TcHandle,
    down_parent: TcHandle,
    up_handle: TcHandle,
    up_parent: TcHandle,
) -> (r: Vec<Vec<String>>)
    requires
        !config.on_a_stick ==> up_snapshot is Some,
    ensures
        r.deep_view() == wrong_parent_prune_argvs(
            config.isp_interface@,
            down_snapshot@,
            down_handle,
            down_parent,
        ) + if config.on_a_stick {
            Seq::empty()
        } else {
            wrong_parent_prune_argvs(
                config.internet_interface@,
                up_snapshot->0@,
                up_handle,
                up_parent,
            )
        },
{
    let mut commands = wrong_parent_prune_commands_for_direction(
        config.isp_interface(),
        down_snapshot,
        down_handle,
        down_parent,
    );
    if config.on_a_stick_mode() {
        assert(commands.deep_view() =~= commands.deep_view() + Seq::<Seq<Seq<char>>>::empty());
        return commands;
    }
    match up_snapshot {
        Some(s) => {
            let ghost first = commands.deep_view();
            let mut up = wrong_parent_prune_commands_for_direction(
                config.internet_interface(),
                s,
                up_handle,
                up_parent,
            );
            let ghost second = up.deep_view();
            commands.append(&mut up);
            assert(commands.deep_view() =~= first + second);
        },
        None => {},
    }
    commands
}

/// `Bakery live migration failed for circuit <hash> during <purpose>: <summary>. A full
/// reload is now required before further incremental topology mutations.`
pub open spec fn migration_failure_reason(circuit_hash: i64, purpose: Seq<char>, summary: Seq<char>) -> Seq<
    char,
> {
    "Bakery live migration failed for circuit "@ + dec_int(circuit_hash as int) + " during "@
        + purpose + ": "@ + summary
        + ". A full reload is now required before further incremental topology mutations."@
}

/// Marks a full reload as required because a live migration stage failed.
pub fn mark_migration_reload_required(
    telemetry: &mut BakeryTelemetryState,
    now_unix: u64,
    circuit_hash: i64,
    purpose: &str,
    result: &ExecuteResult,
)
    requires
        old(telemetry).wf(),
    ensures
        final(telemetry).wf(),
        final(telemetry).reload_required,
        opt_view(final(telemetry).reload_required_reason) == Some(
            migration_failure_reason(
                circuit_hash,
                purpose@,
                apply_result_summary(purpose@, result.ok, opt_view(result.failure_summary)),
            ),
        ),
        final(telemetry).mode == old(telemetry).mode,
{
    let summary = summarize_apply_result(purpose, result);
    let mut s = owned("Bakery live migration failed for circuit ");
    let h = dec_string_i64(circuit_hash);
    append_str(&mut s, h.as_str());
    append_str(&mut s, " during ");
    append_str(&mut s, purpose);
    append_str(&mut s, ": ");
    append_str(&mut s, summary.as_str());
    append_str(&mut s, ". A full reload is now required before further incremental topology mutations.");
    mark_reload_required(telemetry, now_unix, s);
}

/// Advances a migration after a stage's `tc` apply: on success to `next_stage`;
/// on failure the migration stops (`Done`) and a full reload becomes required.
pub fn migration_stage_apply_succeeded(
    telemetry: &mut BakeryTelemetryState,
    now_unix: u64,
    migration: &mut Migration,
    purpose: &str,
    result: &ExecuteResult,
    next_stage: MigrationStage,
) -> (r: bool)
    requires
        old(telemetry).wf(),
    ensures
        r == result.ok,
        final(telemetry).wf(),
        final(migration).stage == if result.ok {
            next_stage
        } else {
            MigrationStage::Done
        },
        final(migration).circuit_hash == old(migration).circuit_hash,
        result.ok ==> *final(telemetry) == *old(telemetry),
        !result.ok ==> final(telemetry).reload_required && opt_view(
            final(telemetry).reload_required_reason,
        ) == Some(
            migration_failure_reason(
                old(migration).circuit_hash,
                purpose@,
                apply_result_summary(purpose@, result.ok, opt_view(result.failure_summary)),
            ),
        ),
{
    if result.ok {
        migration.stage = next_stage;
        return true;
    }
    mark_migration_reload_required(telemetry, now_unix, migration.circuit_hash, purpose, result);
    migration.stage = MigrationStage::Done;
    false
}

/// A site uses minor `m` beneath a parent of the given major (downlink or uplink).
pub open spec fn site_uses_minor(site: BakeryCommands, major: u16, uplink: bool, m: u16) -> bool {
    match site {
        BakeryCommands::AddSite { parent_class_id, up_parent_class_id, class_minor, .. } => {
            &&& class_minor == m
            &&& if uplink {
                up_parent_class_id.major() == major
            } else {
                parent_class_id.major() == major
            }
        },
        _ => false,
    }
}

/// A circuit uses minor `m` in the given class major (downlink or uplink).
pub open spec fn circuit_uses_minor(circuit: BakeryCommands, major: u16, uplink: bool, m: u16) -> bool {
    match circuit {
        BakeryCommands::AddCircuit { class_minor, class_major, up_class_major, .. } => {
            &&& class_minor == m
            &&& if uplink {
                up_class_major == major
            } else {
                class_major == major
            }
        },
        _ => false,
    }
}

/// An unfinished migration holds shadow minor `m` in the given class major.
pub open spec fn migration_uses_minor(mig: Migration, major: u16, uplink: bool, m: u16) -> bool {
    &&& mig.stage != MigrationStage::Done
    &&& mig.shadow_minor == m
    &&& if uplink {
        mig.up_class_major == major
    } else {
        mig.class_major == major
    }
}

/// Minors taken by sites, circuits and unfinished migrations in a major.
pub open spec fn minor_taken(
    sites: Map<i64, BakeryCommands>,
    circuits: Map<i64, BakeryCommands>,
    migrations: Map<i64, Migration>,
    major: u16,
    uplink: bool,
    m: u16,
) -> bool {
    ||| exists|v: BakeryCommands| sites.values().contains(v) && #[trigger] site_uses_minor(v, major, uplink, m)
    ||| exists|v: BakeryCommands|
        circuits.values().contains(v) && #[trigger] circuit_uses_minor(v, major, uplink, m)
    ||| exists|v: Migration|
        migrations.values().contains(v) && #[trigger] migration_uses_minor(v, major, uplink, m)
}

/// The minor chosen among `1..=0xFFFE` by a free-minor search: the least free
/// one from `0x2000` up, or failing that the least free one overall.
pub open spec fn shadow_minor_choice(r: Option<u16>, free: spec_fn(u16) -> bool) -> bool {
    match r {
        Some(m) => {
            &&& 1 <= m <= 0xFFFE
            &&& free(m)
            &&& m >= 0x2000 ==> forall|x: u16| 0x2000 <= x < m ==> !#[trigger] free(x)
            &&& m < 0x2000 ==> (forall|x: u16| 0x2000 <= x <= 0xFFFE ==> !#[trigger] free(x)) && (
            forall|x: u16| 1 <= x < m ==> !#[trigger] free(x))
        },
        None => forall|x: u16| 1 <= x <= 0xFFFE ==> !#[trigger] free(x),
    }
}

/// Adds the minors that sites use beneath the given majors.
pub(crate) fn used_site_minors_for_majors(
    sites: &HashMap<i64, BakeryCommands>,
    down_major: u16,
    up_major: u16,
    used_down: &mut HashSet<u16>,
    used_up: &mut HashSet<u16>,
)
    ensures
        forall|m: u16| #[trigger] final(used_down)@.contains(m) <==> old(used_down)@.contains(m) || exists|
            v: BakeryCommands,
        | sites@.values().contains(v) && #[trigger] site_uses_minor(v, down_major, false, m),
        forall|m: u16| #[trigger] final(used_up)@.contains(m) <==> old(used_up)@.contains(m) || exists|
            v: BakeryCommands,
        | sites@.values().contains(v) && #[trigger] site_uses_minor(v, up_major, true, m),
{
    let ghost all = spec_values_iter(sites).remaining().unref();
    let ghost d0 = used_down@;
    let ghost u0 = used_up@;
    for site in it: sites.values()
        invariant
            it.seq().unref() == all,
            all.to_set() == sites@.values(),
            forall|m: u16| #[trigger] used_down@.contains(m) <==> d0.contains(m) || exists|j: int|
                0 <= j < it.index() && #[trigger] site_uses_minor(all[j], down_major, false, m),
            forall|m: u16| #[trigger] used_up@.contains(m) <==> u0.contains(m) || exists|j: int|
                0 <= j < it.index() && #[trigger] site_uses_minor(all[j], up_major, true, m),
    {
        let ghost idx = it.index() as int;
        let ghost before_down = used_down@;
        let ghost before_up = used_up@;
        assert(*site == all[idx]);
        match site {
            BakeryCommands::AddSite { parent_class_id, up_parent_class_id, class_minor, .. } => {
                if parent_class_id.get_major_minor().0 == down_major {
                    used_down.insert(*class_minor);
                }
                if up_parent_class_id.get_major_minor().0 == up_major {
                    used_up.insert(*class_minor);
                }
            },
            _ => {},
        }
        assert(forall|m: u16| #[trigger] used_down@.contains(m) <==> before_down.contains(m) || site_uses_minor(all[idx], down_major, false, m));
        assert(forall|m: u16| #[trigger] used_up@.contains(m) <==> before_up.contains(m) || site_uses_minor(all[idx], up_major, true, m));
        assert(it.index() == idx);
        proof {
            assert forall|m: u16| (exists|j: int|
                0 <= j < idx + 1 && #[trigger] site_uses_minor(all[j], down_major, false, m)) <==> ((
            exists|j: int| 0 <= j < idx && #[trigger] site_uses_minor(all[j], down_major, false, m))
                || site_uses_minor(all[idx], down_major, false, m)) by {
                if exists|j: int| 0 <= j < idx + 1 && #[trigger] site_uses_minor(all[j], down_major, false, m) {
                    let j = choose|j: int| 0 <= j < idx + 1 && #[trigger] site_uses_minor(all[j], down_major, false, m);
                    if j < idx {
                    }
                }
            }
            assert forall|m: u16| (exists|j: int|
                0 <= j < idx + 1 && #[trigger] site_uses_minor(all[j], up_major, true, m)) <==> ((
            exists|j: int| 0 <= j < idx && #[trigger] site_uses_minor(all[j], up_major, true, m))
                || site_uses_minor(all[idx], up_major, true, m)) by {
                if exists|j: int| 0 <= j < idx + 1 && #[trigger] site_uses_minor(all[j], up_major, true, m) {
                    let j = choose|j: int| 0 <= j < idx + 1 && #[trigger] site_uses_minor(all[j], up_major, true, m);
                    if j < idx {
                    }
                }
            }
        }
    }
    proof {
        assert forall|m: u16| #[trigger] used_down@.contains(m) <==> d0.contains(m) || exists|
            v: BakeryCommands,
        | sites@.values().contains(v) && #[trigger] site_uses_minor(v, down_major, false, m) by {
            lemma_seq_exists_to_set(all, |v: BakeryCommands| site_uses_minor(v, down_major, false, m));
        }
        assert forall|m: u16| #[trigger] used_up@.contains(m) <==> u0.contains(m) || exists|
            v: BakeryCommands,
        | sites@.values().contains(v) && #[trigger] site_uses_minor(v, up_major, true, m) by {
            lemma_seq_exists_to_set(all, |v: BakeryCommands| site_uses_minor(v, up_major, true, m));
        }
    }
}

/// Adds the minors that circuits use in the given class majors.
pub(crate) fn used_circuit_minors_for_majors(
    items: &HashMap<i64, BakeryCommands>,
    down_major: u16,
    up_major: u16,
    used_down: &mut HashSet<u16>,
    used_up: &mut HashSet<u16>,
)
    ensures
        forall|m: u16| #[trigger] final(used_down)@.contains(m) <==> old(used_down)@.contains(m) || exists|
            v: BakeryCommands,
        | items@.values().contains(v) && #[trigger] circuit_uses_minor(v, down_major, false, m),
        forall|m: u16| #[trigger] final(used_up)@.contains(m) <==> old(used_up)@.contains(m) || exists|
            v: BakeryCommands,
        | items@.values().contains(v) && #[trigger] circuit_uses_minor(v, up_major, true, m),
{
    let ghost all = spec_values_iter(items).remaining().unref();
    let ghost d0 = used_down@;
    let ghost u0 = used_up@;
    for item in it: items.values()
        invariant
            it.seq().unref() == all,
            all.to_set() == items@.values(),
            forall|m: u16| #[trigger] used_down@.contains(m) <==> d0.contains(m) || exists|j: int|
                0 <= j < it.index() && #[trigger] circuit_uses_minor(all[j], down_major, false, m),
            forall|m: u16| #[trigger] used_up@.contains(m) <==> u0.contains(m) || exists|j: int|
                0 <= j < it.index() && #[trigger] circuit_uses_minor(all[j], up_major, true, m),
    {
        let ghost idx = it.index() as int;
        let ghost before_down = used_down@;
        let ghost before_up = used_up@;
        assert(*item == all[idx]);
        match item {
            BakeryCommands::AddCircuit { class_minor, class_major, up_class_major, .. } => {
                if *class_major == down_major {
                    used_down.insert(*class_minor);
                }
                if *up_class_major == up_major {
                    used_up.insert(*class_minor);
                }
            },
            _ => {},
        }
        assert(forall|m: u16| #[trigger] used_down@.contains(m) <==> before_down.contains(m) || circuit_uses_minor(all[idx], down_major, false, m));
        assert(forall|m: u16| #[trigger] used_up@.contains(m) <==> before_up.contains(m) || circuit_uses_minor(all[idx], up_major, true, m));
        assert(it.index() == idx);
        proof {
            assert forall|m: u16| (exists|j: int|
                0 <= j < idx + 1 && #[trigger] circuit_uses_minor(all[j], down_major, false, m)) <==> ((
            exists|j: int| 0 <= j < idx && #[trigger] circuit_uses_minor(all[j], down_major, false, m))
                || circuit_uses_minor(all[idx], down_major, false, m)) by {
                if exists|j: int| 0 <= j < idx + 1 && #[trigger] circuit_uses_minor(all[j], down_major, false, m) {
                    let j = choose|j: int| 0 <= j < idx + 1 && #[trigger] circuit_uses_minor(all[j], down_major, false, m);
                    if j < idx {
                    }
                }
            }
            assert forall|m: u16| (exists|j: int|
                0 <= j < idx + 1 && #[trigger] circuit_uses_minor(all[j], up_major, true, m)) <==> ((
            exists|j: int| 0 <= j < idx && #[trigger] circuit_uses_minor(all[j], up_major, true, m))
                || circuit_uses_minor(all[idx], up_major, true, m)) by {
                if exists|j: int| 0 <= j < idx + 1 && #[trigger] circuit_uses_minor(all[j], up_major, true, m) {
                    let j = choose|j: int| 0 <= j < idx + 1 && #[trigger] circuit_uses_minor(all[j], up_major, true, m);
                    if j < idx {
                    }
                }
            }
        }
    }
    proof {
        assert forall|m: u16| #[trigger] used_down@.contains(m) <==> d0.contains(m) || exists|
            v: BakeryCommands,
        | items@.values().contains(v) && #[trigger] circuit_uses_minor(v, down_major, false, m) by {
            lemma_seq_exists_to_set(all, |v: BakeryCommands| circuit_uses_minor(v, down_major, false, m));
        }
        assert forall|m: u16| #[trigger] used_up@.contains(m) <==> u0.contains(m) || exists|
            v: BakeryCommands,
        | items@.values().contains(v) && #[trigger] circuit_uses_minor(v, up_major, true, m) by {
            lemma_seq_exists_to_set(all, |v: BakeryCommands| circuit_uses_minor(v, up_major, true, m));
        }
    }
}

/// A site command planned for a staged update of the shaping tree.
#[derive(Debug)]
pub struct PlannedSiteUpdate {
    /// CPU queue the site is placed on.
    pub queue: u32,
    /// Parent site, if any.
    pub parent_site: Option<i64>,
    /// Depth of the stage that applies it.
    pub stage_depth: usize,
    /// The planned command.
    pub command: BakeryCommands,
}

/// A circuit command planned for a staged update of the shaping tree.
#[derive(Debug)]
pub struct PlannedCircuitUpdate {
    /// CPU queue the circuit is placed on.
    pub queue: u32,
    /// Parent site, if any.
    pub parent_site: Option<i64>,
    /// The planned command.
    pub command: BakeryCommands,
}

/// Adds the minors that planned site updates use beneath the given majors.
fn used_planned_site_minors_for_majors(
    planned: &HashMap<i64, PlannedSiteUpdate>,
    down_major: u16,
    up_major: u16,
    used_down: &mut HashSet<u16>,
    used_up: &mut HashSet<u16>,
)
    ensures
        forall|m: u16| #[trigger] final(used_down)@.contains(m) <==> old(used_down)@.contains(m) || exists|
            v: PlannedSiteUpdate,
        | planned@.values().contains(v) && #[trigger] site_uses_minor(v.command, down_major, false, m),
        forall|m: u16| #[trigger] final(used_up)@.contains(m) <==> old(used_up)@.contains(m) || exists|
            v: PlannedSiteUpdate,
        | planned@.values().contains(v) && #[trigger] site_uses_minor(v.command, up_major, true, m),
{
    let ghost all = spec_values_iter(planned).remaining().unref();
    let ghost d0 = used_down@;
    let ghost u0 = used_up@;
    for update in it: planned.values()
        invariant
            it.seq().unref() == all,
            all.to_set() == planned@.values(),
            forall|m: u16| #[trigger] used_down@.contains(m) <==> d0.contains(m) || exists|j: int|
                0 <= j < it.index() && #[trigger] site_uses_minor(all[j].command, down_major, false, m),
            forall|m: u16| #[trigger] used_up@.contains(m) <==> u0.contains(m) || exists|j: int|
                0 <= j < it.index() && #[trigger] site_uses_minor(all[j].command, up_major, true, m),
    {
        let ghost idx = it.index() as int;
        let ghost before_down = used_down@;
        let ghost before_up = used_up@;
        assert(*update == all[idx]);
        match &update.command {
            BakeryCommands::AddSite { parent_class_id, up_parent_class_id, class_minor, .. } => {
                if parent_class_id.get_major_minor().0 == down_major {
                    used_down.insert(*class_minor);
                }
                if up_parent_class_id.get_major_minor().0 == up_major {
                    used_up.insert(*class_minor);
                }
            },
            _ => {},
        }
        assert(forall|m: u16| #[trigger] used_down@.contains(m) <==> before_down.contains(m) || site_uses_minor(all[idx].command, down_major, false, m));
        assert(forall|m: u16| #[trigger] used_up@.contains(m) <==> before_up.contains(m) || site_uses_minor(all[idx].command, up_major, true, m));
        assert(it.index() == idx);
        proof {
            assert forall|m: u16| (exists|j: int|
                0 <= j < idx + 1 && #[trigger] site_uses_minor(all[j].command, down_major, false, m)) <==> ((
            exists|j: int| 0 <= j < idx && #[trigger] site_uses_minor(all[j].command, down_major, false, m))
                || site_uses_minor(all[idx].command, down_major, false, m)) by {
                if exists|j: int| 0 <= j < idx + 1 && #[trigger] site_uses_minor(all[j].command, down_major, false, m) {
                    let j = choose|j: int| 0 <= j < idx + 1 && #[trigger] site_uses_minor(all[j].command, down_major, false, m);
                    if j < idx {
                    }
                }
            }
            assert forall|m: u16| (exists|j: int|
                0 <= j < idx + 1 && #[trigger] site_uses_minor(all[j].command, up_major, true, m)) <==> ((
            exists|j: int| 0 <= j < idx && #[trigger] site_uses_minor(all[j].command, up_major, true, m))
                || site_uses_minor(all[idx].command, up_major, true, m)) by {
                if exists|j: int| 0 <= j < idx + 1 && #[trigger] site_uses_minor(all[j].command, up_major, true, m) {
                    let j = choose|j: int| 0 <= j < idx + 1 && #[trigger] site_uses_minor(all[j].command, up_major, true, m);
                    if j < idx {
                    }
                }
            }
        }
    }
    proof {
        assert forall|m: u16| #[trigger] used_down@.contains(m) <==> d0.contains(m) || exists|
            v: PlannedSiteUpdate,
        | planned@.values().contains(v) && #[trigger] site_uses_minor(v.command, down_major, false, m) by {
            lemma_seq_exists_to_set(all, |v: PlannedSiteUpdate| site_uses_minor(v.command, down_major, false, m));
        }
        assert forall|m: u16| #[trigger] used_up@.contains(m) <==> u0.contains(m) || exists|
            v: PlannedSiteUpdate,
        | planned@.values().contains(v) && #[trigger] site_uses_minor(v.command, up_major, true, m) by {
            lemma_seq_exists_to_set(all, |v: PlannedSiteUpdate| site_uses_minor(v.command, up_major, true, m));
        }
    }
}

/// Adds the minors that planned circuit updates use in the given class majors.
fn used_planned_circuit_minors_for_majors(
    planned: &HashMap<i64, PlannedCircuitUpdate>,
    down_major: u16,
    up_major: u16,
    used_down: &mut HashSet<u16>,
    used_up: &mut HashSet<u16>,
)
    ensures
        forall|m: u16| #[trigger] final(used_down)@.contains(m) <==> old(used_down)@.contains(m) || exists|
            v: PlannedCircuitUpdate,
        | planned@.values().contains(v) && #[trigger] circuit_uses_minor(v.command, down_major, false, m),
        forall|m: u16| #[trigger] final(used_up)@.contains(m) <==> old(used_up)@.contains(m) || exists|
            v: PlannedCircuitUpdate,
        | planned@.values().contains(v) && #[trigger] circuit_uses_minor(v.command, up_major, true, m),
{
    let ghost all = spec_values_iter(planned).remaining().unref();
    let ghost d0 = used_down@;
    let ghost u0 = used_up@;
    for update in it: planned.values()
        invariant
            it.seq().unref() == all,
            all.to_set() == planned@.values(),
            forall|m: u16| #[trigger] used_down@.contains(m) <==> d0.contains(m) || exists|j: int|
                0 <= j < it.index() && #[trigger] circuit_uses_minor(all[j].command, down_major, false, m),
            forall|m: u16| #[trigger] used_up@.contains(m) <==> u0.contains(m) || exists|j: int|
                0 <= j < it.index() && #[trigger] circuit_uses_minor(all[j].command, up_major, true, m),
    {
        let ghost idx = it.index() as int;
        let ghost before_down = used_down@;
        let ghost before_up = used_up@;
        assert(*update == all[idx]);
        match &update.command {
            BakeryCommands::AddCircuit { class_minor, class_major, up_class_major, .. } => {
                if *class_major == down_major {
                    used_down.insert(*class_minor);
                }
                if *up_class_major == up_major {
                    used_up.insert(*class_minor);
                }
            },
            _ => {},
        }
        assert(forall|m: u16| #[trigger] used_down@.contains(m) <==> before_down.contains(m) || circuit_uses_minor(all[idx].command, down_major, false, m));
        assert(forall|m: u16| #[trigger] used_up@.contains(m) <==> before_up.contains(m) || circuit_uses_minor(all[idx].command, up_major, true, m));
        assert(it.index() == idx);
        proof {
            assert forall|m: u16| (exists|j: int|
                0 <= j < idx + 1 && #[trigger] circuit_uses_minor(all[j].command, down_major, false, m)) <==> ((
            exists|j: int| 0 <= j < idx && #[trigger] circuit_uses_minor(all[j].command, down_major, false, m))
                || circuit_uses_minor(all[idx].command, down_major, false, m)) by {
                if exists|j: int| 0 <= j < idx + 1 && #[trigger] circuit_uses_minor(all[j].command, down_major, false, m) {
                    let j = choose|j: int| 0 <= j < idx + 1 && #[trigger] circuit_uses_minor(all[j].command, down_major, false, m);
                    if j < idx {
                    }
                }
            }
            assert forall|m: u16| (exists|j: int|
                0 <= j < idx + 1 && #[trigger] circuit_uses_minor(all[j].command, up_major, true, m)) <==> ((
            exists|j: int| 0 <= j < idx && #[trigger] circuit_uses_minor(all[j].command, up_major, true, m))
                || circuit_uses_minor(all[idx].command, up_major, true, m)) by {
                if exists|j: int| 0 <= j < idx + 1 && #[trigger] circuit_uses_minor(all[j].command, up_major, true, m) {
                    let j = choose|j: int| 0 <= j < idx + 1 && #[trigger] circuit_uses_minor(all[j].command, up_major, true, m);
                    if j < idx {
                    }
                }
            }
        }
    }
    proof {
        assert forall|m: u16| #[trigger] used_down@.contains(m) <==> d0.contains(m) || exists|
            v: PlannedCircuitUpdate,
        | planned@.values().contains(v) && #[trigger] circuit_uses_minor(v.command, down_major, false, m) by {
            lemma_seq_exists_to_set(all, |v: PlannedCircuitUpdate| circuit_uses_minor(v.command, down_major, false, m));
        }
        assert forall|m: u16| #[trigger] used_up@.contains(m) <==> u0.contains(m) || exists|
            v: PlannedCircuitUpdate,
        | planned@.values().contains(v) && #[trigger] circuit_uses_minor(v.command, up_major, true, m) by {
            lemma_seq_exists_to_set(all, |v: PlannedCircuitUpdate| circuit_uses_minor(v.command, up_major, true, m));
        }
    }
}

/// Adds the shadow minors that unfinished migrations hold in the given class majors.
pub(crate) fn used_pending_migration_shadow_minors_for_majors(
    items: &HashMap<i64, Migration>,
    down_major: u16,
    up_major: u16,
    used_down: &mut HashSet<u16>,
    used_up: &mut HashSet<u16>,
)
    ensures
        forall|m: u16| #[trigger] final(used_down)@.contains(m) <==> old(used_down)@.contains(m) || exists|
            v: Migration,
        | items@.values().contains(v) && #[trigger] migration_uses_minor(v, down_major, false, m),
        forall|m: u16| #[trigger] final(used_up)@.contains(m) <==> old(used_up)@.contains(m) || exists|
            v: Migration,
        | items@.values().contains(v) && #[trigger] migration_uses_minor(v, up_major, true, m),
{
    let ghost all = spec_values_iter(items).remaining().unref();
    let ghost d0 = used_down@;
    let ghost u0 = used_up@;
    for item in it: items.values()
        invariant
            it.seq().unref() == all,
            all.to_set() == items@.values(),
            forall|m: u16| #[trigger] used_down@.contains(m) <==> d0.contains(m) || exists|j: int|
                0 <= j < it.index() && #[trigger] migration_uses_minor(all[j], down_major, false, m),
            forall|m: u16| #[trigger] used_up@.contains(m) <==> u0.contains(m) || exists|j: int|
                0 <= j < it.index() && #[trigger] migration_uses_minor(all[j], up_major, true, m),
    {
        let ghost idx = it.index() as int;
        let ghost before_down = used_down@;
        let ghost before_up = used_up@;
        assert(*item == all[idx]);
        if item.stage != MigrationStage::Done {
            if item.class_major == down_major {
                used_down.insert(item.shadow_minor);
            }
            if item.up_class_major == up_major {
                used_up.insert(item.shadow_minor);
            }
        }
        assert(forall|m: u16| #[trigger] used_down@.contains(m) <==> before_down.contains(m) || migration_uses_minor(all[idx], down_major, false, m));
        assert(forall|m: u16| #[trigger] used_up@.contains(m) <==> before_up.contains(m) || migration_uses_minor(all[idx], up_major, true, m));
        assert(it.index() == idx);
        proof {
            assert forall|m: u16| (exists|j: int|
                0 <= j < idx + 1 && #[trigger] migration_uses_minor(all[j], down_major, false, m)) <==> ((
            exists|j: int| 0 <= j < idx && #[trigger] migration_uses_minor(all[j], down_major, false, m))
                || migration_uses_minor(all[idx], down_major, false, m)) by {
                if exists|j: int| 0 <= j < idx + 1 && #[trigger] migration_uses_minor(all[j], down_major, false, m) {
                    let j = choose|j: int| 0 <= j < idx + 1 && #[trigger] migration_uses_minor(all[j], down_major, false, m);
                    if j < idx {
                    }
                }
            }
            assert forall|m: u16| (exists|j: int|
                0 <= j < idx + 1 && #[trigger] migration_uses_minor(all[j], up_major, true, m)) <==> ((
            exists|j: int| 0 <= j < idx && #[trigger] migration_uses_minor(all[j], up_major, true, m))
                || migration_uses_minor(all[idx], up_major, true, m)) by {
                if exists|j: int| 0 <= j < idx + 1 && #[trigger] migration_uses_minor(all[j], up_major, true, m) {
                    let j = choose|j: int| 0 <= j < idx + 1 && #[trigger] migration_uses_minor(all[j], up_major, true, m);
                    if j < idx {
                    }
                }
            }
        }
    }
    proof {
        assert forall|m: u16| #[trigger] used_down@.contains(m) <==> d0.contains(m) || exists|
            v: Migration,
        | items@.values().contains(v) && #[trigger] migration_uses_minor(v, down_major, false, m) by {
            lemma_seq_exists_to_set(all, |v: Migration| migration_uses_minor(v, down_major, false, m));
        }
        assert forall|m: u16| #[trigger] used_up@.contains(m) <==> u0.contains(m) || exists|
            v: Migration,
        | items@.values().contains(v) && #[trigger] migration_uses_minor(v, up_major, true, m) by {
            lemma_seq_exists_to_set(all, |v: Migration| migration_uses_minor(v, up_major, true, m));
        }
    }
}

/// The least minor that neither set holds, searched from `0x2000` to `0xFFFE`
/// and then from `1`.
fn first_free_minor(used_down: &HashSet<u16>, used_up: &HashSet<u16>) -> (r: Option<u16>)
    ensures
        shadow_minor_choice(r, |m: u16| !used_down@.contains(m) && !used_up@.contains(m)),
{
    let ghost free = |m: u16| !used_down@.contains(m) && !used_up@.contains(m);
    let mut m: u16 = 0x2000;
    while m < 0xFFFF
        invariant
            0x2000 <= m <= 0xFFFF,
            free == (|m: u16| !used_down@.contains(m) && !used_up@.contains(m)),
            forall|x: u16| 0x2000 <= x < m ==> !#[trigger] free(x),
        decreases 0xFFFF - m,
    {
        if !used_down.contains(&m) && !used_up.contains(&m) {
            return Some(m);
        }
        m = m + 1;
    }
    let mut n: u16 = 1;
    while n < 0x2000
        invariant
            1 <= n <= 0x2000,
            free == (|m: u16| !used_down@.contains(m) && !used_up@.contains(m)),
            forall|x: u16| 0x2000 <= x <= 0xFFFE ==> !#[trigger] free(x),
            forall|x: u16| 1 <= x < n ==> !#[trigger] free(x),
        decreases 0x2000 - n,
    {
        if !used_down.contains(&n) && !used_up.contains(&n) {
            return Some(n);
        }
        n = n + 1;
    }
    None
}

/// Minor `m` is free for a new class in both the downlink and uplink majors.
pub open spec fn shadow_minor_free(
    sites: Map<i64, BakeryCommands>,
    circuits: Map<i64, BakeryCommands>,
    migrations: Map<i64, Migration>,
    down_major: u16,
    up_major: u16,
    m: u16,
) -> bool {
    !minor_taken(sites, circuits, migrations, down_major, false, m) && !minor_taken(
        sites,
        circuits,
        migrations,
        up_major,
        true,
        m,
    )
}

/// A minor for a circuit's temporary shadow class that no site, circuit or
/// unfinished migration uses in the target majors: the least free one from
/// `0x2000`, else the least free one from `1`.
pub fn find_free_circuit_shadow_minor(
    sites: &HashMap<i64, BakeryCommands>,
    circuits: &HashMap<i64, BakeryCommands>,
    migrations: &HashMap<i64, Migration>,
    down_major: u16,
    up_major: u16,
) -> (r: Option<u16>)
    ensures
        shadow_minor_choice(
            r,
            |m: u16| shadow_minor_free(sites@, circuits@, migrations@, down_major, up_major, m),
        ),
{
    let mut used_down: HashSet<u16> = HashSet::new();
    let mut used_up: HashSet<u16> = HashSet::new();
    used_site_minors_for_majors(sites, down_major, up_major, &mut used_down, &mut used_up);
    used_circuit_minors_for_majors(circuits, down_major, up_major, &mut used_down, &mut used_up);
    used_pending_migration_shadow_minors_for_majors(migrations, down_major, up_major, &mut used_down, &mut used_up);
    let r = first_free_minor(&used_down, &used_up);
    assert((|m: u16| !used_down@.contains(m) && !used_up@.contains(m)) =~= (|m: u16|
        shadow_minor_free(sites@, circuits@, migrations@, down_major, up_major, m)));
    r
}

/// Minor `m` is taken in a major by a planned site or circuit update.
pub open spec fn planned_minor_taken(
    planned_sites: Map<i64, PlannedSiteUpdate>,
    planned_circuits: Map<i64, PlannedCircuitUpdate>,
    major: u16,
    uplink: bool,
    m: u16,
) -> bool {
    ||| exists|v: PlannedSiteUpdate|
        planned_sites.values().contains(v) && #[trigger] site_uses_minor(v.command, major, uplink, m)
    ||| exists|v: PlannedCircuitUpdate|
        planned_circuits.values().contains(v) && #[trigger] circuit_uses_minor(
            v.command,
            major,
            uplink,
            m,
        )
}

/// Minor `m` is free for a site's temporary shadow class beneath the two
/// parents' majors: no site, circuit, unfinished migration or planned update
/// uses it there.
pub open spec fn site_shadow_minor_free(
    sites: Map<i64, BakeryCommands>,
    circuits: Map<i64, BakeryCommands>,
    migrations: Map<i64, Migration>,
    planned_sites: Map<i64, PlannedSiteUpdate>,
    planned_circuits: Map<i64, PlannedCircuitUpdate>,
    down_major: u16,
    up_major: u16,
    m: u16,
) -> bool {
    &&& shadow_minor_free(sites, circuits, migrations, down_major, up_major, m)
    &&& !planned_minor_taken(planned_sites, planned_circuits, down_major, false, m)
    &&& !planned_minor_taken(planned_sites, planned_circuits, up_major, true, m)
}

/// A minor for a site's temporary shadow class beneath the given parents,
/// also clear of every planned site and circuit update: the least free one
/// from `0x2000`, else the least free one from `1`.
pub fn find_free_site_shadow_minor(
    sites: &HashMap<i64, BakeryCommands>,
    circuits: &HashMap<i64, BakeryCommands>,
    migrations: &HashMap<i64, Migration>,
    planned_sites: &HashMap<i64, PlannedSiteUpdate>,
    planned_circuits: &HashMap<i64, PlannedCircuitUpdate>,
    down_parent: &TcHandle,
    up_parent: &TcHandle,
) -> (r: Option<u16>)
    ensures
        shadow_minor_choice(
            r,
            |m: u16|
                site_shadow_minor_free(
                    sites@,
                    circuits@,
                    migrations@,
                    planned_sites@,
                    planned_circuits@,
                    down_parent.major(),
                    up_parent.major(),
                    m,
                ),
        ),
{
    let down_major = down_parent.get_major_minor().0;
    let up_major = up_parent.get_major_minor().0;
    let mut used_down: HashSet<u16> = HashSet::new();
    let mut used_up: HashSet<u16> = HashSet::new();
    used_site_minors_for_majors(sites, down_major, up_major, &mut used_down, &mut used_up);
    used_circuit_minors_for_majors(circuits, down_major, up_major, &mut used_down, &mut used_up);
    used_pending_migration_shadow_minors_for_majors(
        migrations,
        down_major,
        up_major,
        &mut used_down,
        &mut used_up,
    );
    used_planned_site_minors_for_majors(planned_sites, down_major, up_major, &mut used_down, &mut used_up);
    used_planned_circuit_minors_for_majors(
        planned_circuits,
        down_major,
        up_major,
        &mut used_down,
        &mut used_up,
    );
    let r = first_free_minor(&used_down, &used_up);
    assert((|m: u16| !used_down@.contains(m) && !used_up@.contains(m)) =~= (|m: u16|
        site_shadow_minor_free(
            sites@,
            circuits@,
            migrations@,
            planned_sites@,
            planned_circuits@,
            down_major,
            up_major,
            m,
        )));
    r
}

/// The least minor from `0x1000` to `0xFFFE` that neither set holds, for a
/// runtime-added circuit.
pub fn find_free_dynamic_circuit_minor(used_down: &HashSet<u16>, used_up: &HashSet<u16>) -> (r:
    Option<u16>)
    ensures
        match r {
            Some(m) => 0x1000 <= m <= 0xFFFE && !used_down@.contains(m) && !used_up@.contains(m)
                && forall|x: u16|
                0x1000 <= x < m ==> #[trigger] used_down@.contains(x) || used_up@.contains(x),
            None => forall|x: u16|
                0x1000 <= x <= 0xFFFE ==> #[trigger] used_down@.contains(x) || used_up@.contains(x),
        },
{
    let mut m: u16 = 0x1000;
    while m < 0xFFFF
        invariant
            0x1000 <= m <= 0xFFFF,
            forall|x: u16| 0x1000 <= x < m ==> #[trigger] used_down@.contains(x) || used_up@.contains(x),
        decreases 0xFFFF - m,
    {
        if !used_down.contains(&m) && !used_up.contains(&m) {
            return Some(m);
        }
        m = m + 1;
    }
    None
}

/// The temporary class that carries a circuit during a move: the circuit's
/// command with the given minor and rates, keeping its explicit leaf qdisc
/// handles only when `preserve_qdisc_handles` is set. `None` unless `base`
/// adds a circuit.
pub fn build_temp_add_cmd(
    base: &BakeryCommands,
    minor: u16,
    down_min: u32,
    down_max: u32,
    up_min: u32,
    up_max: u32,
    preserve_qdisc_handles: bool,
) -> (r: Option<BakeryCommands>)
    ensures
        match *base {
            BakeryCommands::AddCircuit {
                circuit_hash,
                circuit_name,
                site_name,
                parent_class_id,
                up_parent_class_id,
                class_major,
                up_class_major,
                down_qdisc_handle,
                up_qdisc_handle,
                ip_addresses,
                sqm_override,
                ..
            } => r == Some(
                BakeryCommands::AddCircuit {
                    circuit_hash,
                    circuit_name,
                    site_name,
                    parent_class_id,
                    up_parent_class_id,
                    class_minor: minor,
                    download_bandwidth_min: down_min,
                    upload_bandwidth_min: up_min,
                    download_bandwidth_max: down_max,
                    upload_bandwidth_max: up_max,
                    class_major,
                    up_class_major,
                    down_qdisc_handle: if preserve_qdisc_handles {
                        down_qdisc_handle
                    } else {
                        None
                    },
                    up_qdisc_handle: if preserve_qdisc_handles {
                        up_qdisc_handle
                    } else {
                        None
                    },
                    ip_addresses,
                    sqm_override,
                },
            ),
            _ => r is None,
        },
{
    match base {
        BakeryCommands::AddCircuit {
            circuit_hash,
            circuit_name,
            site_name,
            parent_class_id,
            up_parent_class_id,
            class_major,
            up_class_major,
            down_qdisc_handle,
            up_qdisc_handle,
            ip_addresses,
            sqm_override,
            ..
        } => Some(
            BakeryCommands::AddCircuit {
                circuit_hash: *circuit_hash,
                circuit_name: clone_exact(circuit_name),
                site_name: clone_exact(site_name),
                parent_class_id: *parent_class_id,
                up_parent_class_id: *up_parent_class_id,
                class_minor: minor,
                download_bandwidth_min: down_min,
                upload_bandwidth_min: up_min,
                download_bandwidth_max: down_max,
                upload_bandwidth_max: up_max,
                class_major: *class_major,
                up_class_major: *up_class_major,
                down_qdisc_handle: if preserve_qdisc_handles {
                    *down_qdisc_handle
                } else {
                    None
                },
                up_qdisc_handle: if preserve_qdisc_handles {
                    *up_qdisc_handle
                } else {
                    None
                },
                ip_addresses: ip_addresses.clone(),
                sqm_override: clone_exact(sqm_override),
            },
        ),
        _ => None,
    }
}

/// `Bakery canceled <n> pending live migration(s): <reason>`.
pub open spec fn canceled_migrations_summary(n: nat, reason: Seq<char>) -> Seq<char> {
    "Bakery canceled "@ + dec_seq(n) + " pending live migration(s): "@ + reason
}

/// Summary logged when observe mode clears a live-migration reload requirement.
pub open spec fn observe_mode_reload_cleared() -> Seq<char> {
    "Observe mode canceled pending Bakery live-migration verification state; incremental live-move reload requirements were cleared."@
}

/// A reload is required and its reason comes from a failed live migration.
pub open spec fn live_migration_reload_pending(state: BakeryTelemetryState) -> bool {
    &&& state.reload_required
    &&& match state.reload_required_reason {
        Some(reason) => is_live_migration_reason(reason@),
        None => false,
    }
}

/// The activity and reload state after observe mode cancels `n` migrations,
/// passing through the intermediate log `mid`: the cancel event when `n > 0`,
/// then the clearing of a live-migration reload requirement, if one was set.
pub open spec fn observe_mode_cancel_logged(
    before: BakeryTelemetryState,
    after: BakeryTelemetryState,
    mid: Seq<BakeryActivityEntry>,
    now_unix: u64,
    n: nat,
    reason: Seq<char>,
) -> bool {
    &&& if n > 0 {
        activity_after(
            before.activity@,
            mid,
            now_unix,
            "live_migrations_canceled"@,
            "info"@,
            None,
            None,
            canceled_migrations_summary(n, reason),
        )
    } else {
        mid == before.activity@
    }
    &&& if live_migration_reload_pending(before) {
        &&& !after.reload_required
        &&& after.reload_required_reason is None
        &&& activity_after(
            mid,
            after.activity@,
            now_unix,
            "reload_required_cleared"@,
            "info"@,
            None,
            None,
            observe_mode_reload_cleared(),
        )
    } else {
        &&& after.reload_required == before.reload_required
        &&& after.reload_required_reason == before.reload_required_reason
        &&& after.activity@ == mid
    }
}

/// Cancels every pending migration because the bakery entered observe mode.
/// Returns how many were canceled. When any were, a
/// `live_migrations_canceled` event records it; then a reload requirement
/// left by a failed live migration is cleared, since nothing will retry it.
pub fn cancel_pending_migrations_for_observe_mode(
    migrations: &mut HashMap<i64, Migration>,
    state: &mut BakeryTelemetryState,
    now_unix: u64,
    reason: &str,
) -> (r: usize)
    requires
        old(state).wf(),
    ensures
        r == old(migrations)@.len(),
        final(migrations)@ == Map::<i64, Migration>::empty(),
        final(state).wf(),
        final(state).same_except_reload(old(state)),
        exists|mid: Seq<BakeryActivityEntry>|
            #[trigger] observe_mode_cancel_logged(*old(state), *final(state), mid, now_unix, r as nat, reason@),
{
    let canceled = migrations.len();
    let ghost s0 = *state;
    if canceled > 0 {
        let mut summary = owned("Bakery canceled ");
        append_str(&mut summary, dec_string(canceled as u64).as_str());
        append_str(&mut summary, " pending live migration(s): ");
        append_str(&mut summary, reason);
        assert(summary@ == canceled_migrations_summary(canceled as nat, reason@));
        push_bakery_event(state, now_unix, "live_migrations_canceled", "info", summary);
        migrations.clear();
    }
    assert(state.reload_required == s0.reload_required);
    assert(state.reload_required_reason == s0.reload_required_reason);
    let ghost mid = state.activity@;
    let ghost s1 = *state;
    let pending = bakery_reload_required_reason(state);
    let live = match &pending {
        Some(text) => is_live_migration_reload_required_reason(text.as_str()),
        None => false,
    };
    if live {
        clear_reload_required(
            state,
            now_unix,
            "Observe mode canceled pending Bakery live-migration verification state; incremental live-move reload requirements were cleared.",
        );
    }
    assert(live == live_migration_reload_pending(s0));
    assert(migrations@ =~= Map::<i64, Migration>::empty());
    assert(observe_mode_cancel_logged(s0, *state, mid, now_unix, canceled as nat, reason@));
    canceled
}

/// Qdisc-allocation key of a shadow class: `-2·hash`, minus one for the uplink
/// (all in wrapping 64-bit arithmetic), apart from every circuit's own key.
pub open spec fn shadow_key(circuit_hash: i64, uplink: bool) -> i64 {
    let base = (0i64).wrapping_sub(circuit_hash.wrapping_mul(2));
    if uplink {
        base.wrapping_sub(1)
    } else {
        base
    }
}

/// The allocation key under which a migration's shadow qdisc handle is assigned.
pub fn shadow_qdisc_allocation_key(circuit_hash: i64, uplink: bool) -> (r: i64)
    ensures
        r == shadow_key(circuit_hash, uplink),
{
    let base = (0i64).wrapping_sub(circuit_hash.wrapping_mul(2));
    if uplink {
        base.wrapping_sub(1)
    } else {
        base
    }
}

/// The migration record queued to move circuit `new` (from `old`) through a
/// shadow class with minor `shadow_minor`.
pub open spec fn queued_migration(
    mig: Migration,
    old: BakeryCommands,
    new: BakeryCommands,
    shadow_minor: u16,
) -> bool {
    match (old, new) {
        (
            BakeryCommands::AddCircuit {
                class_minor: old_minor,
                download_bandwidth_min: old_down_min,
                upload_bandwidth_min: old_up_min,
                download_bandwidth_max: old_down_max,
                upload_bandwidth_max: old_up_max,
                class_major: old_class_major,
                up_class_major: old_up_class_major,
                down_qdisc_handle: old_down_qdisc_handle,
                up_qdisc_handle: old_up_qdisc_handle,
                ..
            },
            BakeryCommands::AddCircuit {
                circuit_hash,
                circuit_name,
                site_name,
                parent_class_id,
                up_parent_class_id,
                class_minor,
                download_bandwidth_min,
                upload_bandwidth_min,
                download_bandwidth_max,
                upload_bandwidth_max,
                class_major,
                up_class_major,
                down_qdisc_handle,
                up_qdisc_handle,
                ip_addresses,
                sqm_override,
            },
        ) => {
            &&& mig.circuit_hash == circuit_hash
            &&& mig.circuit_name == circuit_name
            &&& mig.site_name == site_name
            &&& mig.old_class_major == old_class_major
            &&& mig.old_up_class_major == old_up_class_major
            &&& mig.old_down_qdisc_handle == old_down_qdisc_handle
            &&& mig.old_up_qdisc_handle == old_up_qdisc_handle
            &&& mig.parent_class_id == parent_class_id
            &&& mig.up_parent_class_id == up_parent_class_id
            &&& mig.class_major == class_major
            &&& mig.up_class_major == up_class_major
            &&& mig.down_qdisc_handle == down_qdisc_handle
            &&& mig.up_qdisc_handle == up_qdisc_handle
            &&& mig.old_down_min == old_down_min
            &&& mig.old_down_max == old_down_max
            &&& mig.old_up_min == old_up_min
            &&& mig.old_up_max == old_up_max
            &&& mig.new_down_min == download_bandwidth_min
            &&& mig.new_down_max == download_bandwidth_max
            &&& mig.new_up_min == upload_bandwidth_min
            &&& mig.new_up_max == upload_bandwidth_max
            &&& mig.old_minor == old_minor
            &&& mig.shadow_minor == shadow_minor
            &&& mig.final_minor == class_minor
            &&& string_views(mig.ips@) == ip_list(ip_addresses@)
            &&& mig.sqm_override == sqm_override
            &&& mig.desired_cmd == new
            &&& mig.stage == MigrationStage::PrepareShadow
            &&& mig.shadow_verify_attempts == 0
            &&& mig.final_verify_attempts == 0
        },
        _ => false,
    }
}

/// Whether a migration can be queued: both commands add the circuit, it is
/// live when that is required, and a shadow minor is free in its new majors.
pub open spec fn migration_can_queue(
    old: BakeryCommands,
    new: BakeryCommands,
    sites: Map<i64, BakeryCommands>,
    circuits: Map<i64, BakeryCommands>,
    live: Map<i64, u64>,
    migrations: Map<i64, Migration>,
    require_live_circuit: bool,
) -> bool {
    match new {
        BakeryCommands::AddCircuit { circuit_hash, class_major, up_class_major, .. } => {
            &&& require_live_circuit ==> live.contains_key(circuit_hash)
            &&& old is AddCircuit
            &&& exists|m: u16|
                1 <= m <= 0xFFFE && #[trigger] shadow_minor_free(
                    sites,
                    circuits,
                    migrations,
                    class_major,
                    up_class_major,
                    m,
                )
        },
        _ => false,
    }
}

/// What queuing a migration does: `r` says whether it could be queued; if
/// not, the migrations are unchanged; if so, exactly the circuit's record is
/// added, built from the two commands with the free shadow minor that the
/// search picks.
pub open spec fn migration_queue_outcome(
    old_cmd: BakeryCommands,
    new_cmd: BakeryCommands,
    sites: Map<i64, BakeryCommands>,
    circuits: Map<i64, BakeryCommands>,
    live: Map<i64, u64>,
    before: Map<i64, Migration>,
    after: Map<i64, Migration>,
    require_live_circuit: bool,
    r: bool,
) -> bool {
    &&& r == migration_can_queue(old_cmd, new_cmd, sites, circuits, live, before, require_live_circuit)
    &&& !r ==> after == before
    &&& r ==> {
        let h = new_cmd->AddCircuit_circuit_hash;
        &&& after.dom() == before.dom().insert(h)
        &&& forall|k: i64| k != h && #[trigger] before.contains_key(k) ==> after[k] == before[k]
        &&& queued_migration(after[h], old_cmd, new_cmd, after[h].shadow_minor)
        &&& shadow_minor_choice(
            Some(after[h].shadow_minor),
            |m: u16|
                shadow_minor_free(
                    sites,
                    circuits,
                    before,
                    new_cmd->AddCircuit_class_major,
                    new_cmd->AddCircuit_up_class_major,
                    m,
                ),
        )
    }
}

/// Queues a live migration of a circuit to its new parent through a free
/// shadow minor (see [`find_free_circuit_shadow_minor`]). Returns whether it
/// was queued; otherwise the migrations are unchanged.
pub fn queue_runtime_migration(
    old_cmd: &BakeryCommands,
    new_cmd: &BakeryCommands,
    sites: &HashMap<i64, BakeryCommands>,
    circuits: &HashMap<i64, BakeryCommands>,
    live_circuits: &HashMap<i64, u64>,
    migrations: &mut HashMap<i64, Migration>,
    require_live_circuit: bool,
) -> (r: bool)
    ensures
        migration_queue_outcome(
            *old_cmd,
            *new_cmd,
            sites@,
            circuits@,
            live_circuits@,
            old(migrations)@,
            final(migrations)@,
            require_live_circuit,
            r,
        ),
{
    match new_cmd {
        BakeryCommands::AddCircuit {
            circuit_hash,
            circuit_name,
            site_name,
            parent_class_id,
            up_parent_class_id,
            class_minor,
            download_bandwidth_min,
            upload_bandwidth_min,
            download_bandwidth_max,
            upload_bandwidth_max,
            class_major,
            up_class_major,
            down_qdisc_handle,
            up_qdisc_handle,
            ip_addresses,
            sqm_override,
        } => {
            if require_live_circuit && !live_circuits.contains_key(circuit_hash) {
                return false;
            }
            match old_cmd {
                BakeryCommands::AddCircuit {
                    class_minor: old_minor,
                    download_bandwidth_min: old_down_min,
                    upload_bandwidth_min: old_up_min,
                    download_bandwidth_max: old_down_max,
                    upload_bandwidth_max: old_up_max,
                    class_major: old_class_major,
                    up_class_major: old_up_class_major,
                    down_qdisc_handle: old_down_qdisc_handle,
                    up_qdisc_handle: old_up_qdisc_handle,
                    ..
                } => {
                    let ghost free = |m: u16|
                        shadow_minor_free(sites@, circuits@, migrations@, *class_major, *up_class_major, m);
                    let shadow_minor = match find_free_circuit_shadow_minor(
                        sites,
                        circuits,
                        migrations,
                        *class_major,
                        *up_class_major,
                    ) {
                        Some(m) => m,
                        None => {
                            proof {
                                assert forall|m: u16| 1 <= m <= 0xFFFE implies !#[trigger] shadow_minor_free(
                                    sites@,
                                    circuits@,
                                    migrations@,
                                    *class_major,
                                    *up_class_major,
                                    m,
                                ) by {
                                    assert(!free(m));
                                }
                            }
                            return false;
                        },
                    };
                    assert(free(shadow_minor));
                    let mig = Migration {
                        circuit_hash: *circuit_hash,
                        circuit_name: clone_exact(circuit_name),
                        site_name: clone_exact(site_name),
                        old_class_major: *old_class_major,
                        old_up_class_major: *old_up_class_major,
                        old_down_qdisc_handle: *old_down_qdisc_handle,
                        old_up_qdisc_handle: *old_up_qdisc_handle,
                        parent_class_id: *parent_class_id,
                        up_parent_class_id: *up_parent_class_id,
                        class_major: *class_major,
                        up_class_major: *up_class_major,
                        down_qdisc_handle: *down_qdisc_handle,
                        up_qdisc_handle: *up_qdisc_handle,
                        old_down_min: *old_down_min,
                        old_down_max: *old_down_max,
                        old_up_min: *old_up_min,
                        old_up_max: *old_up_max,
                        new_down_min: *download_bandwidth_min,
                        new_down_max: *download_bandwidth_max,
                        new_up_min: *upload_bandwidth_min,
                        new_up_max: *upload_bandwidth_max,
                        old_minor: *old_minor,
                        shadow_minor,
                        final_minor: *class_minor,
                        ips: parse_ip_list(ip_addresses.as_str()),
                        sqm_override: clone_exact(sqm_override),
                        desired_cmd: BakeryCommands::AddCircuit {
                            circuit_hash: *circuit_hash,
                            circuit_name: clone_exact(circuit_name),
                            site_name: clone_exact(site_name),
                            parent_class_id: *parent_class_id,
                            up_parent_class_id: *up_parent_class_id,
                            class_minor: *class_minor,
                            download_bandwidth_min: *download_bandwidth_min,
                            upload_bandwidth_min: *upload_bandwidth_min,
                            download_bandwidth_max: *download_bandwidth_max,
                            upload_bandwidth_max: *upload_bandwidth_max,
                            class_major: *class_major,
                            up_class_major: *up_class_major,
                            down_qdisc_handle: *down_qdisc_handle,
                            up_qdisc_handle: *up_qdisc_handle,
                            ip_addresses: ip_addresses.clone(),
                            sqm_override: clone_exact(sqm_override),
                        },
                        stage: MigrationStage::PrepareShadow,
                        shadow_verify_attempts: 0,
                        final_verify_attempts: 0,
                    };
                    migrations.insert(*circuit_hash, mig);
                    true
                },
                _ => false,
            }
        },
        _ => false,
    }
}

/// Queues the move of a live circuit (it must be in `live_circuits`).
pub fn queue_live_migration(
    old_cmd: &BakeryCommands,
    new_cmd: &BakeryCommands,
    sites: &HashMap<i64, BakeryCommands>,
    circuits: &HashMap<i64, BakeryCommands>,
    live_circuits: &HashMap<i64, u64>,
    migrations: &mut HashMap<i64, Migration>,
) -> (r: bool)
    ensures
        migration_queue_outcome(
            *old_cmd,
            *new_cmd,
            sites@,
            circuits@,
            live_circuits@,
            old(migrations)@,
            final(migrations)@,
            true,
            r,
        ),
{
    queue_runtime_migration(old_cmd, new_cmd, sites, circuits, live_circuits, migrations, true)
}

/// Queues the move of a circuit beneath a top-level node being virtualized,
/// whether or not it is live yet.
pub fn queue_top_level_runtime_migration(
    old_cmd: &BakeryCommands,
    new_cmd: &BakeryCommands,
    sites: &HashMap<i64, BakeryCommands>,
    circuits: &HashMap<i64, BakeryCommands>,
    live_circuits: &HashMap<i64, u64>,
    migrations: &mut HashMap<i64, Migration>,
) -> (r: bool)
    ensures
        migration_queue_outcome(
            *old_cmd,
            *new_cmd,
            sites@,
            circuits@,
            live_circuits@,
            old(migrations)@,
            final(migrations)@,
            false,
            r,
        ),
{
    queue_runtime_migration(old_cmd, new_cmd, sites, circuits, live_circuits, migrations, false)
}

/// The circuit map with each pending migration's desired command in place of
/// the circuit's current one (used for diffing only).
pub fn circuits_with_pending_migration_targets(
    circuits: &HashMap<i64, BakeryCommands>,
    migrations: &HashMap<i64, Migration>,
) -> (r: HashMap<i64, BakeryCommands>)
    ensures
        r@.dom() == circuits@.dom() + migrations@.dom(),
        forall|k: i64| #[trigger]
            migrations@.contains_key(k) ==> same_command(r@[k], migrations@[k].desired_cmd),
        forall|k: i64| #[trigger]
            circuits@.contains_key(k) && !migrations@.contains_key(k) ==> same_command(
                r@[k],
                circuits@[k],
            ),
{
    let mut overlaid: HashMap<i64, BakeryCommands> = HashMap::new();
    let ckeys = map_keys(circuits);
    let mut i: usize = 0;
    while i < ckeys.len()
        invariant
            i <= ckeys@.len(),
            ckeys@.to_set() == circuits@.dom(),
            overlaid@.dom() == ckeys@.take(i as int).to_set(),
            forall|k: i64| #[trigger]
                overlaid@.contains_key(k) ==> same_command(overlaid@[k], circuits@[k]),
        decreases ckeys@.len() - i,
    {
        let k = ckeys[i];
        assert(ckeys@.to_set().contains(k)) by {
            assert(ckeys@.contains(k));
        }
        match circuits.get(&k) {
            Some(c) => {
                overlaid.insert(k, c.duplicate());
            },
            None => {},
        }
        proof {
            assert(ckeys@.take(i + 1) =~= ckeys@.take(i as int).push(k));
            assert forall|x: i64| #[trigger] ckeys@.take(i + 1).to_set().contains(x)
                <==> ckeys@.take(i as int).to_set().insert(k).contains(x) by {
                crate::summary::lemma_push_contains(ckeys@.take(i as int), k, x);
            }
            assert(overlaid@.dom() =~= ckeys@.take(i + 1).to_set());
        }
        i = i + 1;
    }
    assert(ckeys@.take(ckeys@.len() as int) =~= ckeys@);
    let mkeys = map_keys(migrations);
    let mut j: usize = 0;
    while j < mkeys.len()
        invariant
            j <= mkeys@.len(),
            mkeys@.to_set() == migrations@.dom(),
            overlaid@.dom() == circuits@.dom() + mkeys@.take(j as int).to_set(),
            forall|k: i64| #[trigger]
                mkeys@.take(j as int).contains(k) ==> same_command(
                    overlaid@[k],
                    migrations@[k].desired_cmd,
                ),
            forall|k: i64| #[trigger]
                overlaid@.contains_key(k) && !mkeys@.take(j as int).contains(k) ==> same_command(
                    overlaid@[k],
                    circuits@[k],
                ),
        decreases mkeys@.len() - j,
    {
        let k = mkeys[j];
        assert(mkeys@.to_set().contains(k)) by {
            assert(mkeys@.contains(k));
        }
        match migrations.get(&k) {
            Some(m) => {
                overlaid.insert(k, m.desired_cmd.duplicate());
            },
            None => {},
        }
        proof {
            assert(mkeys@.take(j + 1) =~= mkeys@.take(j as int).push(k));
            assert forall|x: i64| #[trigger] mkeys@.take(j + 1).contains(x)
                <==> mkeys@.take(j as int).contains(x) || x == k by {
                crate::summary::lemma_push_contains(mkeys@.take(j as int), k, x);
            }
            assert forall|x: i64| #[trigger] mkeys@.take(j + 1).to_set().contains(x)
                <==> mkeys@.take(j as int).to_set().insert(k).contains(x) by {
                crate::summary::lemma_push_contains(mkeys@.take(j as int), k, x);
            }
            assert(overlaid@.dom() =~= circuits@.dom() + mkeys@.take(j + 1).to_set());
        }
        j = j + 1;
    }
    assert(mkeys@.take(mkeys@.len() as int) =~= mkeys@);
    proof {
        assert forall|k: i64| #[trigger] migrations@.contains_key(k) implies mkeys@.contains(k) by {
            assert(mkeys@.to_set().contains(k));
        }
        assert forall|k: i64| #[trigger]
            circuits@.contains_key(k) && !migrations@.contains_key(k) implies same_command(
            overlaid@[k],
            circuits@[k],
        ) by {
            assert(overlaid@.contains_key(k));
            if mkeys@.contains(k) {
                assert(mkeys@.to_set().contains(k));
            }
        }
    }
    overlaid
}

} // verus!
