//! StormGuard rate overrides: the class ceilings StormGuard set at runtime,
//! replayed after the shaping tree is rebuilt.
use vstd::prelude::*;
use crate::commands::opt_view;
use crate::config::BakeryConfig;
use crate::shaping_state::{live_tree_mutation_blocker_for_config, mutation_blocker, ShapingFlags};
use crate::tc_handle::{parse_tc_handle, tc_seq, TcHandle};
use crate::telemetry::{
    activity_after, apply_result_summary, push_bakery_event, summarize_apply_result,
    BakeryTelemetryState, ExecuteResult,
};
use crate::text::{append_str, dec_seq, dec_string, owned};

verus! {

/// The class a StormGuard override applies to.
#[derive(Clone, Debug, Hash, PartialEq, Eq)]
pub struct StormguardOverrideKey {
    /// Interface holding the class.
    pub interface: String,
    /// The class.
    pub class: TcHandle,
}

/// `<n>mbit`.
pub open spec fn mbit(n: nat) -> Seq<char> {
    dec_seq(n) + "mbit"@
}

/// `class replace dev <dev> classid <class> htb rate <rate - 1>mbit ceil <rate>mbit`
/// (the rate saturating at zero).
pub open spec fn override_argv(key: StormguardOverrideKey, rate: u64) -> Seq<Seq<char>> {
    class_rate_argv(key.interface@, key.class.0, rate)
}

/// `class replace dev <dev> classid <class> htb rate <rate - 1>mbit ceil <rate>mbit`
/// (the rate saturating at zero).
pub open spec fn class_rate_argv(interface: Seq<char>, class: u32, rate: u64) -> Seq<Seq<char>> {
    seq![
        "class"@,
        "replace"@,
        "dev"@,
        interface,
        "classid"@,
        tc_seq(class),
        "htb"@,
        "rate"@,
        mbit(if rate == 0 { 0 } else { (rate - 1) as nat }),
        "ceil"@,
        mbit(rate as nat),
    ]
}

/// The replay commands, one per override, in order.
pub open spec fn override_argvs(overrides: Seq<(StormguardOverrideKey, u64)>) -> Seq<Seq<Seq<char>>> {
    overrides.map_values(|o: (StormguardOverrideKey, u64)| override_argv(o.0, o.1))
}

/// Summary logged when replay is skipped in observe mode.
pub open spec fn replay_skipped_summary() -> Seq<char> {
    "Skipping StormGuard HTB override replay because queue_mode is observe."@
}

fn mbit_string(n: u64) -> (r: String)
    ensures
        r@ == mbit(n as nat),
{
    let mut s = dec_string(n);
    append_str(&mut s, "mbit");
    s
}

fn override_command(key: &StormguardOverrideKey, rate: u64) -> (r: Vec<String>)
    ensures
        r.deep_view() == override_argv(*key, rate),
{
    let mut v: Vec<String> = Vec::new();
    v.push(owned("class"));
    v.push(owned("replace"));
    v.push(owned("dev"));
    v.push(owned(key.interface.as_str()));
    v.push(owned("classid"));
    v.push(key.class.as_tc_string());
    v.push(owned("htb"));
    v.push(owned("rate"));
    v.push(mbit_string(rate.saturating_sub(1)));
    v.push(owned("ceil"));
    v.push(mbit_string(rate));
    assert(v.deep_view() =~= override_argv(*key, rate));
    v
}

/// The commands that replay StormGuard's overrides, one `class replace` per
/// override in order. In observe mode nothing is replayed: the result is
/// empty and a `stormguard_override_replay_skipped` event is logged.
pub fn apply_stormguard_overrides(
    overrides: &Vec<(StormguardOverrideKey, u64)>,
    config: &BakeryConfig,
    state: &mut BakeryTelemetryState,
    now_unix: u64,
) -> (r: Vec<Vec<String>>)
    requires
        old(state).wf(),
    ensures
        final(state).wf(),
        config.observe_mode ==> {
            &&& r@.len() == 0
            &&& final(state).same_except_activity(old(state))
            &&& activity_after(
                old(state).activity@,
                final(state).activity@,
                now_unix,
                "stormguard_override_replay_skipped"@,
                "info"@,
                None,
                None,
                replay_skipped_summary(),
            )
        },
        !config.observe_mode ==> {
            &&& r.deep_view() == override_argvs(overrides@)
            &&& *final(state) == *old(state)
        },
{
    if config.observe_mode {
        push_bakery_event(
            state,
            now_unix,
            "stormguard_override_replay_skipped",
            "info",
            owned("Skipping StormGuard HTB override replay because queue_mode is observe."),
        );
        return Vec::new();
    }
    let mut commands: Vec<Vec<String>> = Vec::new();
    let mut i: usize = 0;
    while i < overrides.len()
        invariant
            i <= overrides@.len(),
            commands.deep_view() == override_argvs(overrides@.take(i as int)),
        decreases overrides@.len() - i,
    {
        let cmd = override_command(&overrides[i].0, overrides[i].1);
        let ghost before = commands.deep_view();
        let ghost added = cmd.deep_view();
        commands.push(cmd);
        proof {
            assert(commands.deep_view() =~= before.push(added));
            assert(overrides@.take(i + 1) =~= overrides@.take(i as int).push(overrides@[i as int]));
            assert(override_argvs(overrides@.take(i + 1)) =~= override_argvs(overrides@.take(i as int)).push(
                override_argv(overrides@[i as int].0, overrides@[i as int].1),
            ));
        }
        i = i + 1;
    }
    assert(overrides@.take(overrides@.len() as int) =~= overrides@);
    commands
}

/// After the replay ran: a failed replay is logged as a
/// `stormguard_override_replay_failed` error with the apply summary.
pub fn record_stormguard_replay_result(
    state: &mut BakeryTelemetryState,
    now_unix: u64,
    result: &ExecuteResult,
)
    requires
        old(state).wf(),
    ensures
        final(state).wf(),
        result.ok ==> *final(state) == *old(state),
        !result.ok ==> {
            &&& final(state).same_except_activity(old(state))
            &&& activity_after(
                old(state).activity@,
                final(state).activity@,
                now_unix,
                "stormguard_override_replay_failed"@,
                "error"@,
                None,
                None,
                apply_result_summary(
                    "replaying StormGuard overrides"@,
                    result.ok,
                    opt_view(result.failure_summary),
                ),
            )
        },
{
    if !result.ok {
        push_bakery_event(
            state,
            now_unix,
            "stormguard_override_replay_failed",
            "error",
            summarize_apply_result("replaying StormGuard overrides", result),
        );
    }
}

/// What to do with a StormGuard rate adjustment.
#[derive(Debug)]
pub enum StormguardAdjustmentAction {
    /// The shaping tree has not been set up yet; ignore it.
    NotReady,
    /// The class id does not parse; ignore it.
    InvalidClass,
    /// Live changes are blocked, for this reason.
    Blocked(String),
    /// A dry run: report this `tc` command only.
    DryRun(Vec<String>),
    /// Run this `tc` command.
    Run(Vec<String>),
}

/// A StormGuard rate adjustment, decided.
#[derive(Debug)]
pub struct StormguardAdjustment {
    /// The override to remember for replay after a rebuild, if any.
    pub record: Option<(StormguardOverrideKey, u64)>,
    /// What to do now.
    pub action: StormguardAdjustmentAction,
}

/// How an adjustment of `interface`'s class `class_id` to `new_rate` Mbps is
/// handled (see [`stormguard_adjustment`]).
pub open spec fn adjustment_outcome(
    dry_run: bool,
    interface: Seq<char>,
    class_id: Seq<char>,
    new_rate: u64,
    mq_created: bool,
    flags: ShapingFlags,
    observe_mode: bool,
    r: StormguardAdjustment,
) -> bool {
    if !mq_created {
        r.record is None && r.action is NotReady
    } else {
        match parse_tc_handle(class_id) {
            Err(_) => r.record is None && r.action is InvalidClass,
            Ok(h) => {
                &&& (if dry_run {
                    r.record is None
                } else {
                    r.record matches Some((k, rate)) && k.interface@ == interface && k.class == TcHandle(h)
                        && rate == new_rate
                })
                &&& match mutation_blocker(flags, observe_mode) {
                    Some(reason) => r.action matches StormguardAdjustmentAction::Blocked(m) && m@ == reason,
                    None => {
                        let argv = class_rate_argv(interface, h, new_rate);
                        if dry_run {
                            r.action matches StormguardAdjustmentAction::DryRun(a) && a.deep_view() == argv
                        } else {
                            r.action matches StormguardAdjustmentAction::Run(a) && a.deep_view() == argv
                        }
                    },
                }
            },
        }
    }
}

/// Decides a StormGuard rate adjustment: ignored before the shaping tree
/// exists or when the class id does not parse; otherwise, unless it is a
/// dry run, the new rate is remembered for replay; then the `class replace`
/// command is run (or, in a dry run, reported) unless live changes are
/// blocked (see [`adjustment_outcome`]).
pub fn stormguard_adjustment(
    dry_run: bool,
    interface_name: &str,
    class_id: &str,
    new_rate: u64,
    mq_created: bool,
    flags: &ShapingFlags,
    config: &BakeryConfig,
) -> (r: StormguardAdjustment)
    ensures
        adjustment_outcome(
            dry_run,
            interface_name@,
            class_id@,
            new_rate,
            mq_created,
            *flags,
            config.observe_mode,
            r,
        ),
{
    if !mq_created {
        return StormguardAdjustment { record: None, action: StormguardAdjustmentAction::NotReady };
    }
    let class = match TcHandle::from_string(class_id) {
        Ok(h) => h,
        Err(_) => return StormguardAdjustment { record: None, action: StormguardAdjustmentAction::InvalidClass },
    };
    let key = StormguardOverrideKey { interface: owned(interface_name), class };
    let command = override_command(&key, new_rate);
    let record = if dry_run {
        None
    } else {
        Some((key, new_rate))
    };
    let action = match live_tree_mutation_blocker_for_config(flags, config) {
        Some(reason) => StormguardAdjustmentAction::Blocked(reason),
        None => if dry_run {
            StormguardAdjustmentAction::DryRun(command)
        } else {
            StormguardAdjustmentAction::Run(command)
        },
    };
    StormguardAdjustment { record, action }
}

} // verus!
