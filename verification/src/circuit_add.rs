//! The `tc` commands that build a circuit: its HTB class in each direction
//! and the SQM qdisc under each, as the execution mode, lazy-queue mode,
//! monitor-only mode, on-a-stick mode and the circuit's SQM override allow.
use vstd::prelude::*;
use crate::commands::{
    directional_override, is_none_override, opt_view, override_is_none, parse_directional_sqm_override,
    opt_cmds_view, BakeryCommands, ExecutionMode,
};
use crate::config::{BakeryConfig, LazyQueueMode};
use crate::tc_handle::{class_id_seq, class_id_string, tc_seq, TcHandle};
use crate::text::owned;
use crate::mq_setup::{mq_setup, mq_setup_argvs, MqDirectionRates};

verus! {

/// A circuit's rates and SQM qdisc specs, already written for `tc` (the
/// caller formats the `f32` rates and picks each direction's SQM tokens for
/// its rate and override).
#[derive(Debug)]
pub struct CircuitRateStrings {
    /// Guaranteed download rate.
    pub down_min: String,
    /// Download ceiling.
    pub down_max: String,
    /// Download HTB quantum.
    pub down_quantum: String,
    /// Guaranteed upload rate.
    pub up_min: String,
    /// Upload ceiling.
    pub up_max: String,
    /// Upload HTB quantum.
    pub up_quantum: String,
    /// SQM qdisc tokens for the download direction.
    pub down_sqm: Vec<String>,
    /// SQM qdisc tokens for the upload direction.
    pub up_sqm: Vec<String>,
}

/// Whether a circuit build makes its HTB classes and its SQM qdiscs: a
/// builder run makes both; a live update follows the lazy-queue mode (none
/// without lazy queues, SQM only for lazy HTB, both for fully lazy).
pub open spec fn circuit_build_parts(mode: ExecutionMode, cfg: BakeryConfig) -> (bool, bool) {
    if mode == ExecutionMode::Builder {
        (true, true)
    } else {
        match cfg.lazy_queues {
            None => (false, false),
            Some(LazyQueueMode::No) => (false, false),
            Some(LazyQueueMode::Htb) => (false, true),
            Some(LazyQueueMode::Full) => (true, true),
        }
    }
}

/// `class replace dev <dev> parent <parent> classid 0x<major>:0x<minor> htb
/// rate <min> ceil <max> prio 3 quantum <quantum>`
pub open spec fn circuit_class_argv(
    dev: Seq<char>,
    parent: TcHandle,
    major: u16,
    minor: u16,
    min: Seq<char>,
    max: Seq<char>,
    quantum: Seq<char>,
) -> Seq<Seq<char>> {
    seq![
        "class"@,
        "replace"@,
        "dev"@,
        dev,
        "parent"@,
        tc_seq(parent.0),
        "classid"@,
        class_id_seq(major, minor),
        "htb"@,
        "rate"@,
        min,
        "ceil"@,
        max,
        "prio"@,
        "3"@,
        "quantum"@,
        quantum,
    ]
}

/// `qdisc replace dev <dev> parent 0x<major>:0x<minor> <sqm...>`
pub open spec fn circuit_sqm_argv(dev: Seq<char>, major: u16, minor: u16, sqm: Seq<Seq<char>>) -> Seq<
    Seq<char>,
> {
    seq!["qdisc"@, "replace"@, "dev"@, dev, "parent"@, class_id_seq(major, minor)] + sqm
}

/// The commands that build a circuit, in order: download class, download
/// SQM, upload class, upload SQM. Classes come when the build makes HTB
/// classes; an SQM qdisc when it makes SQM, the host is not monitor-only and
/// that direction's override is not `none` (the upload one also not on a
/// stick). `None` for a command that is not a circuit.
pub open spec fn add_circuit_argvs(
    cmd: BakeryCommands,
    mode: ExecutionMode,
    cfg: BakeryConfig,
    rates: CircuitRateStrings,
) -> Option<Seq<Seq<Seq<char>>>> {
    match cmd {
        BakeryCommands::AddCircuit {
            parent_class_id,
            up_parent_class_id,
            class_minor,
            class_major,
            up_class_major,
            sqm_override,
            ..
        } => {
            let (htb, sqm) = circuit_build_parts(mode, cfg);
            let (down_o, up_o) = directional_override(opt_view(sqm_override));
            let down_class = if htb {
                seq![
                    circuit_class_argv(
                        cfg.isp_interface@,
                        parent_class_id,
                        class_major,
                        class_minor,
                        rates.down_min@,
                        rates.down_max@,
                        rates.down_quantum@,
                    ),
                ]
            } else {
                Seq::empty()
            };
            let down_sqm = if !cfg.monitor_only && sqm && !is_none_override(down_o) {
                seq![circuit_sqm_argv(cfg.isp_interface@, class_major, class_minor, rates.down_sqm.deep_view())]
            } else {
                Seq::empty()
            };
            let up_class = if htb {
                seq![
                    circuit_class_argv(
                        cfg.internet_interface@,
                        up_parent_class_id,
                        up_class_major,
                        class_minor,
                        rates.up_min@,
                        rates.up_max@,
                        rates.up_quantum@,
                    ),
                ]
            } else {
                Seq::empty()
            };
            let up_sqm = if !cfg.monitor_only && sqm && !cfg.on_a_stick && !is_none_override(up_o) {
                seq![circuit_sqm_argv(cfg.internet_interface@, up_class_major, class_minor, rates.up_sqm.deep_view())]
            } else {
                Seq::empty()
            };
            Some(down_class + down_sqm + up_class + up_sqm)
        },
        _ => None,
    }
}

fn circuit_class(
    dev: &String,
    parent: TcHandle,
    major: u16,
    minor: u16,
    min: &String,
    max: &String,
    quantum: &String,
) -> (r: Vec<String>)
    ensures
        r.deep_view() == circuit_class_argv(dev@, parent, major, minor, min@, max@, quantum@),
{
    let mut v: Vec<String> = Vec::new();
    v.push(owned("class"));
    v.push(owned("replace"));
    v.push(owned("dev"));
    v.push(owned(dev.as_str()));
    v.push(owned("parent"));
    v.push(parent.as_tc_string());
    v.push(owned("classid"));
    v.push(class_id_string(major, minor));
    v.push(owned("htb"));
    v.push(owned("rate"));
    v.push(owned(min.as_str()));
    v.push(owned("ceil"));
    v.push(owned(max.as_str()));
    v.push(owned("prio"));
    v.push(owned("3"));
    v.push(owned("quantum"));
    v.push(owned(quantum.as_str()));
    assert(v.deep_view() =~= circuit_class_argv(dev@, parent, major, minor, min@, max@, quantum@));
    v
}

fn circuit_sqm(dev: &String, major: u16, minor: u16, sqm: &Vec<String>) -> (r: Vec<String>)
    ensures
        r.deep_view() == circuit_sqm_argv(dev@, major, minor, sqm.deep_view()),
{
    let mut v: Vec<String> = Vec::new();
    v.push(owned("qdisc"));
    v.push(owned("replace"));
    v.push(owned("dev"));
    v.push(owned(dev.as_str()));
    v.push(owned("parent"));
    v.push(class_id_string(major, minor));
    let ghost head = v.deep_view();
    let mut i: usize = 0;
    while i < sqm.len()
        invariant
            i <= sqm@.len(),
            v.deep_view() == head + sqm.deep_view().take(i as int),
        decreases sqm@.len() - i,
    {
        let ghost old_v = v.deep_view();
        v.push(owned(sqm[i].as_str()));
        assert(v.deep_view() =~= old_v.push(sqm.deep_view()[i as int]));
        assert(sqm.deep_view().take(i + 1) =~= sqm.deep_view().take(i as int).push(sqm.deep_view()[i as int]));
        assert(v.deep_view() =~= head + sqm.deep_view().take(i + 1));
        i = i + 1;
    }
    assert(sqm.deep_view().take(sqm@.len() as int) =~= sqm.deep_view());
    assert(head =~= seq!["qdisc"@, "replace"@, "dev"@, dev@, "parent"@, class_id_seq(major, minor)]);
    v
}

impl BakeryCommands {
    /// The `tc` commands that build this circuit (see [`add_circuit_argvs`]);
    /// `None` when this is not an `AddCircuit`.
    pub fn add_circuit(
        &self,
        execution_mode: ExecutionMode,
        config: &BakeryConfig,
        rates: &CircuitRateStrings,
    ) -> (r: Option<Vec<Vec<String>>>)
        ensures
            match add_circuit_argvs(*self, execution_mode, *config, *rates) {
                Some(cmds) => r matches Some(v) && v.deep_view() == cmds,
                None => r is None,
            },
    {
        match self {
            BakeryCommands::AddCircuit {
                parent_class_id,
                up_parent_class_id,
                class_minor,
                class_major,
                up_class_major,
                sqm_override,
                ..
            } => {
                let (do_htb, do_sqm) = match execution_mode {
                    ExecutionMode::Builder => (true, true),
                    ExecutionMode::LiveUpdate => match config.lazy_queues {
                        None => (false, false),
                        Some(LazyQueueMode::No) => (false, false),
                        Some(LazyQueueMode::Htb) => (false, true),
                        Some(LazyQueueMode::Full) => (true, true),
                    },
                };
                let (down_o, up_o) = parse_directional_sqm_override(sqm_override);
                let mut result: Vec<Vec<String>> = Vec::new();
                if do_htb {
                    let c = circuit_class(
                        &config.isp_interface,
                        *parent_class_id,
                        *class_major,
                        *class_minor,
                        &rates.down_min,
                        &rates.down_max,
                        &rates.down_quantum,
                    );
                    result.push(c);
                }
                if !config.monitor_only && do_sqm && !override_is_none(&down_o) {
                    result.push(circuit_sqm(&config.isp_interface, *class_major, *class_minor, &rates.down_sqm));
                }
                if do_htb {
                    let c = circuit_class(
                        &config.internet_interface,
                        *up_parent_class_id,
                        *up_class_major,
                        *class_minor,
                        &rates.up_min,
                        &rates.up_max,
                        &rates.up_quantum,
                    );
                    result.push(c);
                }
                if !config.monitor_only && do_sqm && !config.on_a_stick && !override_is_none(&up_o) {
                    result.push(circuit_sqm(&config.internet_interface, *up_class_major, *class_minor, &rates.up_sqm));
                }
                proof {
                    let cmds = add_circuit_argvs(*self, execution_mode, *config, *rates)->0;
                    assert(result.deep_view() =~= cmds);
                }
                Some(result)
            },
            _ => None,
        }
    }
}

/// A site's rates, already written for `tc`.
#[derive(Debug)]
pub struct SiteRateStrings {
    /// Guaranteed download rate.
    pub down_min: String,
    /// Download ceiling.
    pub down_max: String,
    /// Download HTB quantum.
    pub down_quantum: String,
    /// Guaranteed upload rate.
    pub up_min: String,
    /// Upload ceiling.
    pub up_max: String,
    /// Upload HTB quantum.
    pub up_quantum: String,
}

/// The two HTB classes of a site (downlink, then uplink), each under its
/// parent with the parent's major and the site's minor. `None` for a
/// command that is not a site.
pub open spec fn add_site_argvs(cmd: BakeryCommands, cfg: BakeryConfig, rates: SiteRateStrings) -> Option<
    Seq<Seq<Seq<char>>>,
> {
    match cmd {
        BakeryCommands::AddSite { parent_class_id, up_parent_class_id, class_minor, .. } => Some(
            seq![
                circuit_class_argv(
                    cfg.isp_interface@,
                    parent_class_id,
                    parent_class_id.major(),
                    class_minor,
                    rates.down_min@,
                    rates.down_max@,
                    rates.down_quantum@,
                ),
                circuit_class_argv(
                    cfg.internet_interface@,
                    up_parent_class_id,
                    up_parent_class_id.major(),
                    class_minor,
                    rates.up_min@,
                    rates.up_max@,
                    rates.up_quantum@,
                ),
            ],
        ),
        _ => None,
    }
}

/// The rates every command kind needs, written for `tc` by the caller.
#[derive(Debug)]
pub struct TcRateStrings {
    /// For `MqSetup`: the SQM qdisc tokens under each queue class.
    pub mq_sqm: Vec<String>,
    /// For `MqSetup`: the downlink queue rates.
    pub mq_down: MqDirectionRates,
    /// For `MqSetup`: the uplink queue rates.
    pub mq_up: MqDirectionRates,
    /// For `AddSite`.
    pub site: SiteRateStrings,
    /// For `AddCircuit`.
    pub circuit: CircuitRateStrings,
}

/// An `MqSetup`'s queue numbers fit in 64 bits.
pub open spec fn mq_counts_fit(cmd: BakeryCommands) -> bool {
    match cmd {
        BakeryCommands::MqSetup { queues_available, stick_offset } => queues_available + stick_offset < u64::MAX,
        _ => true,
    }
}

/// `Some` of a non-empty command list, `None` when nothing is to run.
pub open spec fn nonempty_cmds(o: Option<Seq<Seq<Seq<char>>>>) -> Option<Seq<Seq<Seq<char>>>> {
    match o {
        Some(c) => if c.len() > 0 {
            Some(c)
        } else {
            None
        },
        None => None,
    }
}

/// The `tc` commands a command emits: the `mq` setup, a site's classes or a
/// circuit's build; `None` for any other command or when nothing is to run.
pub open spec fn to_commands_argvs(
    cmd: BakeryCommands,
    cfg: BakeryConfig,
    mode: ExecutionMode,
    rates: TcRateStrings,
) -> Option<Seq<Seq<Seq<char>>>> {
    match cmd {
        BakeryCommands::MqSetup { queues_available, stick_offset } => nonempty_cmds(
            Some(
                mq_setup_argvs(
                    cfg,
                    queues_available as nat,
                    stick_offset as nat,
                    rates.mq_sqm.deep_view(),
                    rates.mq_down,
                    rates.mq_up,
                ),
            ),
        ),
        BakeryCommands::AddSite { .. } => nonempty_cmds(add_site_argvs(cmd, cfg, rates.site)),
        BakeryCommands::AddCircuit { .. } => nonempty_cmds(add_circuit_argvs(cmd, mode, cfg, rates.circuit)),
        _ => None,
    }
}

fn nonempty_vec(v: Vec<Vec<String>>) -> (r: Option<Vec<Vec<String>>>)
    ensures
        opt_cmds_view(r) == nonempty_cmds(Some(v.deep_view())),
{
    if v.len() > 0 {
        Some(v)
    } else {
        None
    }
}

impl BakeryCommands {
    /// The two HTB classes of this site (see [`add_site_argvs`]); `None`
    /// when this is not an `AddSite`.
    pub fn add_site(&self, config: &BakeryConfig, rates: &SiteRateStrings) -> (r: Option<Vec<Vec<String>>>)
        ensures
            opt_cmds_view(r) == add_site_argvs(*self, *config, *rates),
    {
        match self {
            BakeryCommands::AddSite { parent_class_id, up_parent_class_id, class_minor, .. } => {
                let (down_major, _) = parent_class_id.get_major_minor();
                let (up_major, _) = up_parent_class_id.get_major_minor();
                let mut result: Vec<Vec<String>> = Vec::new();
                result.push(
                    circuit_class(
                        &config.isp_interface,
                        *parent_class_id,
                        down_major,
                        *class_minor,
                        &rates.down_min,
                        &rates.down_max,
                        &rates.down_quantum,
                    ),
                );
                result.push(
                    circuit_class(
                        &config.internet_interface,
                        *up_parent_class_id,
                        up_major,
                        *class_minor,
                        &rates.up_min,
                        &rates.up_max,
                        &rates.up_quantum,
                    ),
                );
                proof {
                    assert(result.deep_view() =~= add_site_argvs(*self, *config, *rates)->0);
                }
                Some(result)
            },
            _ => None,
        }
    }

    /// Translates this command into `tc` argument vectors, in execution
    /// order (see [`to_commands_argvs`]); `None` when the command emits no
    /// `tc` operation or nothing is to run for it now.
    pub fn to_commands(
        &self,
        config: &BakeryConfig,
        execution_mode: ExecutionMode,
        rates: &TcRateStrings,
    ) -> (r: Option<Vec<Vec<String>>>)
        requires
            mq_counts_fit(*self),
        ensures
            opt_cmds_view(r) == to_commands_argvs(*self, *config, execution_mode, *rates),
    {
        match self {
            BakeryCommands::MqSetup { queues_available, stick_offset } => {
                match mq_setup(
                    config,
                    *queues_available as u64,
                    *stick_offset as u64,
                    &rates.mq_sqm,
                    &rates.mq_down,
                    &rates.mq_up,
                ) {
                    Some(v) => nonempty_vec(v),
                    None => None,
                }
            },
            BakeryCommands::AddSite { .. } => match self.add_site(config, &rates.site) {
                Some(v) => nonempty_vec(v),
                None => None,
            },
            BakeryCommands::AddCircuit { .. } => match self.add_circuit(execution_mode, config, &rates.circuit) {
                Some(v) => nonempty_vec(v),
                None => None,
            },
            _ => None,
        }
    }
}

} // verus!
