//! Bakery commands and the `tc` argument vectors derived from them.
use vstd::prelude::*;
use crate::config::{BakeryConfig, LazyQueueMode};
use crate::tc_handle::{class_id_seq, class_id_string, tc_seq, TcHandle};
use crate::text::{
    chars_of, eq_ignore_ascii_case, find_char, first_index_of, owned, slice_chars,
    str_eq_ignore_ascii_case, string_of, trim_chars, trim_seq,
};

verus! {

/// Execution Mode
#[derive(Debug, Clone, Copy, PartialEq, Eq, Structural)]
pub enum ExecutionMode {
    /// We're constructing the tree
    Builder,
    /// Live Update
    LiveUpdate,
}

/// List of commands that the Bakery system can handle.
///
/// Rates are carried as the IEEE-754 bit pattern of the `f32` Mbps value
/// (`f32::to_bits`); two rates are the same rate exactly when their bits are
/// equal.
#[derive(Debug)]
pub enum BakeryCommands {
    /// Notification that the bus socket is ready; bakery can seed mappings
    BusReady,
    /// Add or update an IP mapping (mirrors `MapIpToFlow` from the bus)
    MapIp {
        /// The IP address to map (may include CIDR prefix)
        ip_address: String,
        /// Classifier handle (major:minor)
        tc_handle: TcHandle,
        /// CPU index
        cpu: u32,
        /// Upload map (on-a-stick second map)
        upload: bool,
    },
    /// Delete an IP mapping (mirrors `DelIpFlow` from the bus)
    DelIp {
        /// The IP address to unmap (may include CIDR prefix)
        ip_address: String,
        /// Upload map (on-a-stick second map)
        upload: bool,
    },
    /// Clear all IP mappings (mirrors `ClearIpFlow` from the bus)
    ClearIpAll,
    /// Commit the current set of staged IP mappings and perform stale cleanup.
    CommitMappings,
    /// Send this when circuits are seen by the throughput tracker
    OnCircuitActivity {
        /// All active circuit IDs
        circuit_ids: Vec<i64>,
    },
    /// Periodic tick
    Tick,
    /// Change an existing site's HTB rates live without a rebuild.
    ChangeSiteSpeedLive {
        /// Unique identifier for the target site.
        site_hash: i64,
        /// New minimum download rate (Mbps, `f32` bits).
        download_bandwidth_min: u32,
        /// New minimum upload rate (Mbps, `f32` bits).
        upload_bandwidth_min: u32,
        /// New maximum download rate (Mbps, `f32` bits).
        download_bandwidth_max: u32,
        /// New maximum upload rate (Mbps, `f32` bits).
        upload_bandwidth_max: u32,
    },
    /// Begin a batch of changes; subsequent commands are queued until commit.
    StartBatch,
    /// Commit the current batch, diffing and applying queued changes.
    CommitBatch,
    /// Set up MQ roots and per-queue parents on one or both interfaces.
    MqSetup {
        /// Total number of MQ queues to create per interface.
        queues_available: usize,
        /// Offset applied to queue indices on the Internet-facing side.
        stick_offset: usize,
    },
    /// Add or update a site class pair under the given parents.
    AddSite {
        /// Unique identifier for the site.
        site_hash: i64,
        /// Parent class handle on the ISP-facing interface (downlink side).
        parent_class_id: TcHandle,
        /// Parent class handle on the Internet-facing interface (uplink side).
        up_parent_class_id: TcHandle,
        /// Minor class ID shared by uplink/downlink site classes.
        class_minor: u16,
        /// Minimum download rate (Mbps, `f32` bits).
        download_bandwidth_min: u32,
        /// Minimum upload rate (Mbps, `f32` bits).
        upload_bandwidth_min: u32,
        /// Maximum download rate (Mbps, `f32` bits).
        download_bandwidth_max: u32,
        /// Maximum upload rate (Mbps, `f32` bits).
        upload_bandwidth_max: u32,
    },
    /// Add or update a circuit beneath a site.
    AddCircuit {
        /// Unique identifier for the circuit.
        circuit_hash: i64,
        /// Human circuit name, if known.
        circuit_name: Option<String>,
        /// Human parent site name, if known.
        site_name: Option<String>,
        /// Parent class handle on the ISP-facing interface (downlink side).
        parent_class_id: TcHandle,
        /// Parent class handle on the Internet-facing interface (uplink side).
        up_parent_class_id: TcHandle,
        /// Minor class ID used for both uplink and downlink circuit classes.
        class_minor: u16,
        /// Minimum download rate (Mbps, `f32` bits).
        download_bandwidth_min: u32,
        /// Minimum upload rate (Mbps, `f32` bits).
        upload_bandwidth_min: u32,
        /// Maximum download rate (Mbps, `f32` bits).
        download_bandwidth_max: u32,
        /// Maximum upload rate (Mbps, `f32` bits).
        upload_bandwidth_max: u32,
        /// Major class ID (downlink) used when attaching SQM/HTB.
        class_major: u16,
        /// Major class ID (uplink) used when attaching SQM/HTB.
        up_class_major: u16,
        /// Explicit downlink leaf qdisc handle major, if assigned.
        down_qdisc_handle: Option<u16>,
        /// Explicit uplink leaf qdisc handle major, if assigned.
        up_qdisc_handle: Option<u16>,
        /// Concatenated list of all IPs for this circuit.
        ip_addresses: String,
        /// Optional per-circuit SQM override: "cake", "fq_codel", "none" or "down/up".
        sqm_override: Option<String>,
    },
    /// Change a specific HTB class rate on-the-fly; optionally dry-run.
    StormGuardAdjustment {
        /// If true, log the tc command instead of executing it.
        dry_run: bool,
        /// Network interface name containing the class.
        interface_name: String,
        /// Fully qualified class identifier (e.g., `1:2`).
        class_id: String,
        /// New class ceiling rate in Mbps.
        new_rate: u64,
    },
    /// TreeGuard request to virtualize or restore a node at runtime.
    TreeGuardSetNodeVirtual {
        /// Target site hash.
        site_hash: i64,
        /// `true` to virtualize, `false` to restore.
        virtualized: bool,
    },
    /// Remove a runtime-added (dynamic) circuit overlay.
    RemoveDynamicCircuitOverlay {
        /// Circuit identifier as given by the operator.
        circuit_id: String,
    },
}

/// Requested runtime node action.
#[derive(Clone, Copy, Debug, PartialEq, Eq, Structural)]
pub enum RuntimeNodeOperationAction {
    /// Flatten (virtualize) the node.
    Virtualize,
    /// Restore the node's physical branch.
    Restore,
}

/// Lifecycle status of a runtime node operation.
#[derive(Clone, Copy, Debug, PartialEq, Eq, Structural)]
pub enum RuntimeNodeOperationStatus {
    /// Accepted, waiting to start.
    Submitted,
    /// Waiting for runtime-node capacity.
    Deferred,
    /// Being applied.
    Applying,
    /// Applied; the inactive branch still awaits cleanup.
    AppliedAwaitingCleanup,
    /// Finished.
    Completed,
    /// Failed.
    Failed,
    /// The live tree no longer matches Bakery's model.
    Dirty,
}

/// Structural reasons a runtime node operation cannot proceed.
#[derive(Clone, Copy, Debug, PartialEq, Eq, Structural)]
pub enum RuntimeNodeOperationFailureReason {
    /// The node has no direct child sites or circuits to promote.
    StructuralIneligibleNoPromotableChildren,
    /// The node has exactly one promotable direct child.
    StructuralIneligibleSinglePromotableChild,
    /// The node already sits inside a retained runtime shadow branch.
    StructuralIneligibleNestedRuntimeBranch,
}

/// Snapshot of a runtime node operation for status consumers.
#[derive(Clone, Debug, PartialEq, Eq)]
pub struct RuntimeNodeOperationSnapshot {
    /// Monotonic Bakery-local operation identifier.
    pub operation_id: u64,
    /// Target site hash.
    pub site_hash: i64,
    /// Requested action.
    pub action: RuntimeNodeOperationAction,
    /// Current status.
    pub status: RuntimeNodeOperationStatus,
    /// Attempts performed so far.
    pub attempt_count: u32,
    /// Submission time (unix seconds).
    pub submitted_at_unix: u64,
    /// Last status change (unix seconds).
    pub updated_at_unix: u64,
    /// Next retry time, if waiting.
    pub next_retry_at_unix: Option<u64>,
    /// Last error, if any.
    pub last_error: Option<String>,
    /// Structural failure reason, if any.
    pub failure_reason: Option<RuntimeNodeOperationFailureReason>,
}

impl RuntimeNodeOperationSnapshot {
    /// A copy of this snapshot.
    pub fn duplicate(&self) -> (r: Self)
        ensures
            r == *self,
    {
        RuntimeNodeOperationSnapshot {
            operation_id: self.operation_id,
            site_hash: self.site_hash,
            action: self.action,
            status: self.status,
            attempt_count: self.attempt_count,
            submitted_at_unix: self.submitted_at_unix,
            updated_at_unix: self.updated_at_unix,
            next_retry_at_unix: self.next_retry_at_unix,
            last_error: match &self.last_error {
                Some(e) => Some(e.clone()),
                None => None,
            },
            failure_reason: self.failure_reason,
        }
    }
}

/// A copy of an optional string equal to the original.
pub fn clone_exact(o: &Option<String>) -> (r: Option<String>)
    ensures
        r == *o,
{
    match o {
        Some(s) => Some(s.clone()),
        None => None,
    }
}

/// View of an optional string.
pub open spec fn opt_view(o: Option<String>) -> Option<Seq<char>> {
    match o {
        Some(s) => Some(s@),
        None => None,
    }
}

/// Copies an optional string.
pub fn clone_opt_string(o: &Option<String>) -> (r: Option<String>)
    ensures
        opt_view(r) == opt_view(*o),
{
    match o {
        Some(s) => Some(owned(s.as_str())),
        None => None,
    }
}

/// `Some(t)` unless `t` is empty.
pub open spec fn nonempty(t: Seq<char>) -> Option<Seq<char>> {
    if t.len() == 0 {
        None
    } else {
        Some(t)
    }
}

/// Per-direction SQM overrides: `"down/up"` splits at the first `/` (each side
/// trimmed, empty meaning no override); any other text applies to both.
pub open spec fn directional_override(o: Option<Seq<char>>) -> (Option<Seq<char>>, Option<Seq<char>>) {
    match o {
        None => (None, None),
        Some(t) => match first_index_of(t, '/') {
            Some(i) => (
                nonempty(trim_seq(t.subrange(0, i))),
                nonempty(trim_seq(t.subrange(i + 1, t.len() as int))),
            ),
            None => (Some(t), Some(t)),
        },
    }
}

/// The override text is `none` (ASCII case-insensitive).
pub open spec fn is_none_override(o: Option<Seq<char>>) -> bool {
    o matches Some(t) && eq_ignore_ascii_case(t, "none"@)
}

fn nonempty_string(t: Vec<char>) -> (r: Option<String>)
    ensures
        opt_view(r) == nonempty(t@),
{
    if t.len() == 0 {
        None
    } else {
        Some(string_of(&t))
    }
}

/// Splits an SQM override into its downlink and uplink parts.
pub fn parse_directional_sqm_override(sqm_override: &Option<String>) -> (r: (
    Option<String>,
    Option<String>,
))
    ensures
        (opt_view(r.0), opt_view(r.1)) == directional_override(opt_view(*sqm_override)),
{
    match sqm_override {
        None => (None, None),
        Some(s) => {
            let cs = chars_of(s.as_str());
            match find_char(&cs, '/') {
                Some(i) => {
                    let down = trim_chars(&slice_chars(&cs, 0, i));
                    let up = trim_chars(&slice_chars(&cs, i + 1, cs.len()));
                    (nonempty_string(down), nonempty_string(up))
                },
                None => (Some(owned(s.as_str())), Some(owned(s.as_str()))),
            }
        },
    }
}

/// Whether an optional override is `none`.
pub fn override_is_none(o: &Option<String>) -> (r: bool)
    ensures
        r == is_none_override(opt_view(*o)),
{
    match o {
        Some(t) => str_eq_ignore_ascii_case(t.as_str(), "none"),
        None => false,
    }
}

/// `qdisc del dev <dev> parent 0x<major>:0x<minor>`.
pub open spec fn qdisc_del_parent_argv(dev: Seq<char>, major: u16, minor: u16) -> Seq<Seq<char>> {
    seq!["qdisc"@, "del"@, "dev"@, dev, "parent"@, class_id_seq(major, minor)]
}

/// `class del dev <dev> parent <parent> classid 0x<parent major>:0x<minor>`.
pub open spec fn class_del_argv(dev: Seq<char>, parent: TcHandle, minor: u16) -> Seq<Seq<char>> {
    seq![
        "class"@,
        "del"@,
        "dev"@,
        dev,
        "parent"@,
        tc_seq(parent.0),
        "classid"@,
        class_id_seq(parent.major(), minor),
    ]
}

/// Builds `qdisc del dev <dev> parent 0x<major>:0x<minor>`.
pub fn qdisc_del_parent(dev: &String, major: u16, minor: u16) -> (r: Vec<String>)
    ensures
        r.deep_view() == qdisc_del_parent_argv(dev@, major, minor),
{
    let mut v: Vec<String> = Vec::new();
    v.push(owned("qdisc"));
    v.push(owned("del"));
    v.push(owned("dev"));
    v.push(owned(dev.as_str()));
    v.push(owned("parent"));
    v.push(class_id_string(major, minor));
    assert(v.deep_view() =~= qdisc_del_parent_argv(dev@, major, minor));
    v
}

/// Builds `class del dev <dev> parent <parent> classid 0x<parent major>:0x<minor>`.
pub fn class_del(dev: &String, parent: TcHandle, minor: u16) -> (r: Vec<String>)
    ensures
        r.deep_view() == class_del_argv(dev@, parent, minor),
{
    let (major, _) = parent.get_major_minor();
    let mut v: Vec<String> = Vec::new();
    v.push(owned("class"));
    v.push(owned("del"));
    v.push(owned("dev"));
    v.push(owned(dev.as_str()));
    v.push(owned("parent"));
    v.push(parent.as_tc_string());
    v.push(owned("classid"));
    v.push(class_id_string(major, minor));
    assert(v.deep_view() =~= class_del_argv(dev@, parent, minor));
    v
}

/// The `tc` deletions that prune a circuit, or `None` when nothing applies.
pub open spec fn to_prune_spec(cmd: BakeryCommands, cfg: BakeryConfig, force: bool) -> Option<
    Seq<Seq<Seq<char>>>,
> {
    match cmd {
        BakeryCommands::AddCircuit {
            parent_class_id,
            up_parent_class_id,
            class_minor,
            class_major,
            up_class_major,
            sqm_override,
            ..
        } => {
            if !force && !(cfg.lazy_queues matches Some(m) && m != LazyQueueMode::No) {
                None
            } else {
                let prune_htb = force || cfg.lazy_queues == Some(LazyQueueMode::Full);
                let (down, up) = directional_override(opt_view(sqm_override));
                let up_sqm = if !is_none_override(up) && !cfg.on_a_stick {
                    seq![qdisc_del_parent_argv(cfg.internet_interface@, up_class_major, class_minor)]
                } else {
                    Seq::empty()
                };
                let down_sqm = if !is_none_override(down) {
                    seq![qdisc_del_parent_argv(cfg.isp_interface@, class_major, class_minor)]
                } else {
                    Seq::empty()
                };
                let htb = if prune_htb {
                    seq![
                        class_del_argv(cfg.isp_interface@, parent_class_id, class_minor),
                        class_del_argv(cfg.internet_interface@, up_parent_class_id, class_minor),
                    ]
                } else {
                    Seq::empty()
                };
                Some(up_sqm + down_sqm + htb)
            }
        },
        _ => None,
    }
}

/// View of an optional list of `tc` argument vectors.
pub open spec fn opt_cmds_view(o: Option<Vec<Vec<String>>>) -> Option<Seq<Seq<Seq<char>>>> {
    match o {
        Some(v) => Some(v.deep_view()),
        None => None,
    }
}

/// Two commands carry the same values (lists compared by content).
pub open spec fn same_command(a: BakeryCommands, b: BakeryCommands) -> bool {
    match (a, b) {
        (
            BakeryCommands::OnCircuitActivity { circuit_ids: x },
            BakeryCommands::OnCircuitActivity { circuit_ids: y },
        ) => x@ == y@,
        (BakeryCommands::OnCircuitActivity { .. }, _) => false,
        _ => a == b,
    }
}

impl BakeryCommands {
    /// A copy of this command.
    pub fn duplicate(&self) -> (r: Self)
        ensures
            same_command(r, *self),
    {
        match self {
            BakeryCommands::BusReady => BakeryCommands::BusReady,
            BakeryCommands::MapIp { ip_address, tc_handle, cpu, upload } => BakeryCommands::MapIp {
                ip_address: ip_address.clone(),
                tc_handle: *tc_handle,
                cpu: *cpu,
                upload: *upload,
            },
            BakeryCommands::DelIp { ip_address, upload } => BakeryCommands::DelIp {
                ip_address: ip_address.clone(),
                upload: *upload,
            },
            BakeryCommands::ClearIpAll => BakeryCommands::ClearIpAll,
            BakeryCommands::CommitMappings => BakeryCommands::CommitMappings,
            BakeryCommands::OnCircuitActivity { circuit_ids } => {
                let mut ids: Vec<i64> = Vec::new();
                let mut i: usize = 0;
                while i < circuit_ids.len()
                    invariant
                        i <= circuit_ids@.len(),
                        ids@ == circuit_ids@.take(i as int),
                    decreases circuit_ids@.len() - i,
                {
                    ids.push(circuit_ids[i]);
                    assert(ids@ =~= circuit_ids@.take(i + 1));
                    i = i + 1;
                }
                assert(ids@ =~= circuit_ids@);
                BakeryCommands::OnCircuitActivity { circuit_ids: ids }
            },
            BakeryCommands::Tick => BakeryCommands::Tick,
            BakeryCommands::ChangeSiteSpeedLive {
                site_hash,
                download_bandwidth_min,
                upload_bandwidth_min,
                download_bandwidth_max,
                upload_bandwidth_max,
            } => BakeryCommands::ChangeSiteSpeedLive {
                site_hash: *site_hash,
                download_bandwidth_min: *download_bandwidth_min,
                upload_bandwidth_min: *upload_bandwidth_min,
                download_bandwidth_max: *download_bandwidth_max,
                upload_bandwidth_max: *upload_bandwidth_max,
            },
            BakeryCommands::StartBatch => BakeryCommands::StartBatch,
            BakeryCommands::CommitBatch => BakeryCommands::CommitBatch,
            BakeryCommands::MqSetup { queues_available, stick_offset } => BakeryCommands::MqSetup {
                queues_available: *queues_available,
                stick_offset: *stick_offset,
            },
            BakeryCommands::AddSite {
                site_hash,
                parent_class_id,
                up_parent_class_id,
                class_minor,
                download_bandwidth_min,
                upload_bandwidth_min,
                download_bandwidth_max,
                upload_bandwidth_max,
            } => BakeryCommands::AddSite {
                site_hash: *site_hash,
                parent_class_id: *parent_class_id,
                up_parent_class_id: *up_parent_class_id,
                class_minor: *class_minor,
                download_bandwidth_min: *download_bandwidth_min,
                upload_bandwidth_min: *upload_bandwidth_min,
                download_bandwidth_max: *download_bandwidth_max,
                upload_bandwidth_max: *upload_bandwidth_max,
            },
            BakeryCommands::AddCircuit {
                circuit_hash,
                circuit_name,
                site_name,
                parent_class_id,
                up_parent_class_id,
                class_minor,
                download_bandwidth_min,
                upload_bandwidth_min,
                download_bandwidth_max,
                upload_bandwidth_max,
                class_major,
                up_class_major,
                down_qdisc_handle,
                up_qdisc_handle,
                ip_addresses,
                sqm_override,
            } => BakeryCommands::AddCircuit {
                circuit_hash: *circuit_hash,
                circuit_name: clone_exact(circuit_name),
                site_name: clone_exact(site_name),
                parent_class_id: *parent_class_id,
                up_parent_class_id: *up_parent_class_id,
                class_minor: *class_minor,
                download_bandwidth_min: *download_bandwidth_min,
                upload_bandwidth_min: *upload_bandwidth_min,
                download_bandwidth_max: *download_bandwidth_max,
                upload_bandwidth_max: *upload_bandwidth_max,
                class_major: *class_major,
                up_class_major: *up_class_major,
                down_qdisc_handle: *down_qdisc_handle,
                up_qdisc_handle: *up_qdisc_handle,
                ip_addresses: ip_addresses.clone(),
                sqm_override: clone_exact(sqm_override),
            },
            BakeryCommands::StormGuardAdjustment { dry_run, interface_name, class_id, new_rate } => {
                BakeryCommands::StormGuardAdjustment {
                    dry_run: *dry_run,
                    interface_name: interface_name.clone(),
                    class_id: class_id.clone(),
                    new_rate: *new_rate,
                }
            },
            BakeryCommands::TreeGuardSetNodeVirtual { site_hash, virtualized } => {
                BakeryCommands::TreeGuardSetNodeVirtual { site_hash: *site_hash, virtualized: *virtualized }
            },
            BakeryCommands::RemoveDynamicCircuitOverlay { circuit_id } => {
                BakeryCommands::RemoveDynamicCircuitOverlay { circuit_id: circuit_id.clone() }
            },
        }
    }

    /// Translate this circuit definition into `tc` deletions to prune it.
    ///
    /// With `force`, both SQM qdiscs and HTB classes are removed; otherwise
    /// `LazyQueueMode::Htb` prunes only SQM, `LazyQueueMode::Full` prunes both
    /// and disabled lazy queues prune nothing (`None`). Directions whose SQM
    /// override is `none` keep their (absent) qdisc; the uplink qdisc is not
    /// touched on a single-interface deployment. Non-circuit commands give `None`.
    pub fn to_prune(&self, config: &BakeryConfig, force: bool) -> (r: Option<Vec<Vec<String>>>)
        ensures
            opt_cmds_view(r) == to_prune_spec(*self, *config, force),
    {
        match self {
            BakeryCommands::AddCircuit {
                parent_class_id,
                up_parent_class_id,
                class_minor,
                class_major,
                up_class_major,
                sqm_override,
                ..
            } => {
                let prune_htb: bool;
                if force {
                    prune_htb = true;
                } else {
                    match config.lazy_queues {
                        None => {
                            return None;
                        },
                        Some(LazyQueueMode::No) => {
                            return None;
                        },
                        Some(LazyQueueMode::Htb) => {
                            prune_htb = false;
                        },
                        Some(LazyQueueMode::Full) => {
                            prune_htb = true;
                        },
                    }
                }
                let (down, up) = parse_directional_sqm_override(sqm_override);
                let isp = config.isp_interface();
                let internet = config.internet_interface();
                let mut result: Vec<Vec<String>> = Vec::new();
                if !override_is_none(&up) && !config.on_a_stick_mode() {
                    result.push(qdisc_del_parent(&internet, *up_class_major, *class_minor));
                }
                if !override_is_none(&down) {
                    result.push(qdisc_del_parent(&isp, *class_major, *class_minor));
                }
                if prune_htb {
                    result.push(class_del(&isp, *parent_class_id, *class_minor));
                    result.push(class_del(&internet, *up_parent_class_id, *class_minor));
                }
                proof {
                    let spec = to_prune_spec(*self, *config, force);
                    assert(spec is Some);
                    assert(result.deep_view() =~= spec.unwrap());
                }
                Some(result)
            },
            _ => None,
        }
    }
}

} // verus!
