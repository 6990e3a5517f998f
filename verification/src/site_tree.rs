//! The site and circuit hierarchy as Bakery's commands describe it: class
//! handles, parents, queue placement, runtime-virtualization eligibility and the
//! `tc` deletions that prune a node.
use vstd::prelude::*;
use std::collections::HashMap;
use crate::commands::{class_del, class_del_argv, clone_exact, opt_view, BakeryCommands, RuntimeNodeOperationFailureReason};
use crate::config::BakeryConfig;
use crate::maps::map_keys;
use crate::runtime::{RuntimeNodeEligibilityError, VirtualizedSiteQdiscHandles, VirtualizedSiteState, sorted_keys};
use crate::summary::{sorted_insert, sorted_listing, strictly_sorted};
use crate::tc_handle::{handle_value, qdisc_handle_seq, qdisc_handle_string, TcHandle};
use crate::text::{append_str, dec_int, dec_seq, dec_string, dec_string_i64, hex_seq, hex_string, owned};

verus! {

broadcast use vstd::std_specs::hash::group_hash_axioms;

/// First minor number used by runtime shadow branches.
pub const ACTIVE_RUNTIME_MINOR_START: u32 = 0x1000;

/// Down/up class handles of a site: its class minor beneath each parent's major.
pub open spec fn site_handles_of(site: BakeryCommands) -> Option<(TcHandle, TcHandle)> {
    match site {
        BakeryCommands::AddSite { parent_class_id, up_parent_class_id, class_minor, .. } => Some(
            (
                TcHandle(handle_value(parent_class_id.major(), class_minor)),
                TcHandle(handle_value(up_parent_class_id.major(), class_minor)),
            ),
        ),
        _ => None,
    }
}

/// The down/up class handles of a site command.
pub fn site_class_handles(site: &BakeryCommands) -> (r: Option<(TcHandle, TcHandle)>)
    ensures
        r == site_handles_of(*site),
{
    match site {
        BakeryCommands::AddSite { parent_class_id, up_parent_class_id, class_minor, .. } => {
            let (down_major, _) = parent_class_id.get_major_minor();
            let (up_major, _) = up_parent_class_id.get_major_minor();
            Some(
                (
                    TcHandle::from_major_minor(down_major, *class_minor),
                    TcHandle::from_major_minor(up_major, *class_minor),
                ),
            )
        },
        _ => None,
    }
}

/// A site hangs directly off a queue root: both parents have minor 0 or 3.
pub open spec fn is_top_level_site(site: BakeryCommands) -> bool {
    match site {
        BakeryCommands::AddSite { parent_class_id, up_parent_class_id, .. } => {
            (parent_class_id.minor() == 0 || parent_class_id.minor() == 3) && (
            up_parent_class_id.minor() == 0 || up_parent_class_id.minor() == 3)
        },
        _ => false,
    }
}

/// Whether a site sits directly beneath a queue root.
pub fn site_is_top_level(site: &BakeryCommands) -> (r: bool)
    ensures
        r == is_top_level_site(*site),
{
    match site {
        BakeryCommands::AddSite { parent_class_id, up_parent_class_id, .. } => {
            let (_, down_minor) = parent_class_id.get_major_minor();
            let (_, up_minor) = up_parent_class_id.get_major_minor();
            (down_minor == 0 || down_minor == 3) && (up_minor == 0 || up_minor == 3)
        },
        _ => false,
    }
}

/// A site already inside a runtime shadow branch: its class minor or a parent
/// minor lies in the runtime range.
pub open spec fn inside_runtime_branch(site: BakeryCommands) -> bool {
    match site {
        BakeryCommands::AddSite { parent_class_id, up_parent_class_id, class_minor, .. } => {
            ||| class_minor >= ACTIVE_RUNTIME_MINOR_START
            ||| parent_class_id.minor() >= ACTIVE_RUNTIME_MINOR_START
            ||| up_parent_class_id.minor() >= ACTIVE_RUNTIME_MINOR_START
        },
        _ => false,
    }
}

/// Why a site cannot be runtime-virtualized (non-top-level path), if it cannot.
pub open spec fn site_eligibility_error(site: BakeryCommands) -> Option<Seq<char>> {
    match site {
        BakeryCommands::AddSite { site_hash, parent_class_id, up_parent_class_id, .. } => {
            if is_top_level_site(site) {
                Some(
                    "Site "@ + dec_int(site_hash as int)
                        + " is top-level in HTB and cannot be runtime-virtualized in v1"@,
                )
            } else if inside_runtime_branch(site) {
                Some(
                    "Site "@ + dec_int(site_hash as int)
                        + " is already inside a retained runtime shadow branch and cannot be nested in v1"@,
                )
            } else {
                None
            }
        },
        _ => Some("TreeGuard runtime virtualization requires an AddSite command"@),
    }
}

/// Why a site cannot be runtime-virtualized on the non-top-level path, if it
/// cannot: it is not a site, it is top-level, or it already sits inside a
/// runtime shadow branch. (A site's class shares its parents' majors, so the
/// queue-domain check always passes.)
pub fn site_runtime_virtualization_eligibility_error(site: &BakeryCommands) -> (r: Option<String>)
    ensures
        opt_view(r) == site_eligibility_error(*site),
{
    match site {
        BakeryCommands::AddSite { site_hash, parent_class_id, up_parent_class_id, class_minor, .. } => {
            if site_is_top_level(site) {
                let mut s = owned("Site ");
                let h = dec_string_i64(*site_hash);
                append_str(&mut s, h.as_str());
                append_str(&mut s, " is top-level in HTB and cannot be runtime-virtualized in v1");
                return Some(s);
            }
            let (_, down_parent_minor) = parent_class_id.get_major_minor();
            let (_, up_parent_minor) = up_parent_class_id.get_major_minor();
            if *class_minor as u32 >= ACTIVE_RUNTIME_MINOR_START || down_parent_minor as u32
                >= ACTIVE_RUNTIME_MINOR_START || up_parent_minor as u32 >= ACTIVE_RUNTIME_MINOR_START {
                let mut s = owned("Site ");
                let h = dec_string_i64(*site_hash);
                append_str(&mut s, h.as_str());
                append_str(
                    &mut s,
                    " is already inside a retained runtime shadow branch and cannot be nested in v1",
                );
                return Some(s);
            }
            None
        },
        _ => Some(owned("TreeGuard runtime virtualization requires an AddSite command")),
    }
}

/// Structural error for a site nested inside a runtime shadow branch.
pub fn nested_runtime_shadow_branch_eligibility_error(site: &BakeryCommands) -> (r: Option<
    RuntimeNodeEligibilityError,
>)
    ensures
        r is Some <==> inside_runtime_branch(*site),
        r matches Some(e) ==> e.failure_reason == Some(
            RuntimeNodeOperationFailureReason::StructuralIneligibleNestedRuntimeBranch,
        ) && e.message@ == "Site "@ + dec_int(site->AddSite_site_hash as int)
            + " is already inside a retained runtime shadow branch and cannot be nested in v1"@,
{
    match site {
        BakeryCommands::AddSite { site_hash, parent_class_id, up_parent_class_id, class_minor, .. } => {
            let (_, down_parent_minor) = parent_class_id.get_major_minor();
            let (_, up_parent_minor) = up_parent_class_id.get_major_minor();
            if (*class_minor as u32) < ACTIVE_RUNTIME_MINOR_START && (down_parent_minor as u32)
                < ACTIVE_RUNTIME_MINOR_START && (up_parent_minor as u32) < ACTIVE_RUNTIME_MINOR_START {
                return None;
            }
            let mut s = owned("Site ");
            let h = dec_string_i64(*site_hash);
            append_str(&mut s, h.as_str());
            append_str(
                &mut s,
                " is already inside a retained runtime shadow branch and cannot be nested in v1",
            );
            Some(
                RuntimeNodeEligibilityError::new(
                    s,
                    RuntimeNodeOperationFailureReason::StructuralIneligibleNestedRuntimeBranch,
                ),
            )
        },
        _ => None,
    }
}

/// `qdisc del dev <dev> handle 0x<major>:`
pub open spec fn qdisc_del_handle_argv(dev: Seq<char>, major: u16) -> Seq<Seq<char>> {
    seq!["qdisc"@, "del"@, "dev"@, dev, "handle"@, qdisc_handle_seq(major)]
}

/// Deletions of a virtualized node's observed root qdiscs.
pub open spec fn site_prune_qdisc_argvs(cfg: BakeryConfig, handles: VirtualizedSiteQdiscHandles) -> Seq<
    Seq<Seq<char>>,
> {
    let down = match handles.down {
        Some(h) => seq![qdisc_del_handle_argv(cfg.isp_interface@, h)],
        None => Seq::empty(),
    };
    let up = match handles.up {
        Some(h) => seq![qdisc_del_handle_argv(cfg.internet_interface@, h)],
        None => Seq::empty(),
    };
    down + up
}

/// Builds `qdisc del dev <dev> handle 0x<major>:`.
fn qdisc_del_handle(dev: &String, major: u16) -> (r: Vec<String>)
    ensures
        r.deep_view() == qdisc_del_handle_argv(dev@, major),
{
    let v = vec![
        owned("qdisc"),
        owned("del"),
        owned("dev"),
        owned(dev.as_str()),
        owned("handle"),
        qdisc_handle_string(major),
    ];
    assert(v.deep_view() =~= qdisc_del_handle_argv(dev@, major));
    v
}

/// Deletions of a virtualized node's observed root qdiscs (downlink first),
/// or `None` when neither is known.
pub fn site_prune_qdisc_commands(config: &BakeryConfig, handles: &VirtualizedSiteQdiscHandles) -> (r:
    Option<Vec<Vec<String>>>)
    ensures
        match r {
            Some(v) => v.deep_view() == site_prune_qdisc_argvs(*config, *handles) && v@.len() > 0,
            None => site_prune_qdisc_argvs(*config, *handles).len() == 0,
        },
{
    let mut commands: Vec<Vec<String>> = Vec::new();
    if let Some(h) = handles.down {
        let isp = config.isp_interface();
        commands.push(qdisc_del_handle(&isp, h));
    }
    if let Some(h) = handles.up {
        let internet = config.internet_interface();
        commands.push(qdisc_del_handle(&internet, h));
    }
    assert(commands.deep_view() =~= site_prune_qdisc_argvs(*config, *handles));
    if commands.len() == 0 {
        None
    } else {
        Some(commands)
    }
}

/// Deletions of a site's two classes.
pub open spec fn site_prune_class_argvs(cfg: BakeryConfig, site: BakeryCommands) -> Option<
    Seq<Seq<Seq<char>>>,
> {
    match site {
        BakeryCommands::AddSite { parent_class_id, up_parent_class_id, class_minor, .. } => Some(
            seq![
                class_del_argv(cfg.isp_interface@, parent_class_id, class_minor),
                class_del_argv(cfg.internet_interface@, up_parent_class_id, class_minor),
            ],
        ),
        _ => None,
    }
}

/// Deletions of a site's downlink and uplink classes; `None` for a non-site.
pub fn site_prune_class_commands(config: &BakeryConfig, site: &BakeryCommands) -> (r: Option<
    Vec<Vec<String>>,
>)
    ensures
        crate::commands::opt_cmds_view(r) == site_prune_class_argvs(*config, *site),
{
    match site {
        BakeryCommands::AddSite { parent_class_id, up_parent_class_id, class_minor, .. } => {
            let isp = config.isp_interface();
            let internet = config.internet_interface();
            let v = vec![
                class_del(&isp, *parent_class_id, *class_minor),
                class_del(&internet, *up_parent_class_id, *class_minor),
            ];
            assert(v.deep_view() =~= site_prune_class_argvs(*config, *site)->0);
            Some(v)
        },
        _ => None,
    }
}

/// Deletions that prune a virtualized node: its observed root qdiscs, then its
/// classes; `None` when the node's command is not a site.
pub fn site_prune_commands(config: &BakeryConfig, state: &VirtualizedSiteState) -> (r: Option<
    Vec<Vec<String>>,
>)
    ensures
        match site_prune_class_argvs(*config, state.site) {
            Some(classes) => crate::commands::opt_cmds_view(r) == Some(
                site_prune_qdisc_argvs(*config, state.qdisc_handles) + classes,
            ),
            None => r is None,
        },
{
    let mut commands = match site_prune_qdisc_commands(config, &state.qdisc_handles) {
        Some(c) => c,
        None => Vec::new(),
    };
    let ghost first = commands.deep_view();
    assert(first == site_prune_qdisc_argvs(*config, state.qdisc_handles));
    let mut classes = match site_prune_class_commands(config, &state.site) {
        Some(c) => c,
        None => {
            return None;
        },
    };
    let ghost second = classes.deep_view();
    commands.append(&mut classes);
    assert(commands.deep_view() =~= first + second);
    Some(commands)
}

/// A site command for the same site with new parents and class minor.
pub fn rebuild_site_command(
    site: &BakeryCommands,
    parent_class_id: TcHandle,
    up_parent_class_id: TcHandle,
    class_minor: u16,
) -> (r: Option<BakeryCommands>)
    ensures
        match *site {
            BakeryCommands::AddSite {
                site_hash,
                download_bandwidth_min,
                upload_bandwidth_min,
                download_bandwidth_max,
                upload_bandwidth_max,
                ..
            } => r == Some(
                BakeryCommands::AddSite {
                    site_hash,
                    parent_class_id,
                    up_parent_class_id,
                    class_minor,
                    download_bandwidth_min,
                    upload_bandwidth_min,
                    download_bandwidth_max,
                    upload_bandwidth_max,
                },
            ),
            _ => r is None,
        },
{
    match site {
        BakeryCommands::AddSite {
            site_hash,
            download_bandwidth_min,
            upload_bandwidth_min,
            download_bandwidth_max,
            upload_bandwidth_max,
            ..
        } => Some(
            BakeryCommands::AddSite {
                site_hash: *site_hash,
                parent_class_id,
                up_parent_class_id,
                class_minor,
                download_bandwidth_min: *download_bandwidth_min,
                upload_bandwidth_min: *upload_bandwidth_min,
                download_bandwidth_max: *download_bandwidth_max,
                upload_bandwidth_max: *upload_bandwidth_max,
            },
        ),
        _ => None,
    }
}

/// A circuit command moved beneath new parents; its explicit leaf qdisc
/// handles are dropped so that fresh ones are assigned.
pub fn reparent_circuit_command(
    circuit: &BakeryCommands,
    parent_class_id: TcHandle,
    up_parent_class_id: TcHandle,
) -> (r: Option<BakeryCommands>)
    ensures
        match *circuit {
            BakeryCommands::AddCircuit {
                circuit_hash,
                circuit_name,
                site_name,
                class_minor,
                download_bandwidth_min,
                upload_bandwidth_min,
                download_bandwidth_max,
                upload_bandwidth_max,
                class_major,
                up_class_major,
                ip_addresses,
                sqm_override,
                ..
            } => r == Some(
                BakeryCommands::AddCircuit {
                    circuit_hash,
                    circuit_name,
                    site_name,
                    parent_class_id,
                    up_parent_class_id,
                    class_minor,
                    download_bandwidth_min,
                    upload_bandwidth_min,
                    download_bandwidth_max,
                    upload_bandwidth_max,
                    class_major,
                    up_class_major,
                    down_qdisc_handle: None,
                    up_qdisc_handle: None,
                    ip_addresses,
                    sqm_override,
                },
            ),
            _ => r is None,
        },
{
    match circuit {
        BakeryCommands::AddCircuit {
            circuit_hash,
            circuit_name,
            site_name,
            class_minor,
            download_bandwidth_min,
            upload_bandwidth_min,
            download_bandwidth_max,
            upload_bandwidth_max,
            class_major,
            up_class_major,
            ip_addresses,
            sqm_override,
            ..
        } => Some(
            BakeryCommands::AddCircuit {
                circuit_hash: *circuit_hash,
                circuit_name: clone_exact(circuit_name),
                site_name: clone_exact(site_name),
                parent_class_id,
                up_parent_class_id,
                class_minor: *class_minor,
                download_bandwidth_min: *download_bandwidth_min,
                upload_bandwidth_min: *upload_bandwidth_min,
                download_bandwidth_max: *download_bandwidth_max,
                upload_bandwidth_max: *upload_bandwidth_max,
                class_major: *class_major,
                up_class_major: *up_class_major,
                down_qdisc_handle: None,
                up_qdisc_handle: None,
                ip_addresses: ip_addresses.clone(),
                sqm_override: clone_exact(sqm_override),
            },
        ),
        _ => None,
    }
}

/// The hash of a site command.
pub fn site_hash_from_command(site: &BakeryCommands) -> (r: Option<i64>)
    ensures
        r == match *site {
            BakeryCommands::AddSite { site_hash, .. } => Some(site_hash),
            _ => None,
        },
{
    match site {
        BakeryCommands::AddSite { site_hash, .. } => Some(*site_hash),
        _ => None,
    }
}

/// The hash of a circuit command.
pub fn circuit_hash_from_command(circuit: &BakeryCommands) -> (r: Option<i64>)
    ensures
        r == match *circuit {
            BakeryCommands::AddCircuit { circuit_hash, .. } => Some(circuit_hash),
            _ => None,
        },
{
    match circuit {
        BakeryCommands::AddCircuit { circuit_hash, .. } => Some(*circuit_hash),
        _ => None,
    }
}

/// The queue (downlink major) a site's class lives in.
pub fn current_site_queue(site: &BakeryCommands) -> (r: Option<u32>)
    ensures
        r == match *site {
            BakeryCommands::AddSite { parent_class_id, .. } => Some(parent_class_id.major() as u32),
            _ => None,
        },
{
    match site {
        BakeryCommands::AddSite { parent_class_id, class_minor, .. } => {
            let (major, _) = parent_class_id.get_major_minor();
            let class_handle = TcHandle::from_major_minor(major, *class_minor);
            Some(class_handle.get_major_minor().0 as u32)
        },
        _ => None,
    }
}

/// The queue (downlink class major) a circuit lives in.
pub fn current_circuit_queue(circuit: &BakeryCommands) -> (r: Option<u32>)
    ensures
        r == match *circuit {
            BakeryCommands::AddCircuit { class_major, .. } => Some(class_major as u32),
            _ => None,
        },
{
    match circuit {
        BakeryCommands::AddCircuit { class_major, .. } => Some(*class_major as u32),
        _ => None,
    }
}

/// The down/up class handles of a circuit command.
pub open spec fn circuit_handles_of(circuit: BakeryCommands) -> Option<(TcHandle, TcHandle)> {
    match circuit {
        BakeryCommands::AddCircuit { class_minor, class_major, up_class_major, .. } => Some(
            (
                TcHandle(handle_value(class_major, class_minor)),
                TcHandle(handle_value(up_class_major, class_minor)),
            ),
        ),
        _ => None,
    }
}

/// The down/up class handles of a circuit command.
pub fn circuit_class_handles(circuit: &BakeryCommands) -> (r: Option<(TcHandle, TcHandle)>)
    ensures
        r == circuit_handles_of(*circuit),
{
    match circuit {
        BakeryCommands::AddCircuit { class_minor, class_major, up_class_major, .. } => Some(
            (
                TcHandle::from_major_minor(*class_major, *class_minor),
                TcHandle::from_major_minor(*up_class_major, *class_minor),
            ),
        ),
        _ => None,
    }
}

/// A circuit attached beneath the given down/up parents.
pub open spec fn circuit_under(circuit: BakeryCommands, down: TcHandle, up: TcHandle) -> bool {
    match circuit {
        BakeryCommands::AddCircuit { parent_class_id, up_parent_class_id, .. } => parent_class_id
            == down && up_parent_class_id == up,
        _ => false,
    }
}

/// Hashes of the circuits attached directly beneath the given parents, in
/// increasing order.
pub fn collect_direct_circuit_hashes(
    circuits: &HashMap<i64, BakeryCommands>,
    target_down: TcHandle,
    target_up: TcHandle,
) -> (r: Vec<i64>)
    ensures
        sorted_listing(
            r@,
            circuits@.dom().filter(|k: i64| circuit_under(circuits@[k], target_down, target_up)),
        ),
{
    let keys = map_keys(circuits);
    let ghost m = circuits@;
    let ghost q = |k: i64| circuit_under(m[k], target_down, target_up);
    let mut out: Vec<i64> = Vec::new();
    let mut i: usize = 0;
    while i < keys.len()
        invariant
            m == circuits@,
            q == (|k: i64| circuit_under(m[k], target_down, target_up)),
            i <= keys@.len(),
            keys@.no_duplicates(),
            keys@.to_set() == m.dom(),
            strictly_sorted(out@),
            out@.to_set() == keys@.take(i as int).to_set().filter(q),
        decreases keys@.len() - i,
    {
        let k = keys[i];
        proof {
            assert(keys@.to_set().contains(k)) by {
                assert(keys@.contains(k));
            }
            assert(keys@.take(i + 1) =~= keys@.take(i as int).push(k));
            assert forall|x: i64| #[trigger] keys@.take(i + 1).to_set().contains(x)
                <==> keys@.take(i as int).to_set().insert(k).contains(x) by {
                crate::summary::lemma_push_contains(keys@.take(i as int), k, x);
            }
            assert(!keys@.take(i as int).contains(k)) by {
                if keys@.take(i as int).contains(k) {
                    let j = choose|j: int| 0 <= j < i && #[trigger] keys@.take(i as int)[j] == k;
                    assert(keys@[j] == keys@[i as int]);
                }
            }
        }
        let hit = match circuits.get(&k) {
            Some(c) => {
                assert(*c == m[k]);
                match c {
                    BakeryCommands::AddCircuit { parent_class_id, up_parent_class_id, .. } => *parent_class_id
                        == target_down && *up_parent_class_id == target_up,
                    _ => false,
                }
            },
            None => false,
        };
        if hit {
            proof {
                assert(!out@.contains(k)) by {
                    if out@.contains(k) {
                        assert(out@.to_set().contains(k));
                    }
                }
            }
            sorted_insert(&mut out, k);
        }
        proof {
            if hit {
                assert(keys@.take(i + 1).to_set().filter(q) =~= keys@.take(i as int).to_set().filter(
                    q,
                ).insert(k));
            } else {
                assert(keys@.take(i + 1).to_set().filter(q) =~= keys@.take(i as int).to_set().filter(q));
            }
        }
        i = i + 1;
    }
    assert(keys@.take(keys@.len() as int) =~= keys@);
    out
}

/// Hashes of the top-level sites, in increasing order.
pub fn top_level_site_hashes(sites: &HashMap<i64, BakeryCommands>) -> (r: Vec<i64>)
    ensures
        sorted_listing(r@, sites@.dom().filter(|k: i64| is_top_level_site(sites@[k]))),
{
    let keys = map_keys(sites);
    let ghost m = sites@;
    let ghost q = |k: i64| is_top_level_site(m[k]);
    let mut out: Vec<i64> = Vec::new();
    let mut i: usize = 0;
    while i < keys.len()
        invariant
            m == sites@,
            q == (|k: i64| is_top_level_site(m[k])),
            i <= keys@.len(),
            keys@.no_duplicates(),
            keys@.to_set() == m.dom(),
            strictly_sorted(out@),
            out@.to_set() == keys@.take(i as int).to_set().filter(q),
        decreases keys@.len() - i,
    {
        let k = keys[i];
        proof {
            assert(keys@.to_set().contains(k)) by {
                assert(keys@.contains(k));
            }
            assert(keys@.take(i + 1) =~= keys@.take(i as int).push(k));
            assert forall|x: i64| #[trigger] keys@.take(i + 1).to_set().contains(x)
                <==> keys@.take(i as int).to_set().insert(k).contains(x) by {
                crate::summary::lemma_push_contains(keys@.take(i as int), k, x);
            }
            assert(!keys@.take(i as int).contains(k)) by {
                if keys@.take(i as int).contains(k) {
                    let j = choose|j: int| 0 <= j < i && #[trigger] keys@.take(i as int)[j] == k;
                    assert(keys@[j] == keys@[i as int]);
                }
            }
        }
        let hit = match sites.get(&k) {
            Some(s) => {
                assert(*s == m[k]);
                site_is_top_level(s)
            },
            None => false,
        };
        if hit {
            proof {
                assert(!out@.contains(k)) by {
                    if out@.contains(k) {
                        assert(out@.to_set().contains(k));
                    }
                }
            }
            sorted_insert(&mut out, k);
        }
        proof {
            if hit {
                assert(keys@.take(i + 1).to_set().filter(q) =~= keys@.take(i as int).to_set().filter(
                    q,
                ).insert(k));
            } else {
                assert(keys@.take(i + 1).to_set().filter(q) =~= keys@.take(i as int).to_set().filter(q));
            }
        }
        i = i + 1;
    }
    assert(keys@.take(keys@.len() as int) =~= keys@);
    out
}

/// The root class handle of a queue: `<queue>:0`.
pub fn root_handle_for_queue(queue: u32) -> (r: TcHandle)
    requires
        queue < 0x10000,
    ensures
        r.0 == queue * 0x10000,
{
    TcHandle::from_u32(queue * 0x10000)
}

/// How far the uplink major sits above the downlink major (never negative).
pub fn site_stick_offset(site: &BakeryCommands) -> (r: u16)
    ensures
        r == match *site {
            BakeryCommands::AddSite { parent_class_id, up_parent_class_id, .. } => if up_parent_class_id.major()
                >= parent_class_id.major() {
                (up_parent_class_id.major() - parent_class_id.major()) as u16
            } else {
                0u16
            },
            _ => 0u16,
        },
{
    match site {
        BakeryCommands::AddSite { parent_class_id, up_parent_class_id, .. } => {
            let (down_major, _) = parent_class_id.get_major_minor();
            let (up_major, _) = up_parent_class_id.get_major_minor();
            up_major.saturating_sub(down_major)
        },
        _ => 0,
    }
}

/// `CpueQueue<queue - 1>` (queue 0 also names `CpueQueue0`).
pub open spec fn bin_name(queue: u32) -> Seq<char> {
    "CpueQueue"@ + dec_seq(if queue > 0 {
        (queue - 1) as nat
    } else {
        0nat
    })
}

/// The planner's bin name for a queue.
pub fn top_level_bin_name(queue: u32) -> (r: String)
    ensures
        r@ == bin_name(queue),
{
    let mut s = owned("CpueQueue");
    let n = dec_string(queue.saturating_sub(1) as u64);
    append_str(&mut s, n.as_str());
    s
}

/// `site:<hash>`
pub fn planner_site_key(site_hash: i64) -> (r: String)
    ensures
        r@ == "site:"@ + dec_int(site_hash as int),
{
    let mut s = owned("site:");
    let n = dec_string_i64(site_hash);
    append_str(&mut s, n.as_str());
    s
}

/// `circuit:<hash>`
pub fn planner_circuit_key(circuit_hash: i64) -> (r: String)
    ensures
        r@ == "circuit:"@ + dec_int(circuit_hash as int),
{
    let mut s = owned("circuit:");
    let n = dec_string_i64(circuit_hash);
    append_str(&mut s, n.as_str());
    s
}

/// The queue named by a planner bin: `CpueQueue<n>` names queue `n + 1`.
pub open spec fn queue_of_bin_name(name: Seq<char>) -> Option<u32> {
    if crate::text::seq_starts_with(name, "CpueQueue"@) {
        match crate::text::parse_u32_seq(name.skip(9)) {
            Some(cpu) => Some((cpu + 1) as u32),
            None => None,
        }
    } else {
        None
    }
}

/// The queue named by a planner bin name, if it is one.
pub fn queue_from_bin_name(name: &str) -> (r: Option<u32>)
    requires
        crate::text::seq_starts_with(name@, "CpueQueue"@) ==> crate::text::parse_u32_seq(name@.skip(9))
            != Some(u32::MAX),
    ensures
        r == queue_of_bin_name(name@),
{
    proof {
        reveal_strlit("CpueQueue");
    }
    if !crate::text::str_starts_with(name, "CpueQueue") {
        return None;
    }
    let chars = crate::text::chars_of(name);
    let rest = crate::text::slice_chars(&chars, 9, chars.len());
    assert(rest@ =~= name@.skip(9));
    match crate::text::parse_u32(&rest) {
        Some(cpu) => Some(cpu + 1),
        None => None,
    }
}

/// `parent=<down parent> up_parent=<up parent> minor=0x<minor>` for a site.
pub open spec fn site_structure_text(site: BakeryCommands) -> Option<Seq<char>> {
    match site {
        BakeryCommands::AddSite { parent_class_id, up_parent_class_id, class_minor, .. } => Some(
            "parent="@ + crate::tc_handle::tc_seq(parent_class_id.0) + " up_parent="@
                + crate::tc_handle::tc_seq(up_parent_class_id.0) + " minor=0x"@ + hex_seq(
                class_minor as nat,
            ),
        ),
        _ => None,
    }
}

/// A site command's place in the tree, for structural-diff logs; `None` for
/// any other command.
pub fn site_command_structure_summary(command: &BakeryCommands) -> (r: Option<String>)
    ensures
        opt_view(r) == site_structure_text(*command),
{
    match command {
        BakeryCommands::AddSite { parent_class_id, up_parent_class_id, class_minor, .. } => {
            let mut s = owned("parent=");
            append_str(&mut s, parent_class_id.as_tc_string().as_str());
            append_str(&mut s, " up_parent=");
            append_str(&mut s, up_parent_class_id.as_tc_string().as_str());
            append_str(&mut s, " minor=0x");
            append_str(&mut s, hex_string(*class_minor as u64).as_str());
            Some(s)
        },
        _ => None,
    }
}

/// The command is `AddSite` for the given site.
pub open spec fn is_site_command_for(c: BakeryCommands, site_hash: i64) -> bool {
    c matches BakeryCommands::AddSite { site_hash: h, .. } && h == site_hash
}

/// The first `AddSite` command for the site in a batch, if any.
pub fn find_site_command_in_batch(batch: &Vec<BakeryCommands>, site_hash: i64) -> (r: Option<
    &BakeryCommands,
>)
    ensures
        match r {
            Some(c) => exists|i: int|
                0 <= i < batch@.len() && batch@[i] == *c && is_site_command_for(*c, site_hash)
                    && forall|j: int| 0 <= j < i ==> !is_site_command_for(#[trigger] batch@[j], site_hash),
            None => forall|j: int| 0 <= j < batch@.len() ==> !is_site_command_for(#[trigger] batch@[j], site_hash),
        },
{
    let mut i: usize = 0;
    while i < batch.len()
        invariant
            i <= batch@.len(),
            forall|j: int| 0 <= j < i ==> !is_site_command_for(#[trigger] batch@[j], site_hash),
        decreases batch@.len() - i,
    {
        let found = match &batch[i] {
            BakeryCommands::AddSite { site_hash: h, .. } => *h == site_hash,
            _ => false,
        };
        if found {
            return Some(&batch[i]);
        }
        i = i + 1;
    }
    None
}

} // verus!
