//! Invariants on explicit leaf-qdisc handles: a handle must be rotated when its
//! qdisc moves to a new parent, and must not collide with a handle already live.
use vstd::prelude::*;
use std::collections::HashSet;
use crate::commands::{directional_override, is_none_override, opt_view, override_is_none, parse_directional_sqm_override, BakeryCommands};
use crate::config::BakeryConfig;
use crate::migration::Migration;
use crate::tc_handle::{handle_value, tc_seq, TcHandle};
use crate::text::{append_str, dec_seq, dec_string, owned};

verus! {

broadcast use vstd::std_specs::hash::group_hash_axioms;

/// The class each direction's leaf qdisc hangs from; `None` in observe mode,
/// for a direction whose SQM override is `none`, and for the uplink on a stick.
pub open spec fn qdisc_parents(cmd: BakeryCommands, cfg: BakeryConfig) -> (Option<TcHandle>, Option<TcHandle>) {
    match cmd {
        BakeryCommands::AddCircuit { class_minor, class_major, up_class_major, sqm_override, .. } => {
            if cfg.observe_mode {
                (None, None)
            } else {
                let (d, u) = directional_override(opt_view(sqm_override));
                (
                    if !is_none_override(d) {
                        Some(TcHandle(handle_value(class_major, class_minor)))
                    } else {
                        None
                    },
                    if !cfg.on_a_stick && !is_none_override(u) {
                        Some(TcHandle(handle_value(up_class_major, class_minor)))
                    } else {
                        None
                    },
                )
            }
        },
        _ => (None, None),
    }
}

/// The down/up classes a circuit's leaf qdiscs hang from.
pub fn effective_directional_qdisc_parents(command: &BakeryCommands, config: &BakeryConfig) -> (r: (
    Option<TcHandle>,
    Option<TcHandle>,
))
    ensures
        r == qdisc_parents(*command, *config),
{
    match command {
        BakeryCommands::AddCircuit { class_minor, class_major, up_class_major, sqm_override, .. } => {
            if config.is_observe() {
                return (None, None);
            }
            let (down_override, up_override) = parse_directional_sqm_override(sqm_override);
            let down = if !override_is_none(&down_override) {
                Some(TcHandle::from_major_minor(*class_major, *class_minor))
            } else {
                None
            };
            let up = if !config.on_a_stick_mode() && !override_is_none(&up_override) {
                Some(TcHandle::from_major_minor(*up_class_major, *class_minor))
            } else {
                None
            };
            (down, up)
        },
        _ => (None, None),
    }
}

/// Whether either direction's leaf qdisc parent differs between two commands.
pub fn circuit_qdisc_parent_changed(old_cmd: &BakeryCommands, new_cmd: &BakeryCommands, config: &BakeryConfig) -> (r:
    bool)
    ensures
        r == (qdisc_parents(*old_cmd, *config) != qdisc_parents(*new_cmd, *config)),
{
    let (old_down, old_up) = effective_directional_qdisc_parents(old_cmd, config);
    let (new_down, new_up) = effective_directional_qdisc_parents(new_cmd, config);
    old_down != new_down || old_up != new_up
}

/// `Some(<n>)` or `None`, as `{:?}` renders an optional number.
pub open spec fn debug_opt_u16(o: Option<u16>) -> Seq<char> {
    match o {
        Some(n) => "Some("@ + dec_seq(n as nat) + ")"@,
        None => "None"@,
    }
}

/// Renders an optional number as `{:?}` does.
pub fn debug_opt_u16_string(o: Option<u16>) -> (r: String)
    ensures
        r@ == debug_opt_u16(o),
{
    match o {
        Some(n) => {
            let mut s = owned("Some(");
            let d = dec_string(n as u64);
            append_str(&mut s, d.as_str());
            append_str(&mut s, ")");
            s
        },
        None => owned("None"),
    }
}

/// `Some(TcHandle(<n>))` or `None`, as `{:?}` renders an optional handle.
pub open spec fn debug_opt_handle(o: Option<TcHandle>) -> Seq<char> {
    match o {
        Some(h) => "Some(TcHandle("@ + dec_seq(h.0 as nat) + "))"@,
        None => "None"@,
    }
}

/// Renders an optional handle as `{:?}` does.
pub fn debug_opt_handle_string(o: Option<TcHandle>) -> (r: String)
    ensures
        r@ == debug_opt_handle(o),
{
    match o {
        Some(h) => {
            let mut s = owned("Some(TcHandle(");
            let d = dec_string(h.0 as u64);
            append_str(&mut s, d.as_str());
            append_str(&mut s, "))");
            s
        },
        None => owned("None"),
    }
}

/// Why a migration's final leaf qdisc handles break the rotation rule, if they
/// do: a direction whose parent class changes still carries its old handle.
pub open spec fn migration_rotation_error(m: Migration) -> Option<Seq<char>> {
    let old_down = TcHandle(handle_value(m.old_class_major, m.old_minor));
    let new_down = TcHandle(handle_value(m.class_major, m.final_minor));
    let old_up = TcHandle(handle_value(m.old_up_class_major, m.old_minor));
    let new_up = TcHandle(handle_value(m.up_class_major, m.final_minor));
    if old_down != new_down && m.old_down_qdisc_handle is Some && m.old_down_qdisc_handle == m.down_qdisc_handle {
        Some(
            "downlink"@ + " qdisc handle "@ + debug_opt_u16(m.down_qdisc_handle)
                + " is still the old handle while the final parent changed from "@ + tc_seq(old_down.0)
                + " to "@ + tc_seq(new_down.0),
        )
    } else if old_up != new_up && m.old_up_qdisc_handle is Some && m.old_up_qdisc_handle == m.up_qdisc_handle {
        Some(
            "uplink"@ + " qdisc handle "@ + debug_opt_u16(m.up_qdisc_handle)
                + " is still the old handle while the final parent changed from "@ + tc_seq(old_up.0)
                + " to "@ + tc_seq(new_up.0),
        )
    } else {
        None
    }
}

/// Builds `<dir> qdisc handle <h> is still the old handle while the final parent changed from <a> to <b>`.
fn stale_handle_message(direction: &str, handle: Option<u16>, old_parent: TcHandle, new_parent: TcHandle) -> (r:
    String)
    ensures
        r@ == direction@ + " qdisc handle "@ + debug_opt_u16(handle)
            + " is still the old handle while the final parent changed from "@ + tc_seq(old_parent.0)
            + " to "@ + tc_seq(new_parent.0),
{
    let mut s = owned(direction);
    append_str(&mut s, " qdisc handle ");
    let h = debug_opt_u16_string(handle);
    append_str(&mut s, h.as_str());
    append_str(&mut s, " is still the old handle while the final parent changed from ");
    let a = old_parent.as_tc_string();
    append_str(&mut s, a.as_str());
    append_str(&mut s, " to ");
    let b = new_parent.as_tc_string();
    append_str(&mut s, b.as_str());
    s
}

/// Why a migration's final leaf qdisc handles break the rotation rule, if they do.
pub fn migration_qdisc_handle_rotation_invariant_error(mig: &Migration) -> (r: Option<String>)
    ensures
        opt_view(r) == migration_rotation_error(*mig),
{
    let old_down = TcHandle::from_major_minor(mig.old_class_major, mig.old_minor);
    let new_down = TcHandle::from_major_minor(mig.class_major, mig.final_minor);
    if old_down != new_down && mig.old_down_qdisc_handle.is_some() && mig.old_down_qdisc_handle == mig.down_qdisc_handle {
        return Some(stale_handle_message("downlink", mig.down_qdisc_handle, old_down, new_down));
    }
    let old_up = TcHandle::from_major_minor(mig.old_up_class_major, mig.old_minor);
    let new_up = TcHandle::from_major_minor(mig.up_class_major, mig.final_minor);
    if old_up != new_up && mig.old_up_qdisc_handle.is_some() && mig.old_up_qdisc_handle == mig.up_qdisc_handle {
        return Some(stale_handle_message("uplink", mig.up_qdisc_handle, old_up, new_up));
    }
    None
}

/// Why a build-final command disagrees with its migration, if it does.
pub open spec fn build_final_error(
    m: Migration,
    final_cmd: BakeryCommands,
    live_down: Option<Set<u16>>,
    live_up: Option<Set<u16>>,
) -> Option<Seq<char>> {
    match final_cmd {
        BakeryCommands::AddCircuit { class_minor, down_qdisc_handle, up_qdisc_handle, .. } => {
            if class_minor != m.final_minor {
                Some(
                    "build-final command used unexpected class minor "@ + dec_seq(class_minor as nat)
                        + " instead of "@ + dec_seq(m.final_minor as nat),
                )
            } else if down_qdisc_handle != m.down_qdisc_handle {
                Some(
                    "build-final command used "@ + "downlink"@ + " qdisc handle "@ + debug_opt_u16(down_qdisc_handle)
                        + ", expected rotated handle "@ + debug_opt_u16(m.down_qdisc_handle),
                )
            } else if up_qdisc_handle != m.up_qdisc_handle {
                Some(
                    "build-final command used "@ + "uplink"@ + " qdisc handle "@ + debug_opt_u16(up_qdisc_handle)
                        + ", expected rotated handle "@ + debug_opt_u16(m.up_qdisc_handle),
                )
            } else if migration_rotation_error(m) is Some {
                migration_rotation_error(m)
            } else if live_down matches Some(l) && down_qdisc_handle matches Some(h) && l.contains(h)
                && Some(h) != m.old_down_qdisc_handle {
                Some(
                    "build-final command used "@ + "downlink"@ + " qdisc handle "@ + dec_seq(down_qdisc_handle->0 as nat)
                        + ", but that handle is already live on the interface under another parent"@,
                )
            } else if live_up matches Some(l) && up_qdisc_handle matches Some(h) && l.contains(h)
                && Some(h) != m.old_up_qdisc_handle {
                Some(
                    "build-final command used "@ + "uplink"@ + " qdisc handle "@ + dec_seq(up_qdisc_handle->0 as nat)
                        + ", but that handle is already live on the interface under another parent"@,
                )
            } else {
                None
            }
        },
        _ => Some("build-final command was not an AddCircuit"@),
    }
}

/// View of an optional handle set.
pub open spec fn opt_set_view(o: Option<&HashSet<u16>>) -> Option<Set<u16>> {
    match o {
        Some(s) => Some(s@),
        None => None,
    }
}

/// Builds `build-final command used <dir> qdisc handle <got>, expected rotated handle <want>`.
fn mismatch_message(direction: &str, got: Option<u16>, want: Option<u16>) -> (r: String)
    ensures
        r@ == "build-final command used "@ + direction@ + " qdisc handle "@ + debug_opt_u16(got)
            + ", expected rotated handle "@ + debug_opt_u16(want),
{
    let mut s = owned("build-final command used ");
    append_str(&mut s, direction);
    append_str(&mut s, " qdisc handle ");
    let g = debug_opt_u16_string(got);
    append_str(&mut s, g.as_str());
    append_str(&mut s, ", expected rotated handle ");
    let w = debug_opt_u16_string(want);
    append_str(&mut s, w.as_str());
    s
}

/// Builds `build-final command used <dir> qdisc handle <h>, but that handle is already live ...`.
fn live_collision_message(direction: &str, handle: u16) -> (r: String)
    ensures
        r@ == "build-final command used "@ + direction@ + " qdisc handle "@ + dec_seq(handle as nat)
            + ", but that handle is already live on the interface under another parent"@,
{
    let mut s = owned("build-final command used ");
    append_str(&mut s, direction);
    append_str(&mut s, " qdisc handle ");
    let h = dec_string(handle as u64);
    append_str(&mut s, h.as_str());
    append_str(&mut s, ", but that handle is already live on the interface under another parent");
    s
}

/// Why a build-final command disagrees with its migration, if it does: a
/// different class minor or leaf handles, a stale handle under a changed
/// parent, or a handle already live elsewhere on the interface.
pub fn build_final_qdisc_handle_rotation_invariant_error_with_live_reservations(
    mig: &Migration,
    final_cmd: &BakeryCommands,
    live_down_reserved_handles: Option<&HashSet<u16>>,
    live_up_reserved_handles: Option<&HashSet<u16>>,
) -> (r: Option<String>)
    ensures
        opt_view(r) == build_final_error(
            *mig,
            *final_cmd,
            opt_set_view(live_down_reserved_handles),
            opt_set_view(live_up_reserved_handles),
        ),
{
    match final_cmd {
        BakeryCommands::AddCircuit { class_minor, down_qdisc_handle, up_qdisc_handle, .. } => {
            if *class_minor != mig.final_minor {
                let mut s = owned("build-final command used unexpected class minor ");
                let a = dec_string(*class_minor as u64);
                append_str(&mut s, a.as_str());
                append_str(&mut s, " instead of ");
                let b = dec_string(mig.final_minor as u64);
                append_str(&mut s, b.as_str());
                return Some(s);
            }
            if *down_qdisc_handle != mig.down_qdisc_handle {
                return Some(mismatch_message("downlink", *down_qdisc_handle, mig.down_qdisc_handle));
            }
            if *up_qdisc_handle != mig.up_qdisc_handle {
                return Some(mismatch_message("uplink", *up_qdisc_handle, mig.up_qdisc_handle));
            }
            match migration_qdisc_handle_rotation_invariant_error(mig) {
                Some(summary) => {
                    return Some(summary);
                },
                None => {},
            }
            match (live_down_reserved_handles, *down_qdisc_handle) {
                (Some(live), Some(h)) => {
                    if live.contains(&h) && Some(h) != mig.old_down_qdisc_handle {
                        return Some(live_collision_message("downlink", h));
                    }
                },
                _ => {},
            }
            match (live_up_reserved_handles, *up_qdisc_handle) {
                (Some(live), Some(h)) => {
                    if live.contains(&h) && Some(h) != mig.old_up_qdisc_handle {
                        return Some(live_collision_message("uplink", h));
                    }
                },
                _ => {},
            }
            None
        },
        _ => Some(owned("build-final command was not an AddCircuit")),
    }
}

/// The rotation check without live reservations.
pub fn build_final_qdisc_handle_rotation_invariant_error(mig: &Migration, final_cmd: &BakeryCommands) -> (r:
    Option<String>)
    ensures
        opt_view(r) == build_final_error(*mig, *final_cmd, None, None),
{
    build_final_qdisc_handle_rotation_invariant_error_with_live_reservations(mig, final_cmd, None, None)
}

/// Why a circuit's new leaf qdisc handles break the rotation rule, if they do:
/// a handle kept while its qdisc's parent changes, or a new handle already live
/// on the interface (`live_down`/`live_up`: the handles live on the downlink and
/// uplink interfaces, when known).
pub open spec fn rotation_error(
    old: BakeryCommands,
    new: BakeryCommands,
    cfg: BakeryConfig,
    live_down: Option<Set<u16>>,
    live_up: Option<Set<u16>>,
) -> Option<Seq<char>> {
    let (od, ou) = qdisc_parents(old, cfg);
    let (nd, nu) = qdisc_parents(new, cfg);
    match (old, new) {
        (
            BakeryCommands::AddCircuit { down_qdisc_handle: old_d, up_qdisc_handle: old_u, .. },
            BakeryCommands::AddCircuit { down_qdisc_handle: new_d, up_qdisc_handle: new_u, .. },
        ) => {
            if od != nd && old_d is Some && old_d == new_d {
                Some(
                    "downlink"@ + " qdisc handle "@ + debug_opt_u16(old_d)
                        + " was preserved even though the qdisc parent changed from "@ + debug_opt_handle(od)
                        + " to "@ + debug_opt_handle(nd),
                )
            } else if ou != nu && old_u is Some && old_u == new_u {
                Some(
                    "uplink"@ + " qdisc handle "@ + debug_opt_u16(old_u)
                        + " was preserved even though the qdisc parent changed from "@ + debug_opt_handle(ou)
                        + " to "@ + debug_opt_handle(nu),
                )
            } else if live_down matches Some(l) && new_d matches Some(h) && l.contains(h) && Some(h) != old_d {
                Some(
                    "downlink"@ + " qdisc handle "@ + dec_seq(new_d->0 as nat) + " is already live on "@
                        + cfg.isp_interface@ + " and cannot be reused for a different circuit/parent"@,
                )
            } else if live_up matches Some(l) && new_u matches Some(h) && l.contains(h) && Some(h) != old_u {
                Some(
                    "uplink"@ + " qdisc handle "@ + dec_seq(new_u->0 as nat) + " is already live on "@
                        + cfg.internet_interface@ + " and cannot be reused for a different circuit/parent"@,
                )
            } else {
                None
            }
        },
        _ => None,
    }
}

/// Builds `<dir> qdisc handle <h> was preserved even though the qdisc parent changed from <a> to <b>`.
fn preserved_message(direction: &str, handle: Option<u16>, from: Option<TcHandle>, to: Option<TcHandle>) -> (r:
    String)
    ensures
        r@ == direction@ + " qdisc handle "@ + debug_opt_u16(handle)
            + " was preserved even though the qdisc parent changed from "@ + debug_opt_handle(from) + " to "@
            + debug_opt_handle(to),
{
    let mut s = owned(direction);
    append_str(&mut s, " qdisc handle ");
    let h = debug_opt_u16_string(handle);
    append_str(&mut s, h.as_str());
    append_str(&mut s, " was preserved even though the qdisc parent changed from ");
    let a = debug_opt_handle_string(from);
    append_str(&mut s, a.as_str());
    append_str(&mut s, " to ");
    let b = debug_opt_handle_string(to);
    append_str(&mut s, b.as_str());
    s
}

/// Builds `<dir> qdisc handle <h> is already live on <iface> and cannot be reused ...`.
fn reused_message(direction: &str, handle: u16, iface: &str) -> (r: String)
    ensures
        r@ == direction@ + " qdisc handle "@ + dec_seq(handle as nat) + " is already live on "@ + iface@
            + " and cannot be reused for a different circuit/parent"@,
{
    let mut s = owned(direction);
    append_str(&mut s, " qdisc handle ");
    let h = dec_string(handle as u64);
    append_str(&mut s, h.as_str());
    append_str(&mut s, " is already live on ");
    append_str(&mut s, iface);
    append_str(&mut s, " and cannot be reused for a different circuit/parent");
    s
}

/// Why a circuit's new leaf qdisc handles break the rotation rule, if they do.
pub fn qdisc_handle_rotation_invariant_error_with_live_reservations(
    old_cmd: &BakeryCommands,
    new_cmd: &BakeryCommands,
    config: &BakeryConfig,
    live_down_reserved: Option<&HashSet<u16>>,
    live_up_reserved: Option<&HashSet<u16>>,
) -> (r: Option<String>)
    ensures
        opt_view(r) == rotation_error(
            *old_cmd,
            *new_cmd,
            *config,
            opt_set_view(live_down_reserved),
            opt_set_view(live_up_reserved),
        ),
{
    let (old_down, old_up) = effective_directional_qdisc_parents(old_cmd, config);
    let (new_down, new_up) = effective_directional_qdisc_parents(new_cmd, config);
    match (old_cmd, new_cmd) {
        (
            BakeryCommands::AddCircuit { down_qdisc_handle: old_d, up_qdisc_handle: old_u, .. },
            BakeryCommands::AddCircuit { down_qdisc_handle: new_d, up_qdisc_handle: new_u, .. },
        ) => {
            if old_down != new_down && old_d.is_some() && *old_d == *new_d {
                return Some(preserved_message("downlink", *old_d, old_down, new_down));
            }
            if old_up != new_up && old_u.is_some() && *old_u == *new_u {
                return Some(preserved_message("uplink", *old_u, old_up, new_up));
            }
            match (live_down_reserved, *new_d) {
                (Some(live), Some(h)) => {
                    if live.contains(&h) && Some(h) != *old_d {
                        return Some(reused_message("downlink", h, config.isp_interface.as_str()));
                    }
                },
                _ => {},
            }
            match (live_up_reserved, *new_u) {
                (Some(live), Some(h)) => {
                    if live.contains(&h) && Some(h) != *old_u {
                        return Some(reused_message("uplink", h, config.internet_interface.as_str()));
                    }
                },
                _ => {},
            }
            None
        },
        _ => None,
    }
}

} // verus!
