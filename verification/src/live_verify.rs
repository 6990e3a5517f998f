//! Checks that planned classes are live under the expected parents after a
//! runtime change.
use vstd::prelude::*;
use std::collections::HashMap;
use crate::commands::BakeryCommands;
use crate::handle_invariants::{debug_opt_handle, debug_opt_handle_string};
use crate::live_tc::LiveTcClassEntry;
use crate::maps::map_keys;
use crate::migration::PlannedSiteUpdate;
use crate::config::BakeryConfig;
use crate::prune::{live_parent_matches, parent_matches};
use crate::runtime::VirtualizedSiteState;
use crate::site_tree::{circuit_class_handles, site_class_handles, site_handles_of};
use crate::tc_handle::{handle_value, tc_seq, TcHandle};
use crate::text::{append_str, dec_int, dec_string_i64, hex_seq, hex_string, owned};

verus! {

broadcast use vstd::std_specs::hash::group_hash_axioms;

/// `<prefix><hash><suffix>`
pub open spec fn hash_message(prefix: Seq<char>, hash: i64, suffix: Seq<char>) -> Seq<char> {
    prefix + dec_int(hash as int) + suffix
}

/// Builds `<prefix><hash><suffix>`.
fn hash_message_string(prefix: &str, hash: i64, suffix: &str) -> (r: String)
    ensures
        r@ == hash_message(prefix@, hash, suffix@),
{
    let mut s = owned(prefix);
    let h = dec_string_i64(hash);
    append_str(&mut s, h.as_str());
    append_str(&mut s, suffix);
    s
}

/// ` with wrong parents <down>/<up>, expected <p>/<q>`
pub open spec fn wrong_parents_text(
    down: Option<TcHandle>,
    up: Option<TcHandle>,
    parent: TcHandle,
    up_parent: TcHandle,
) -> Seq<char> {
    " with wrong parents "@ + debug_opt_handle(down) + "/"@ + debug_opt_handle(up) + ", expected "@
        + tc_seq(parent.0) + "/"@ + tc_seq(up_parent.0)
}

/// Builds the wrong-parents text.
fn wrong_parents_string(down: Option<TcHandle>, up: Option<TcHandle>, parent: TcHandle, up_parent: TcHandle) -> (r:
    String)
    ensures
        r@ == wrong_parents_text(down, up, parent, up_parent),
{
    let mut s = owned(" with wrong parents ");
    let d = debug_opt_handle_string(down);
    append_str(&mut s, d.as_str());
    append_str(&mut s, "/");
    let u = debug_opt_handle_string(up);
    append_str(&mut s, u.as_str());
    append_str(&mut s, ", expected ");
    let p = parent.as_tc_string();
    append_str(&mut s, p.as_str());
    append_str(&mut s, "/");
    let q = up_parent.as_tc_string();
    append_str(&mut s, q.as_str());
    s
}

/// What checking one active class pair finds: nothing wrong, or the message.
pub open spec fn class_pair_check(
    kind: Seq<char>,
    hash: i64,
    down_class: TcHandle,
    up_class: TcHandle,
    parent: TcHandle,
    up_parent: TcHandle,
    down: Map<u32, LiveTcClassEntry>,
    up: Map<u32, LiveTcClassEntry>,
) -> Option<Seq<char>> {
    if !down.contains_key(down_class.0) {
        Some(
            hash_message(
                "Runtime cutover activation verification did not observe active shadow "@ + kind + " "@,
                hash,
                " on downlink"@,
            ),
        )
    } else if !up.contains_key(up_class.0) {
        Some(
            hash_message(
                "Runtime cutover activation verification did not observe active shadow "@ + kind + " "@,
                hash,
                " on uplink"@,
            ),
        )
    } else if !parent_matches(down[down_class.0].parent, parent) || !parent_matches(
        up[up_class.0].parent,
        up_parent,
    ) {
        Some(
            hash_message(
                "Runtime cutover activation verification observed active shadow "@ + kind + " "@,
                hash,
                wrong_parents_text(down[down_class.0].parent, up[up_class.0].parent, parent, up_parent),
            ),
        )
    } else {
        None
    }
}

/// The check of one active shadow site (non-site commands pass).
pub open spec fn active_site_check(
    hash: i64,
    cmd: BakeryCommands,
    down: Map<u32, LiveTcClassEntry>,
    up: Map<u32, LiveTcClassEntry>,
) -> Option<Seq<char>> {
    match cmd {
        BakeryCommands::AddSite { parent_class_id, up_parent_class_id, .. } => {
            let h = site_handles_of(cmd)->0;
            class_pair_check("site"@, hash, h.0, h.1, parent_class_id, up_parent_class_id, down, up)
        },
        _ => None,
    }
}

/// The check of one active shadow circuit (non-circuit commands pass).
pub open spec fn active_circuit_check(
    hash: i64,
    cmd: BakeryCommands,
    down: Map<u32, LiveTcClassEntry>,
    up: Map<u32, LiveTcClassEntry>,
) -> Option<Seq<char>> {
    match cmd {
        BakeryCommands::AddCircuit {
            parent_class_id,
            up_parent_class_id,
            class_major,
            up_class_major,
            class_minor,
            ..
        } => class_pair_check(
            "circuit"@,
            hash,
            TcHandle(handle_value(class_major, class_minor)),
            TcHandle(handle_value(up_class_major, class_minor)),
            parent_class_id,
            up_parent_class_id,
            down,
            up,
        ),
        _ => None,
    }
}

/// Checks one class pair against the snapshots.
fn check_class_pair(
    kind: &str,
    hash: i64,
    down_class: TcHandle,
    up_class: TcHandle,
    parent: TcHandle,
    up_parent: TcHandle,
    down: &HashMap<u32, LiveTcClassEntry>,
    up: &HashMap<u32, LiveTcClassEntry>,
) -> (r: Option<String>)
    ensures
        crate::commands::opt_view(r) == class_pair_check(
            kind@,
            hash,
            down_class,
            up_class,
            parent,
            up_parent,
            down@,
            up@,
        ),
{
    let down_entry = match down.get(&down_class.as_u32()) {
        Some(e) => e,
        None => {
            let mut p = owned("Runtime cutover activation verification did not observe active shadow ");
            append_str(&mut p, kind);
            append_str(&mut p, " ");
            return Some(hash_message_string(p.as_str(), hash, " on downlink"));
        },
    };
    let up_entry = match up.get(&up_class.as_u32()) {
        Some(e) => e,
        None => {
            let mut p = owned("Runtime cutover activation verification did not observe active shadow ");
            append_str(&mut p, kind);
            append_str(&mut p, " ");
            return Some(hash_message_string(p.as_str(), hash, " on uplink"));
        },
    };
    if !live_parent_matches(down_entry.parent, parent) || !live_parent_matches(up_entry.parent, up_parent) {
        let mut p = owned("Runtime cutover activation verification observed active shadow ");
        append_str(&mut p, kind);
        append_str(&mut p, " ");
        let rest = wrong_parents_string(down_entry.parent, up_entry.parent, parent, up_parent);
        return Some(hash_message_string(p.as_str(), hash, rest.as_str()));
    }
    None
}

/// What verifying a virtualized node's active shadow branch concludes: `Ok`
/// when every active site and circuit is live under its expected parents;
/// otherwise the message of a failing site, or (all sites passing) of a failing
/// circuit, whichever the maps yield first.
pub open spec fn shadow_active_outcome(
    state: VirtualizedSiteState,
    down: Map<u32, LiveTcClassEntry>,
    up: Map<u32, LiveTcClassEntry>,
    r: Result<(), Seq<char>>,
) -> bool {
    let sites = state.active_sites@;
    let circuits = state.active_circuits@;
    let sites_ok = forall|k: i64| #[trigger] sites.contains_key(k) ==> active_site_check(k, sites[k], down, up) is None;
    let circuits_ok = forall|k: i64| #[trigger]
        circuits.contains_key(k) ==> active_circuit_check(k, circuits[k], down, up) is None;
    match r {
        Ok(()) => sites_ok && circuits_ok,
        Err(m) => (exists|k: i64| #[trigger]
            sites.contains_key(k) && active_site_check(k, sites[k], down, up) == Some(m)) || (sites_ok
            && exists|k: i64| #[trigger]
            circuits.contains_key(k) && active_circuit_check(k, circuits[k], down, up) == Some(m)),
    }
}

/// View of a unit result with a string error.
pub open spec fn result_view(r: Result<(), String>) -> Result<(), Seq<char>> {
    match r {
        Ok(()) => Ok(()),
        Err(e) => Err(e@),
    }
}

/// Confirms that a virtualized node's active shadow sites and circuits are all
/// live under their expected parents.
pub fn verify_runtime_shadow_active(
    state: &VirtualizedSiteState,
    down_snapshot: &HashMap<u32, LiveTcClassEntry>,
    up_snapshot: &HashMap<u32, LiveTcClassEntry>,
) -> (r: Result<(), String>)
    ensures
        shadow_active_outcome(*state, down_snapshot@, up_snapshot@, result_view(r)),
{
    let ghost sites = state.active_sites@;
    let ghost circuits = state.active_circuits@;
    let site_keys = map_keys(&state.active_sites);
    let mut i: usize = 0;
    while i < site_keys.len()
        invariant
            sites == state.active_sites@,
            i <= site_keys@.len(),
            site_keys@.to_set() == sites.dom(),
            forall|j: int|
                0 <= j < i ==> active_site_check(
                    #[trigger] site_keys@[j],
                    sites[site_keys@[j]],
                    down_snapshot@,
                    up_snapshot@,
                ) is None,
        decreases site_keys@.len() - i,
    {
        let k = site_keys[i];
        assert(site_keys@.to_set().contains(k)) by {
            assert(site_keys@.contains(k));
        }
        match state.active_sites.get(&k) {
            Some(site) => {
                assert(*site == sites[k]);
                match site {
                    BakeryCommands::AddSite { parent_class_id, up_parent_class_id, .. } => {
                        match site_class_handles(site) {
                            Some((down_class, up_class)) => {
                                match check_class_pair(
                                    "site",
                                    k,
                                    down_class,
                                    up_class,
                                    *parent_class_id,
                                    *up_parent_class_id,
                                    down_snapshot,
                                    up_snapshot,
                                ) {
                                    Some(m) => {
                                        return Err(m);
                                    },
                                    None => {},
                                }
                            },
                            None => {},
                        }
                    },
                    _ => {},
                }
            },
            None => {},
        }
        i = i + 1;
    }
    proof {
        assert forall|k: i64| #[trigger] sites.contains_key(k) implies active_site_check(
            k,
            sites[k],
            down_snapshot@,
            up_snapshot@,
        ) is None by {
            assert(site_keys@.to_set().contains(k));
            assert(site_keys@.contains(k));
            let j = choose|j: int| 0 <= j < site_keys@.len() && site_keys@[j] == k;
            assert(active_site_check(site_keys@[j], sites[site_keys@[j]], down_snapshot@, up_snapshot@) is None);
        }
    }
    let circuit_keys = map_keys(&state.active_circuits);
    let mut j: usize = 0;
    while j < circuit_keys.len()
        invariant
            sites == state.active_sites@,
            circuits == state.active_circuits@,
            j <= circuit_keys@.len(),
            circuit_keys@.to_set() == circuits.dom(),
            forall|k: i64| #[trigger] sites.contains_key(k) ==> active_site_check(
                k,
                sites[k],
                down_snapshot@,
                up_snapshot@,
            ) is None,
            forall|x: int|
                0 <= x < j ==> active_circuit_check(
                    #[trigger] circuit_keys@[x],
                    circuits[circuit_keys@[x]],
                    down_snapshot@,
                    up_snapshot@,
                ) is None,
        decreases circuit_keys@.len() - j,
    {
        let k = circuit_keys[j];
        assert(circuit_keys@.to_set().contains(k)) by {
            assert(circuit_keys@.contains(k));
        }
        match state.active_circuits.get(&k) {
            Some(circuit) => {
                assert(*circuit == circuits[k]);
                match circuit {
                    BakeryCommands::AddCircuit { parent_class_id, up_parent_class_id, .. } => {
                        match circuit_class_handles(circuit) {
                            Some((down_class, up_class)) => {
                                match check_class_pair(
                                    "circuit",
                                    k,
                                    down_class,
                                    up_class,
                                    *parent_class_id,
                                    *up_parent_class_id,
                                    down_snapshot,
                                    up_snapshot,
                                ) {
                                    Some(m) => {
                                        return Err(m);
                                    },
                                    None => {},
                                }
                            },
                            None => {},
                        }
                    },
                    _ => {},
                }
            },
            None => {},
        }
        j = j + 1;
    }
    proof {
        assert forall|k: i64| #[trigger] circuits.contains_key(k) implies active_circuit_check(
            k,
            circuits[k],
            down_snapshot@,
            up_snapshot@,
        ) is None by {
            assert(circuit_keys@.to_set().contains(k));
            assert(circuit_keys@.contains(k));
            let x = choose|x: int| 0 <= x < circuit_keys@.len() && circuit_keys@[x] == k;
            assert(active_circuit_check(circuit_keys@[x], circuits[circuit_keys@[x]], down_snapshot@, up_snapshot@) is None);
        }
    }
    Ok(())
}

/// What checking one planned site against the snapshots finds after its
/// shadow was created: nothing wrong, or the message (non-site commands pass).
pub open spec fn site_update_check(
    hash: i64,
    cmd: BakeryCommands,
    down_iface: Seq<char>,
    up_iface: Seq<char>,
    down: Map<u32, LiveTcClassEntry>,
    up: Map<u32, LiveTcClassEntry>,
) -> Option<Seq<char>> {
    match cmd {
        BakeryCommands::AddSite { parent_class_id, up_parent_class_id, class_minor, .. } => {
            let h = site_handles_of(cmd)->0;
            if !down.contains_key(h.0.0) {
                Some(hash_message("Runtime child site "@, hash, " was not observed on "@ + down_iface + " after shadow create"@))
            } else if !up.contains_key(h.1.0) {
                Some(hash_message("Runtime child site "@, hash, " was not observed on "@ + up_iface + " after shadow create"@))
            } else if !parent_matches(down[h.0.0].parent, parent_class_id) || !parent_matches(
                up[h.1.0].parent,
                up_parent_class_id,
            ) {
                Some(
                    hash_message(
                        "Runtime child site "@,
                        hash,
                        " shadow verify failed: expected parents "@ + tc_seq(parent_class_id.0) + "/"@ + tc_seq(
                            up_parent_class_id.0,
                        ) + " for class minor 0x"@ + hex_seq(class_minor as nat) + ", observed parents "@
                            + debug_opt_handle(down[h.0.0].parent) + "/"@ + debug_opt_handle(up[h.1.0].parent),
                    ),
                )
            } else {
                None
            }
        },
        _ => None,
    }
}

/// Checks one planned site against the snapshots.
fn check_site_update(
    config: &BakeryConfig,
    hash: i64,
    cmd: &BakeryCommands,
    down: &HashMap<u32, LiveTcClassEntry>,
    up: &HashMap<u32, LiveTcClassEntry>,
) -> (r: Option<String>)
    ensures
        crate::commands::opt_view(r) == site_update_check(
            hash,
            *cmd,
            config.isp_interface@,
            config.internet_interface@,
            down@,
            up@,
        ),
{
    match cmd {
        BakeryCommands::AddSite { parent_class_id, up_parent_class_id, class_minor, .. } => {
            let (down_class, up_class) = match site_class_handles(cmd) {
                Some(h) => h,
                None => return None,
            };
            let down_entry = match down.get(&down_class.as_u32()) {
                Some(e) => e,
                None => {
                    let mut suffix = owned(" was not observed on ");
                    append_str(&mut suffix, config.isp_interface.as_str());
                    append_str(&mut suffix, " after shadow create");
                    return Some(hash_message_string("Runtime child site ", hash, suffix.as_str()));
                },
            };
            let up_entry = match up.get(&up_class.as_u32()) {
                Some(e) => e,
                None => {
                    let mut suffix = owned(" was not observed on ");
                    append_str(&mut suffix, config.internet_interface.as_str());
                    append_str(&mut suffix, " after shadow create");
                    return Some(hash_message_string("Runtime child site ", hash, suffix.as_str()));
                },
            };
            if !live_parent_matches(down_entry.parent, *parent_class_id) || !live_parent_matches(
                up_entry.parent,
                *up_parent_class_id,
            ) {
                let mut suffix = owned(" shadow verify failed: expected parents ");
                append_str(&mut suffix, parent_class_id.as_tc_string().as_str());
                append_str(&mut suffix, "/");
                append_str(&mut suffix, up_parent_class_id.as_tc_string().as_str());
                append_str(&mut suffix, " for class minor 0x");
                append_str(&mut suffix, hex_string(*class_minor as u64).as_str());
                append_str(&mut suffix, ", observed parents ");
                append_str(&mut suffix, debug_opt_handle_string(down_entry.parent).as_str());
                append_str(&mut suffix, "/");
                append_str(&mut suffix, debug_opt_handle_string(up_entry.parent).as_str());
                return Some(hash_message_string("Runtime child site ", hash, suffix.as_str()));
            }
            None
        },
        _ => None,
    }
}

/// Confirms, after a stage of planned site updates was created, that every
/// planned site's classes are live under their expected parents: `Ok` when
/// all pass, else the message of a failing site (see [`site_update_check`]).
pub fn verify_site_updates_against_snapshots(
    config: &BakeryConfig,
    updates: &HashMap<i64, PlannedSiteUpdate>,
    down_snapshot: &HashMap<u32, LiveTcClassEntry>,
    up_snapshot: &HashMap<u32, LiveTcClassEntry>,
) -> (r: Result<(), String>)
    ensures
        match result_view(r) {
            Ok(()) => forall|k: i64| #[trigger]
                updates@.contains_key(k) ==> site_update_check(
                    k,
                    updates@[k].command,
                    config.isp_interface@,
                    config.internet_interface@,
                    down_snapshot@,
                    up_snapshot@,
                ) is None,
            Err(m) => exists|k: i64| #[trigger]
                updates@.contains_key(k) && site_update_check(
                    k,
                    updates@[k].command,
                    config.isp_interface@,
                    config.internet_interface@,
                    down_snapshot@,
                    up_snapshot@,
                ) == Some(m),
        },
{
    let ghost ups = updates@;
    let keys = map_keys(updates);
    let mut i: usize = 0;
    while i < keys.len()
        invariant
            ups == updates@,
            i <= keys@.len(),
            keys@.to_set() == ups.dom(),
            forall|j: int|
                0 <= j < i ==> site_update_check(
                    #[trigger] keys@[j],
                    ups[keys@[j]].command,
                    config.isp_interface@,
                    config.internet_interface@,
                    down_snapshot@,
                    up_snapshot@,
                ) is None,
        decreases keys@.len() - i,
    {
        let k = keys[i];
        assert(keys@.to_set().contains(k)) by {
            assert(keys@.contains(k));
        }
        match updates.get(&k) {
            Some(update) => {
                match check_site_update(config, k, &update.command, down_snapshot, up_snapshot) {
                    Some(m) => {
                        return Err(m);
                    },
                    None => {},
                }
            },
            None => {},
        }
        i = i + 1;
    }
    proof {
        assert forall|k: i64| #[trigger] ups.contains_key(k) implies site_update_check(
            k,
            ups[k].command,
            config.isp_interface@,
            config.internet_interface@,
            down_snapshot@,
            up_snapshot@,
        ) is None by {
            assert(keys@.to_set().contains(k));
            assert(keys@.contains(k));
            let j = choose|j: int| 0 <= j < keys@.len() && keys@[j] == k;
            assert(site_update_check(
                keys@[j],
                ups[keys@[j]].command,
                config.isp_interface@,
                config.internet_interface@,
                down_snapshot@,
                up_snapshot@,
            ) is None);
        }
    }
    Ok(())
}

} // verus!
