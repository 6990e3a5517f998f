//! Pruning against observed `tc` state: deletions limited to classes that are
//! actually live, and the checks that gate cleanup of a runtime branch.
use vstd::prelude::*;
use std::collections::HashMap;
use std::collections::HashSet;
use crate::commands::{
    class_del, class_del_argv, directional_override, is_none_override, opt_cmds_view, opt_view,
    override_is_none, parse_directional_sqm_override, to_prune_spec, BakeryCommands,
};
use crate::config::BakeryConfig;
use crate::live_tc::LiveTcClassEntry;
use crate::maps::{lemma_seq_exists_to_set, map_keys};
use vstd::std_specs::hash::spec_values_iter;
use vstd::std_specs::iter::IteratorSpec;
use crate::migration::Migration;
use crate::runtime::VirtualizedSiteState;
use crate::site_tree::{site_class_handles, site_handles_of};
use crate::tc_handle::{class_id_seq, class_id_string, handle_value, tc_seq, TcHandle};
use crate::text::{append_str, join_seqs, join_strings, owned, string_seqs};

verus! {

broadcast use vstd::std_specs::hash::group_hash_axioms;

/// `qdisc del dev <dev> parent 0x<major>:0x<minor>`
pub open spec fn qdisc_del_class_argv(dev: Seq<char>, major: u16, minor: u16) -> Seq<Seq<char>> {
    seq!["qdisc"@, "del"@, "dev"@, dev, "parent"@, class_id_seq(major, minor)]
}

/// Deletions for one direction of a circuit that is live: its leaf qdisc when
/// one is attached and SQM applies, then its class.
pub open spec fn observed_direction_argvs(
    dev: Seq<char>,
    parent: TcHandle,
    major: u16,
    minor: u16,
    entry: LiveTcClassEntry,
    prune_qdisc: bool,
) -> Seq<Seq<Seq<char>>> {
    let class = seq![class_del_argv(dev, parent, minor)];
    if prune_qdisc && entry.leaf_qdisc_major is Some {
        seq![qdisc_del_class_argv(dev, major, minor)] + class
    } else {
        class
    }
}

/// Whether a direction's class is live and not protected.
pub open spec fn direction_prunable(
    snapshot: Option<Map<u32, LiveTcClassEntry>>,
    protected: Set<u32>,
    class: u32,
) -> bool {
    !protected.contains(class) && (snapshot matches Some(s) && s.contains_key(class))
}

/// The deletions that prune an old circuit, limited to its classes that are live.
pub open spec fn observed_prune_argvs(
    cfg: BakeryConfig,
    old: BakeryCommands,
    down: Option<Map<u32, LiveTcClassEntry>>,
    up: Option<Map<u32, LiveTcClassEntry>>,
    protected_down: Set<u32>,
    protected_up: Set<u32>,
) -> Option<Seq<Seq<Seq<char>>>> {
    match old {
        BakeryCommands::AddCircuit {
            parent_class_id,
            up_parent_class_id,
            class_minor,
            class_major,
            up_class_major,
            sqm_override,
            ..
        } => {
            let down_class = handle_value(class_major, class_minor);
            let up_class = handle_value(up_class_major, class_minor);
            let (d, u) = directional_override(opt_view(sqm_override));
            let up_part = if direction_prunable(up, protected_up, up_class) {
                observed_direction_argvs(
                    cfg.internet_interface@,
                    up_parent_class_id,
                    up_class_major,
                    class_minor,
                    up->0[up_class],
                    !is_none_override(u) && !cfg.on_a_stick,
                )
            } else {
                Seq::empty()
            };
            let down_part = if direction_prunable(down, protected_down, down_class) {
                observed_direction_argvs(
                    cfg.isp_interface@,
                    parent_class_id,
                    class_major,
                    class_minor,
                    down->0[down_class],
                    !is_none_override(d),
                )
            } else {
                Seq::empty()
            };
            Some(up_part + down_part)
        },
        _ => to_prune_spec(old, cfg, true),
    }
}

/// View of an optional class snapshot.
pub open spec fn opt_snapshot_view(s: Option<&HashMap<u32, LiveTcClassEntry>>) -> Option<
    Map<u32, LiveTcClassEntry>,
> {
    match s {
        Some(m) => Some(m@),
        None => None,
    }
}

/// Deletions for one live direction of a circuit.
fn observed_direction_commands(
    dev: &String,
    parent: TcHandle,
    major: u16,
    minor: u16,
    entry: &LiveTcClassEntry,
    prune_qdisc: bool,
) -> (r: Vec<Vec<String>>)
    ensures
        r.deep_view() == observed_direction_argvs(dev@, parent, major, minor, *entry, prune_qdisc),
{
    let mut out: Vec<Vec<String>> = Vec::new();
    if prune_qdisc && entry.leaf_qdisc_major.is_some() {
        let v = vec![
            owned("qdisc"),
            owned("del"),
            owned("dev"),
            owned(dev.as_str()),
            owned("parent"),
            class_id_string(major, minor),
        ];
        assert(v.deep_view() =~= qdisc_del_class_argv(dev@, major, minor));
        out.push(v);
    }
    out.push(class_del(dev, parent, minor));
    assert(out.deep_view() =~= observed_direction_argvs(dev@, parent, major, minor, *entry, prune_qdisc));
    out
}

/// Deletions that prune an old circuit, limited to the classes observed live
/// and not protected (held by the batch's targets): uplink first, each with
/// its leaf qdisc when one is attached and SQM applies in that direction.
/// Non-circuit commands are handled as a forced prune would.
pub fn observed_circuit_prune_commands(
    config: &BakeryConfig,
    old_cmd: &BakeryCommands,
    down_snapshot: Option<&HashMap<u32, LiveTcClassEntry>>,
    up_snapshot: Option<&HashMap<u32, LiveTcClassEntry>>,
    protected_down_classes: &HashSet<u32>,
    protected_up_classes: &HashSet<u32>,
) -> (r: Option<Vec<Vec<String>>>)
    ensures
        opt_cmds_view(r) == observed_prune_argvs(
            *config,
            *old_cmd,
            opt_snapshot_view(down_snapshot),
            opt_snapshot_view(up_snapshot),
            protected_down_classes@,
            protected_up_classes@,
        ),
{
    match old_cmd {
        BakeryCommands::AddCircuit {
            parent_class_id,
            up_parent_class_id,
            class_minor,
            class_major,
            up_class_major,
            sqm_override,
            ..
        } => {
            let down_class = TcHandle::from_major_minor(*class_major, *class_minor).as_u32();
            let up_class = TcHandle::from_major_minor(*up_class_major, *class_minor).as_u32();
            let (down_override, up_override) = parse_directional_sqm_override(sqm_override);
            let prune_down_qdisc = !override_is_none(&down_override);
            let prune_up_qdisc = !override_is_none(&up_override);
            let mut result: Vec<Vec<String>> = Vec::new();
            if !protected_up_classes.contains(&up_class) {
                match up_snapshot {
                    Some(snapshot) => match snapshot.get(&up_class) {
                        Some(entry) => {
                            let internet = config.internet_interface();
                            let mut part = observed_direction_commands(
                                &internet,
                                *up_parent_class_id,
                                *up_class_major,
                                *class_minor,
                                entry,
                                prune_up_qdisc && !config.on_a_stick_mode(),
                            );
                            result.append(&mut part);
                        },
                        None => {},
                    },
                    None => {},
                }
            }
            let ghost up_part = result.deep_view();
            if !protected_down_classes.contains(&down_class) {
                match down_snapshot {
                    Some(snapshot) => match snapshot.get(&down_class) {
                        Some(entry) => {
                            let isp = config.isp_interface();
                            let mut part = observed_direction_commands(
                                &isp,
                                *parent_class_id,
                                *class_major,
                                *class_minor,
                                entry,
                                prune_down_qdisc,
                            );
                            let ghost p = part.deep_view();
                            result.append(&mut part);
                            assert(result.deep_view() =~= up_part + p);
                        },
                        None => {},
                    },
                    None => {},
                }
            }
            proof {
                let spec = observed_prune_argvs(
                    *config,
                    *old_cmd,
                    opt_snapshot_view(down_snapshot),
                    opt_snapshot_view(up_snapshot),
                    protected_down_classes@,
                    protected_up_classes@,
                );
                assert(result.deep_view() =~= spec->0);
            }
            Some(result)
        },
        _ => old_cmd.to_prune(config, true),
    }
}

/// Class deletions for the directions of a site whose class is live.
pub open spec fn observed_site_class_argvs(
    cfg: BakeryConfig,
    site: BakeryCommands,
    down_exists: bool,
    up_exists: bool,
) -> Option<Seq<Seq<Seq<char>>>> {
    match site {
        BakeryCommands::AddSite { parent_class_id, up_parent_class_id, class_minor, .. } => {
            let down = if down_exists {
                seq![class_del_argv(cfg.isp_interface@, parent_class_id, class_minor)]
            } else {
                Seq::empty()
            };
            let up = if up_exists {
                seq![class_del_argv(cfg.internet_interface@, up_parent_class_id, class_minor)]
            } else {
                Seq::empty()
            };
            if down_exists || up_exists {
                Some(down + up)
            } else {
                None
            }
        },
        _ => None,
    }
}

/// Class deletions of a site limited to the directions observed live; `None`
/// when there is nothing to delete or the command is not a site.
pub fn site_prune_class_commands_for_observed_state(
    config: &BakeryConfig,
    site: &BakeryCommands,
    down_exists: bool,
    up_exists: bool,
) -> (r: Option<Vec<Vec<String>>>)
    ensures
        opt_cmds_view(r) == observed_site_class_argvs(*config, *site, down_exists, up_exists),
{
    match site {
        BakeryCommands::AddSite { parent_class_id, up_parent_class_id, class_minor, .. } => {
            let mut commands: Vec<Vec<String>> = Vec::new();
            if down_exists {
                let isp = config.isp_interface();
                commands.push(class_del(&isp, *parent_class_id, *class_minor));
            }
            if up_exists {
                let internet = config.internet_interface();
                commands.push(class_del(&internet, *up_parent_class_id, *class_minor));
            }
            if commands.len() == 0 {
                None
            } else {
                assert(commands.deep_view() =~= observed_site_class_argvs(
                    *config,
                    *site,
                    down_exists,
                    up_exists,
                )->0);
                Some(commands)
            }
        },
        _ => None,
    }
}

/// An observed parent matches the expected one; a class under a qdisc root
/// (expected minor 0) is observed without a parent class.
pub open spec fn parent_matches(observed: Option<TcHandle>, expected: TcHandle) -> bool {
    observed == Some(expected) || (expected.minor() == 0 && observed is None)
}

/// Whether an observed parent matches the expected one.
pub fn live_parent_matches(observed: Option<TcHandle>, expected: TcHandle) -> (r: bool)
    ensures
        r == parent_matches(observed, expected),
{
    match observed {
        Some(o) => {
            if o == expected {
                return true;
            }
        },
        None => {},
    }
    let (_, expected_minor) = expected.get_major_minor();
    expected_minor == 0 && observed.is_none()
}

/// Whether a virtualized node has an active circuit with a pending migration.
pub open spec fn has_pending_migrations(state: VirtualizedSiteState, migrations: Map<i64, Migration>) -> bool {
    exists|k: i64| #[trigger] state.active_circuits@.contains_key(k) && migrations.contains_key(k)
}

/// Whether any of the node's active circuits has a pending migration.
pub fn runtime_virtualized_site_has_pending_migrations(
    state: &VirtualizedSiteState,
    migrations: &HashMap<i64, Migration>,
) -> (r: bool)
    ensures
        r == has_pending_migrations(*state, migrations@),
{
    let keys = map_keys(&state.active_circuits);
    let mut i: usize = 0;
    while i < keys.len()
        invariant
            i <= keys@.len(),
            keys@.to_set() == state.active_circuits@.dom(),
            forall|j: int| 0 <= j < i ==> !migrations@.contains_key(#[trigger] keys@[j]),
        decreases keys@.len() - i,
    {
        if migrations.contains_key(&keys[i]) {
            assert(keys@.contains(keys@[i as int]));
            assert(keys@.to_set().contains(keys@[i as int]));
            return true;
        }
        i = i + 1;
    }
    proof {
        assert forall|k: i64| #[trigger] state.active_circuits@.contains_key(k) implies !migrations@.contains_key(k) by {
            assert(keys@.to_set().contains(k));
            assert(keys@.contains(k));
            let j = choose|j: int| 0 <= j < keys@.len() && keys@[j] == k;
            assert(!migrations@.contains_key(keys@[j]));
        }
    }
    false
}

/// A pending prune is due and no active circuit of the node is migrating.
pub fn runtime_virtualized_site_prune_ready(
    state: &VirtualizedSiteState,
    migrations: &HashMap<i64, Migration>,
    now_unix: u64,
) -> (r: bool)
    ensures
        r == (state.pending_prune && state.next_prune_attempt_unix <= now_unix
            && !has_pending_migrations(*state, migrations@)),
{
    state.pending_prune && state.next_prune_attempt_unix <= now_unix
        && !runtime_virtualized_site_has_pending_migrations(state, migrations)
}

/// The down/up handles (raw values) the inactive branch still holds: its prune
/// sites' and prune circuits' classes, and the node's own class while the shadow
/// branch hides it.
pub open spec fn inactive_branch_handles(state: VirtualizedSiteState, uplink: bool) -> Set<u32> {
    Set::new(
        |h: u32|
            {
                ||| exists|s: BakeryCommands|
                    state.prune_sites@.values().contains(s) && #[trigger] site_handle_is(s, uplink, h)
                ||| exists|c: BakeryCommands|
                    state.prune_circuits@.values().contains(c) && #[trigger] circuit_handle_is(
                        c,
                        uplink,
                        h,
                    )
                ||| state.active_branch == crate::runtime::RuntimeVirtualizedActiveBranch::Shadow
                    && site_handle_is(state.site, uplink, h)
            },
    )
}

/// `h` is a site's class handle in the given direction.
pub open spec fn site_handle_is(site: BakeryCommands, uplink: bool, h: u32) -> bool {
    site_handles_of(site) matches Some(p) && (if uplink {
        p.1
    } else {
        p.0
    }).0 == h
}

/// `h` is a circuit's class handle in the given direction.
pub open spec fn circuit_handle_is(circuit: BakeryCommands, uplink: bool, h: u32) -> bool {
    match circuit {
        BakeryCommands::AddCircuit { class_major, up_class_major, class_minor, .. } => handle_value(
            if uplink {
                up_class_major
            } else {
                class_major
            },
            class_minor,
        ) == h,
        _ => false,
    }
}


/// Adds the down/up class handles of every site in `sites`.
fn add_site_class_handles(
    sites: &HashMap<i64, BakeryCommands>,
    down: &mut HashSet<u32>,
    up: &mut HashSet<u32>,
)
    ensures
        forall|h: u32| #[trigger] final(down)@.contains(h) <==> old(down)@.contains(h) || exists|
            s: BakeryCommands,
        | sites@.values().contains(s) && #[trigger] site_handle_is(s, false, h),
        forall|h: u32| #[trigger] final(up)@.contains(h) <==> old(up)@.contains(h) || exists|
            s: BakeryCommands,
        | sites@.values().contains(s) && #[trigger] site_handle_is(s, true, h),
{
    let ghost all = spec_values_iter(sites).remaining().unref();
    let ghost d0 = down@;
    let ghost u0 = up@;
    for site in it: sites.values()
        invariant
            it.seq().unref() == all,
            all.to_set() == sites@.values(),
            forall|h: u32| #[trigger] down@.contains(h) <==> d0.contains(h) || exists|j: int|
                0 <= j < it.index() && #[trigger] site_handle_is(all[j], false, h),
            forall|h: u32| #[trigger] up@.contains(h) <==> u0.contains(h) || exists|j: int|
                0 <= j < it.index() && #[trigger] site_handle_is(all[j], true, h),
    {
        let ghost idx = it.index() as int;
        let ghost before_down = down@;
        let ghost before_up = up@;
        assert(*site == all[idx]);
        match site_class_handles(site) {
            Some((down_class, up_class)) => {
                down.insert(down_class.as_u32());
                up.insert(up_class.as_u32());
            },
            None => {},
        }
        assert(forall|h: u32| #[trigger] down@.contains(h) <==> before_down.contains(h) || site_handle_is(all[idx], false, h));
        assert(forall|h: u32| #[trigger] up@.contains(h) <==> before_up.contains(h) || site_handle_is(all[idx], true, h));
        proof {
            assert forall|h: u32| (exists|j: int|
                0 <= j < idx + 1 && #[trigger] site_handle_is(all[j], false, h)) <==> ((
            exists|j: int| 0 <= j < idx && #[trigger] site_handle_is(all[j], false, h))
                || site_handle_is(all[idx], false, h)) by {
                if exists|j: int| 0 <= j < idx + 1 && #[trigger] site_handle_is(all[j], false, h) {
                    let j = choose|j: int| 0 <= j < idx + 1 && #[trigger] site_handle_is(all[j], false, h);
                    if j < idx {
                    }
                }
            }
            assert forall|h: u32| (exists|j: int|
                0 <= j < idx + 1 && #[trigger] site_handle_is(all[j], true, h)) <==> ((
            exists|j: int| 0 <= j < idx && #[trigger] site_handle_is(all[j], true, h))
                || site_handle_is(all[idx], true, h)) by {
                if exists|j: int| 0 <= j < idx + 1 && #[trigger] site_handle_is(all[j], true, h) {
                    let j = choose|j: int| 0 <= j < idx + 1 && #[trigger] site_handle_is(all[j], true, h);
                    if j < idx {
                    }
                }
            }
        }
    }
    proof {
        assert forall|h: u32| #[trigger] down@.contains(h) <==> d0.contains(h) || exists|s: BakeryCommands|
            sites@.values().contains(s) && #[trigger] site_handle_is(s, false, h) by {
            lemma_seq_exists_to_set(all, |s: BakeryCommands| site_handle_is(s, false, h));
        }
        assert forall|h: u32| #[trigger] up@.contains(h) <==> u0.contains(h) || exists|s: BakeryCommands|
            sites@.values().contains(s) && #[trigger] site_handle_is(s, true, h) by {
            lemma_seq_exists_to_set(all, |s: BakeryCommands| site_handle_is(s, true, h));
        }
    }
}

/// Adds the down/up class handles of every circuit in `circuits`.
pub(crate) fn add_circuit_class_handles(
    circuits: &HashMap<i64, BakeryCommands>,
    down: &mut HashSet<u32>,
    up: &mut HashSet<u32>,
)
    ensures
        forall|h: u32| #[trigger] final(down)@.contains(h) <==> old(down)@.contains(h) || exists|
            c: BakeryCommands,
        | circuits@.values().contains(c) && #[trigger] circuit_handle_is(c, false, h),
        forall|h: u32| #[trigger] final(up)@.contains(h) <==> old(up)@.contains(h) || exists|
            c: BakeryCommands,
        | circuits@.values().contains(c) && #[trigger] circuit_handle_is(c, true, h),
{
    let ghost all = spec_values_iter(circuits).remaining().unref();
    let ghost d0 = down@;
    let ghost u0 = up@;
    for circuit in it: circuits.values()
        invariant
            it.seq().unref() == all,
            all.to_set() == circuits@.values(),
            forall|h: u32| #[trigger] down@.contains(h) <==> d0.contains(h) || exists|j: int|
                0 <= j < it.index() && #[trigger] circuit_handle_is(all[j], false, h),
            forall|h: u32| #[trigger] up@.contains(h) <==> u0.contains(h) || exists|j: int|
                0 <= j < it.index() && #[trigger] circuit_handle_is(all[j], true, h),
    {
        let ghost idx = it.index() as int;
        let ghost before_down = down@;
        let ghost before_up = up@;
        assert(*circuit == all[idx]);
        match circuit {
            BakeryCommands::AddCircuit { class_major, up_class_major, class_minor, .. } => {
                down.insert(TcHandle::from_major_minor(*class_major, *class_minor).as_u32());
                up.insert(TcHandle::from_major_minor(*up_class_major, *class_minor).as_u32());
            },
            _ => {},
        }
        assert(forall|h: u32| #[trigger] down@.contains(h) <==> before_down.contains(h) || circuit_handle_is(all[idx], false, h));
        assert(forall|h: u32| #[trigger] up@.contains(h) <==> before_up.contains(h) || circuit_handle_is(all[idx], true, h));
        proof {
            assert forall|h: u32| (exists|j: int|
                0 <= j < idx + 1 && #[trigger] circuit_handle_is(all[j], false, h)) <==> ((
            exists|j: int| 0 <= j < idx && #[trigger] circuit_handle_is(all[j], false, h))
                || circuit_handle_is(all[idx], false, h)) by {
                if exists|j: int| 0 <= j < idx + 1 && #[trigger] circuit_handle_is(all[j], false, h) {
                    let j = choose|j: int| 0 <= j < idx + 1 && #[trigger] circuit_handle_is(all[j], false, h);
                    if j < idx {
                    }
                }
            }
            assert forall|h: u32| (exists|j: int|
                0 <= j < idx + 1 && #[trigger] circuit_handle_is(all[j], true, h)) <==> ((
            exists|j: int| 0 <= j < idx && #[trigger] circuit_handle_is(all[j], true, h))
                || circuit_handle_is(all[idx], true, h)) by {
                if exists|j: int| 0 <= j < idx + 1 && #[trigger] circuit_handle_is(all[j], true, h) {
                    let j = choose|j: int| 0 <= j < idx + 1 && #[trigger] circuit_handle_is(all[j], true, h);
                    if j < idx {
                    }
                }
            }
        }
    }
    proof {
        assert forall|h: u32| #[trigger] down@.contains(h) <==> d0.contains(h) || exists|c: BakeryCommands|
            circuits@.values().contains(c) && #[trigger] circuit_handle_is(c, false, h) by {
            lemma_seq_exists_to_set(all, |c: BakeryCommands| circuit_handle_is(c, false, h));
        }
        assert forall|h: u32| #[trigger] up@.contains(h) <==> u0.contains(h) || exists|c: BakeryCommands|
            circuits@.values().contains(c) && #[trigger] circuit_handle_is(c, true, h) by {
            lemma_seq_exists_to_set(all, |c: BakeryCommands| circuit_handle_is(c, true, h));
        }
    }
}

/// The down/up class handles the inactive branch still holds (see
/// [`inactive_branch_handles`]).
pub fn remaining_inactive_branch_class_handles(state: &VirtualizedSiteState) -> (r: (
    HashSet<u32>,
    HashSet<u32>,
))
    ensures
        r.0@ == inactive_branch_handles(*state, false),
        r.1@ == inactive_branch_handles(*state, true),
{
    let mut down: HashSet<u32> = HashSet::new();
    let mut up: HashSet<u32> = HashSet::new();
    add_site_class_handles(&state.prune_sites, &mut down, &mut up);
    add_circuit_class_handles(&state.prune_circuits, &mut down, &mut up);
    if state.active_branch_hides_original_site() {
        match site_class_handles(&state.site) {
            Some((down_class, up_class)) => {
                down.insert(down_class.as_u32());
                up.insert(up_class.as_u32());
            },
            None => {},
        }
    }
    assert(down@ =~= inactive_branch_handles(*state, false));
    assert(up@ =~= inactive_branch_handles(*state, true));
    (down, up)
}


/// At most the first four handles.
pub open spec fn first_four(s: Seq<TcHandle>) -> Seq<TcHandle> {
    if s.len() <= 4 {
        s
    } else {
        s.take(4)
    }
}

/// The `tc` texts of a list of handles.
pub open spec fn handle_texts(s: Seq<TcHandle>) -> Seq<Seq<char>> {
    s.map_values(|h: TcHandle| tc_seq(h.0))
}

/// The first four handles as `tc` text, joined by `, `.
pub open spec fn handle_set_summary(s: Seq<TcHandle>) -> Seq<char> {
    join_seqs(handle_texts(first_four(s)), ", "@)
}

/// Lists up to the first four handles, as `tc` text joined by `, `.
pub fn summarize_handle_set(handles: &Vec<TcHandle>) -> (r: String)
    ensures
        r@ == handle_set_summary(handles@),
{
    let n: usize = if handles.len() <= 4 {
        handles.len()
    } else {
        4
    };
    let mut texts: Vec<String> = Vec::new();
    let mut i: usize = 0;
    while i < n
        invariant
            n <= handles@.len(),
            n == first_four(handles@).len(),
            i <= n,
            string_seqs(texts@) == handle_texts(first_four(handles@).take(i as int)),
        decreases n - i,
    {
        let t = handles[i].as_tc_string();
        let ghost before = texts@;
        texts.push(t);
        proof {
            let ff = first_four(handles@);
            assert(ff[i as int] == handles@[i as int]);
            assert(string_seqs(texts@) =~= string_seqs(before).push(t@));
            assert(ff.take(i + 1) =~= ff.take(i as int).push(ff[i as int]));
            assert(handle_texts(ff.take(i + 1)) =~= handle_texts(ff.take(i as int)).push(tc_seq(ff[i as int].0)));
        }
        i = i + 1;
    }
    assert(first_four(handles@).take(n as int) =~= first_four(handles@));
    join_strings(&texts, ", ")
}

/// A snapshot entry is a child of `parent` with class `h`, which `expected`
/// does not hold.
pub open spec fn unexpected_entry(
    e: LiveTcClassEntry,
    parent: TcHandle,
    expected: Set<u32>,
    h: TcHandle,
) -> bool {
    &&& e.parent == Some(parent)
    &&& e.class_id == h
    &&& !expected.contains(h.0)
}

/// The classes observed beneath `parent` that `expected` does not hold.
pub open spec fn unexpected_children(
    snapshot: Map<u32, LiveTcClassEntry>,
    parent: TcHandle,
    expected: Set<u32>,
) -> Set<TcHandle> {
    Set::new(
        |h: TcHandle|
            exists|e: LiveTcClassEntry|
                snapshot.values().contains(e) && #[trigger] unexpected_entry(e, parent, expected, h),
    )
}

/// The observed children of `parent` that `expected` does not hold, in the
/// snapshot's order.
fn collect_unexpected_children(
    snapshot: &HashMap<u32, LiveTcClassEntry>,
    parent: TcHandle,
    expected: &HashSet<u32>,
) -> (r: Vec<TcHandle>)
    ensures
        r@.to_set() == unexpected_children(snapshot@, parent, expected@),
{
    let ghost all = spec_values_iter(snapshot).remaining().unref();
    let mut out: Vec<TcHandle> = Vec::new();
    for entry in it: snapshot.values()
        invariant
            it.seq().unref() == all,
            all.to_set() == snapshot@.values(),
            forall|h: TcHandle| #[trigger] out@.contains(h) <==> exists|j: int|
                0 <= j < it.index() && #[trigger] unexpected_entry(all[j], parent, expected@, h),
    {
        let ghost idx = it.index() as int;
        let ghost before = out@;
        assert(*entry == all[idx]);
        let matches_parent = match entry.parent {
            Some(p) => p == parent,
            None => false,
        };
        if matches_parent && !expected.contains(&entry.class_id.as_u32()) {
            out.push(entry.class_id);
        }
        proof {
            assert forall|h: TcHandle| #[trigger] out@.contains(h) <==> (before.contains(h)
                || unexpected_entry(all[idx], parent, expected@, h)) by {
                if out@.len() > before.len() {
                    assert(out@ == before.push(entry.class_id));
                    if out@.contains(h) && !before.contains(h) {
                        let k = choose|k: int| 0 <= k < out@.len() && out@[k] == h;
                        assert(k == before.len());
                    }
                    if before.contains(h) {
                        let k = choose|k: int| 0 <= k < before.len() && before[k] == h;
                        assert(out@[k] == h);
                    }
                    if unexpected_entry(all[idx], parent, expected@, h) {
                        assert(out@[before.len() as int] == h);
                    }
                }
            }
            assert forall|h: TcHandle| (exists|j: int|
                0 <= j < idx + 1 && #[trigger] unexpected_entry(all[j], parent, expected@, h)) <==> ((
            exists|j: int| 0 <= j < idx && #[trigger] unexpected_entry(all[j], parent, expected@, h))
                || unexpected_entry(all[idx], parent, expected@, h)) by {
                if exists|j: int| 0 <= j < idx + 1 && #[trigger] unexpected_entry(all[j], parent, expected@, h) {
                    let j = choose|j: int| 0 <= j < idx + 1 && #[trigger] unexpected_entry(all[j], parent, expected@, h);
                    if j < idx {
                    }
                }
            }
        }
    }
    proof {
        assert forall|h: TcHandle| #[trigger] out@.to_set().contains(h) <==> unexpected_children(
            snapshot@,
            parent,
            expected@,
        ).contains(h) by {
            lemma_seq_exists_to_set(all, |e: LiveTcClassEntry| unexpected_entry(e, parent, expected@, h));
        }
        assert(out@.to_set() =~= unexpected_children(snapshot@, parent, expected@));
    }
    out
}

/// The report of unexpected children still attached to an inactive branch.
pub open spec fn inactive_branch_message(down: Seq<TcHandle>, up: Seq<TcHandle>) -> Seq<char> {
    let d: Seq<Seq<char>> = if down.len() > 0 {
        seq!["down ["@ + handle_set_summary(down) + "]"@]
    } else {
        Seq::empty()
    };
    let u: Seq<Seq<char>> = if up.len() > 0 {
        seq!["up ["@ + handle_set_summary(up) + "]"@]
    } else {
        Seq::empty()
    };
    "Inactive branch cleanup encountered unexpected live child classes still attached: "@ + join_seqs(
        d + u,
        ", "@,
    )
}

/// `m` reports the unexpected children `ud` and `uu`, listed in some order as
/// `down` and `up`.
pub open spec fn inactive_branch_report(
    down: Seq<TcHandle>,
    up: Seq<TcHandle>,
    ud: Set<TcHandle>,
    uu: Set<TcHandle>,
    m: Seq<char>,
) -> bool {
    &&& down.to_set() == ud
    &&& up.to_set() == uu
    &&& m == inactive_branch_message(down, up)
}

/// `m` reports the unexpected children `ud` and `uu` in some order.
pub open spec fn inactive_branch_reported(ud: Set<TcHandle>, uu: Set<TcHandle>, m: Seq<char>) -> bool {
    exists|a: Seq<TcHandle>, b: Seq<TcHandle>| #[trigger] inactive_branch_report(a, b, ud, uu, m)
}

/// Checks that nothing but the expected classes hangs beneath an inactive
/// branch's site class: `Ok` unless some observed child is unexpected, and
/// then an error listing (up to four of) them per direction. A command that
/// is not a site passes.
pub fn classify_inactive_branch_observed_children(
    site: &BakeryCommands,
    down_snapshot: &HashMap<u32, LiveTcClassEntry>,
    up_snapshot: &HashMap<u32, LiveTcClassEntry>,
    expected_down: &HashSet<u32>,
    expected_up: &HashSet<u32>,
) -> (r: Result<(), String>)
    ensures
        match site_handles_of(*site) {
            None => r is Ok,
            Some(p) => {
                let ud = unexpected_children(down_snapshot@, p.0, expected_down@);
                let uu = unexpected_children(up_snapshot@, p.1, expected_up@);
                &&& (r is Ok <==> ud == Set::<TcHandle>::empty() && uu == Set::<TcHandle>::empty())
                &&& (r matches Err(m) ==> inactive_branch_reported(ud, uu, m@))
            },
        },
{
    let (parent_down, parent_up) = match site_class_handles(site) {
        Some(p) => p,
        None => {
            return Ok(());
        },
    };
    let unexpected_down = collect_unexpected_children(down_snapshot, parent_down, expected_down);
    let unexpected_up = collect_unexpected_children(up_snapshot, parent_up, expected_up);
    let ghost ud = unexpected_children(down_snapshot@, parent_down, expected_down@);
    let ghost uu = unexpected_children(up_snapshot@, parent_up, expected_up@);
    proof {
        if unexpected_down@.len() > 0 {
            assert(unexpected_down@.contains(unexpected_down@[0]));
            assert(ud.contains(unexpected_down@[0]));
            assert(ud != Set::<TcHandle>::empty());
        } else {
            assert(unexpected_down@.to_set() =~= Set::<TcHandle>::empty());
        }
        if unexpected_up@.len() > 0 {
            assert(unexpected_up@.contains(unexpected_up@[0]));
            assert(uu.contains(unexpected_up@[0]));
            assert(uu != Set::<TcHandle>::empty());
        } else {
            assert(unexpected_up@.to_set() =~= Set::<TcHandle>::empty());
        }
    }
    assert(site_handles_of(*site) == Some((parent_down, parent_up)));
    if unexpected_down.len() == 0 && unexpected_up.len() == 0 {
        assert(ud == Set::<TcHandle>::empty() && uu == Set::<TcHandle>::empty());
        return Ok(());
    }
    assert(!(ud == Set::<TcHandle>::empty() && uu == Set::<TcHandle>::empty()));
    let mut details: Vec<String> = Vec::new();
    if unexpected_down.len() > 0 {
        let mut d = owned("down [");
        append_str(&mut d, summarize_handle_set(&unexpected_down).as_str());
        append_str(&mut d, "]");
        details.push(d);
    }
    let ghost dpart = string_seqs(details@);
    if unexpected_up.len() > 0 {
        let mut u = owned("up [");
        append_str(&mut u, summarize_handle_set(&unexpected_up).as_str());
        append_str(&mut u, "]");
        details.push(u);
    }
    let mut msg = owned("Inactive branch cleanup encountered unexpected live child classes still attached: ");
    append_str(&mut msg, join_strings(&details, ", ").as_str());
    proof {
        let d: Seq<Seq<char>> = if unexpected_down@.len() > 0 {
            seq!["down ["@ + handle_set_summary(unexpected_down@) + "]"@]
        } else {
            Seq::empty()
        };
        let u: Seq<Seq<char>> = if unexpected_up@.len() > 0 {
            seq!["up ["@ + handle_set_summary(unexpected_up@) + "]"@]
        } else {
            Seq::empty()
        };
        assert(dpart =~= d);
        assert(string_seqs(details@) =~= d + u);
        assert(inactive_branch_report(unexpected_down@, unexpected_up@, ud, uu, msg@));
        assert(inactive_branch_reported(ud, uu, msg@));
    }
    Err(msg)
}

/// The `tc` texts of the handles that a snapshot still holds, in order.
pub open spec fn lingering_texts(handles: Seq<TcHandle>, snapshot: Map<u32, LiveTcClassEntry>) -> Seq<
    Seq<char>,
> {
    handle_texts(handles.filter(|h: TcHandle| snapshot.contains_key(h.0)))
}

/// The error reporting pruned classes that are still live.
pub open spec fn lingering_message(
    context: Seq<char>,
    down: Seq<Seq<char>>,
    up: Seq<Seq<char>>,
    down_dev: Seq<char>,
    up_dev: Seq<char>,
) -> Seq<char> {
    let d: Seq<Seq<char>> = if down.len() > 0 {
        seq![join_seqs(down, ", "@) + " still present on "@ + down_dev]
    } else {
        Seq::empty()
    };
    let u: Seq<Seq<char>> = if up.len() > 0 {
        seq![join_seqs(up, ", "@) + " still present on "@ + up_dev]
    } else {
        Seq::empty()
    };
    context + ": targeted old-branch class prune did not take effect: "@ + join_seqs(d + u, "; "@)
}

/// The `tc` texts of the handles the snapshot holds, in order.
fn lingering_handles(handles: &Vec<TcHandle>, snapshot: &HashMap<u32, LiveTcClassEntry>) -> (r: Vec<
    String,
>)
    ensures
        string_seqs(r@) == lingering_texts(handles@, snapshot@),
{
    let ghost keep = |h: TcHandle| snapshot@.contains_key(h.0);
    let mut out: Vec<String> = Vec::new();
    let mut i: usize = 0;
    while i < handles.len()
        invariant
            i <= handles@.len(),
            keep == (|h: TcHandle| snapshot@.contains_key(h.0)),
            string_seqs(out@) == handle_texts(handles@.take(i as int).filter(keep)),
        decreases handles@.len() - i,
    {
        let h = handles[i];
        proof {
            assert(handles@.take(i + 1).drop_last() =~= handles@.take(i as int));
            assert(handles@.take(i + 1).last() == h);
            handles@.take(i + 1).filter_lemma(keep);
            assert(handles@.take(i + 1).filter(keep) == if keep(h) {
                handles@.take(i as int).filter(keep).push(h)
            } else {
                handles@.take(i as int).filter(keep)
            }) by {
                reveal(Seq::filter);
            }
        }
        if snapshot.contains_key(&h.as_u32()) {
            let t = h.as_tc_string();
            let ghost before = out@;
            out.push(t);
            proof {
                let f = handles@.take(i as int).filter(keep);
                assert(string_seqs(out@) =~= string_seqs(before).push(t@));
                assert(handle_texts(f.push(h)) =~= handle_texts(f).push(tc_seq(h.0)));
            }
        }
        i = i + 1;
    }
    assert(handles@.take(handles@.len() as int) =~= handles@);
    out
}

/// Checks that the classes just pruned are gone from the live snapshots:
/// `Ok` when none of them is still there, else an error naming, per
/// interface, those that are.
pub fn verify_pruned_handles_absent(
    config: &BakeryConfig,
    down_handles: &Vec<TcHandle>,
    up_handles: &Vec<TcHandle>,
    context: &str,
    down_snapshot: &HashMap<u32, LiveTcClassEntry>,
    up_snapshot: &HashMap<u32, LiveTcClassEntry>,
) -> (r: Result<(), String>)
    ensures
        ({
            let d = lingering_texts(down_handles@, down_snapshot@);
            let u = lingering_texts(up_handles@, up_snapshot@);
            if d.len() == 0 && u.len() == 0 {
                r is Ok
            } else {
                r matches Err(m) && m@ == lingering_message(
                    context@,
                    d,
                    u,
                    config.isp_interface@,
                    config.internet_interface@,
                )
            }
        }),
{
    let lingering_down = lingering_handles(down_handles, down_snapshot);
    let lingering_up = lingering_handles(up_handles, up_snapshot);
    if lingering_down.len() == 0 && lingering_up.len() == 0 {
        return Ok(());
    }
    let mut details: Vec<String> = Vec::new();
    if lingering_down.len() > 0 {
        let mut d = join_strings(&lingering_down, ", ");
        append_str(&mut d, " still present on ");
        append_str(&mut d, config.isp_interface.as_str());
        details.push(d);
    }
    let ghost dpart = string_seqs(details@);
    if lingering_up.len() > 0 {
        let mut u = join_strings(&lingering_up, ", ");
        append_str(&mut u, " still present on ");
        append_str(&mut u, config.internet_interface.as_str());
        details.push(u);
    }
    let mut msg = owned(context);
    append_str(&mut msg, ": targeted old-branch class prune did not take effect: ");
    append_str(&mut msg, join_strings(&details, "; ").as_str());
    proof {
        let dl = lingering_texts(down_handles@, down_snapshot@);
        let ul = lingering_texts(up_handles@, up_snapshot@);
        let d: Seq<Seq<char>> = if dl.len() > 0 {
            seq![join_seqs(dl, ", "@) + " still present on "@ + config.isp_interface@]
        } else {
            Seq::empty()
        };
        let u: Seq<Seq<char>> = if ul.len() > 0 {
            seq![join_seqs(ul, ", "@) + " still present on "@ + config.internet_interface@]
        } else {
            Seq::empty()
        };
        assert(dpart =~= d);
        assert(string_seqs(details@) =~= d + u);
    }
    Err(msg)
}

/// A site command's classes are live with the expected parents.
pub open spec fn site_observed_live(
    site: BakeryCommands,
    down: Map<u32, LiveTcClassEntry>,
    up: Map<u32, LiveTcClassEntry>,
) -> bool {
    match site {
        BakeryCommands::AddSite { parent_class_id, up_parent_class_id, .. } => {
            let (dc, uc) = site_handles_of(site)->0;
            &&& down.contains_key(dc.0)
            &&& up.contains_key(uc.0)
            &&& parent_matches(down[dc.0].parent, parent_class_id)
            &&& parent_matches(up[uc.0].parent, up_parent_class_id)
        },
        _ => false,
    }
}

/// Whether every command is a site whose classes are live, each beneath its
/// expected parent.
pub fn site_commands_observed_live(
    commands: &HashMap<i64, BakeryCommands>,
    down_snapshot: &HashMap<u32, LiveTcClassEntry>,
    up_snapshot: &HashMap<u32, LiveTcClassEntry>,
) -> (r: bool)
    ensures
        r == forall|v: BakeryCommands|
            #[trigger] commands@.values().contains(v) ==> site_observed_live(v, down_snapshot@, up_snapshot@),
{
    let ghost all = spec_values_iter(commands).remaining().unref();
    for site in it: commands.values()
        invariant
            it.seq().unref() == all,
            all.to_set() == commands@.values(),
            forall|j: int| 0 <= j < it.index() ==> site_observed_live(#[trigger] all[j], down_snapshot@, up_snapshot@),
    {
        let ghost idx = it.index() as int;
        assert(*site == all[idx]);
        let live = match site {
            BakeryCommands::AddSite { parent_class_id, up_parent_class_id, .. } => {
                match site_class_handles(site) {
                    Some((down_class, up_class)) => match (down_snapshot.get(&down_class.as_u32()), up_snapshot.get(&up_class.as_u32())) {
                        (Some(d), Some(u)) => live_parent_matches(d.parent, *parent_class_id) && live_parent_matches(u.parent, *up_parent_class_id),
                        _ => false,
                    },
                    None => false,
                }
            },
            _ => false,
        };
        if !live {
            assert(all.contains(all[idx]));
            assert(commands@.values().contains(all[idx]));
            return false;
        }
    }
    proof {
        assert forall|v: BakeryCommands| #[trigger] commands@.values().contains(v) implies site_observed_live(v, down_snapshot@, up_snapshot@) by {
            assert(all.to_set().contains(v));
            assert(all.contains(v));
            let j = choose|j: int| 0 <= j < all.len() && all[j] == v;
            assert(site_observed_live(all[j], down_snapshot@, up_snapshot@));
        }
    }
    true
}

} // verus!
