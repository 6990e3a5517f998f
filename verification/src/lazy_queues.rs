//! Lazy queues: circuits whose queues are built on first activity and torn
//! down again after a period without any.
use vstd::prelude::*;
use std::collections::HashMap;
use crate::commands::{opt_cmds_view, to_prune_spec, BakeryCommands};
use crate::config::{BakeryConfig, LazyQueueMode};
use crate::maps::map_keys;

verus! {

broadcast use vstd::std_specs::hash::group_hash_axioms;

/// Idle time after which a lazy circuit is torn down, unless configured.
pub const DEFAULT_LAZY_EXPIRE_SECONDS: u64 = 600;

/// Lazy queues are enabled (`htb` or `full`).
pub open spec fn lazy_enabled(mode: Option<LazyQueueMode>) -> bool {
    match mode {
        Some(LazyQueueMode::Htb) | Some(LazyQueueMode::Full) => true,
        _ => false,
    }
}

/// A live circuit has been idle longer than `max_age`, is still tracked, and
/// has prune commands: it is torn down.
pub open spec fn expires(
    circuits: Map<i64, BakeryCommands>,
    live: Map<i64, u64>,
    cfg: BakeryConfig,
    now: u64,
    max_age: u64,
    id: i64,
) -> bool {
    &&& live.contains_key(id)
    &&& now - live[id] > max_age
    &&& circuits.contains_key(id)
    &&& to_prune_spec(circuits[id], cfg, false) is Some
}

/// The prune commands of the circuits in `order`, one after another.
pub open spec fn prune_commands_in_order(
    circuits: Map<i64, BakeryCommands>,
    cfg: BakeryConfig,
    order: Seq<i64>,
) -> Seq<Seq<Seq<char>>>
    decreases order.len(),
{
    if order.len() == 0 {
        Seq::empty()
    } else {
        prune_commands_in_order(circuits, cfg, order.drop_last()) + to_prune_spec(
            circuits[order.last()],
            cfg,
            false,
        ).unwrap()
    }
}

/// `commands` prunes the expired circuits, in the order `order`.
pub open spec fn expiry_commands(
    circuits: Map<i64, BakeryCommands>,
    live: Map<i64, u64>,
    cfg: BakeryConfig,
    now: u64,
    max_age: u64,
    order: Seq<i64>,
    commands: Seq<Seq<Seq<char>>>,
) -> bool {
    &&& order.no_duplicates()
    &&& forall|id: i64| #[trigger] order.contains(id) <==> expires(circuits, live, cfg, now, max_age, id)
    &&& commands == prune_commands_in_order(circuits, cfg, order)
}

/// Idle time after which a lazy circuit expires.
pub open spec fn expire_after(lazy_expire_seconds: Option<u64>) -> u64 {
    match lazy_expire_seconds {
        Some(s) => s,
        None => DEFAULT_LAZY_EXPIRE_SECONDS,
    }
}

/// The circuits that expire are removed from the live set and pruned, in
/// some order.
pub open spec fn expired_and_pruned(
    circuits: Map<i64, BakeryCommands>,
    live: Map<i64, u64>,
    live_after: Map<i64, u64>,
    cfg: BakeryConfig,
    now: u64,
    max_age: u64,
    commands: Seq<Seq<Seq<char>>>,
) -> bool {
    &&& live_after == live.remove_keys(Set::new(|id: i64| expires(circuits, live, cfg, now, max_age, id)))
    &&& exists|order: Seq<i64>| #[trigger] expiry_commands(circuits, live, cfg, now, max_age, order, commands)
}

/// What a tick does: with lazy queues off it reports every tracked circuit
/// as active and changes nothing; with them on it reports the live circuits
/// and, unless expiry is disabled (0), expires the idle ones.
pub open spec fn tick_outcome(
    circuits: Map<i64, BakeryCommands>,
    live: Map<i64, u64>,
    live_after: Map<i64, u64>,
    cfg: BakeryConfig,
    lazy_expire_seconds: Option<u64>,
    now: u64,
    active: usize,
    commands: Seq<Seq<Seq<char>>>,
) -> bool {
    if !lazy_enabled(cfg.lazy_queues) {
        &&& active == circuits.len()
        &&& commands.len() == 0
        &&& live_after == live
    } else if expire_after(lazy_expire_seconds) == 0 {
        &&& active == live.len()
        &&& commands.len() == 0
        &&& live_after == live
    } else {
        &&& active == live.len()
        &&& expired_and_pruned(circuits, live, live_after, cfg, now, expire_after(lazy_expire_seconds), commands)
    }
}

/// The periodic lazy-queue tick. Returns the number of active circuits (all
/// tracked circuits when lazy queues are off, else the live ones before
/// expiry) and the commands that tear down expired circuits. A live circuit
/// expires when it has been idle for more than `lazy_expire_seconds` (600 by
/// default; 0 disables expiry) and it is removed from `live_circuits`.
pub fn handle_tick(
    circuits: &HashMap<i64, BakeryCommands>,
    live_circuits: &mut HashMap<i64, u64>,
    config: &BakeryConfig,
    lazy_expire_seconds: Option<u64>,
    now: u64,
) -> (r: (usize, Vec<Vec<String>>))
    requires
        forall|id: i64| #[trigger] old(live_circuits)@.contains_key(id) ==> old(live_circuits)@[id] <= now,
    ensures
        tick_outcome(
            circuits@,
            old(live_circuits)@,
            final(live_circuits)@,
            *config,
            lazy_expire_seconds,
            now,
            r.0,
            r.1.deep_view(),
        ),
{
    let enabled = match config.lazy_queues {
        Some(LazyQueueMode::Htb) | Some(LazyQueueMode::Full) => true,
        _ => false,
    };
    if !enabled {
        return (circuits.len(), Vec::new());
    }
    let active = live_circuits.len();
    let max_age: u64 = match lazy_expire_seconds {
        Some(s) => s,
        None => DEFAULT_LAZY_EXPIRE_SECONDS,
    };
    if max_age == 0 {
        return (active, Vec::new());
    }
    let ghost live0 = live_circuits@;
    let ghost doomed = Set::new(|id: i64| expires(circuits@, live0, *config, now, max_age, id));
    let keys = map_keys(live_circuits);
    let mut destroyed: Vec<i64> = Vec::new();
    let mut commands: Vec<Vec<String>> = Vec::new();
    let mut i: usize = 0;
    while i < keys.len()
        invariant
            i <= keys@.len(),
            keys@.no_duplicates(),
            keys@.to_set() == live0.dom(),
            forall|id: i64| #[trigger] live0.contains_key(id) ==> live0[id] <= now,
            doomed == Set::new(|id: i64| expires(circuits@, live0, *config, now, max_age, id)),
            destroyed@.no_duplicates(),
            forall|id: i64| #[trigger] destroyed@.contains(id) <==> (keys@.take(i as int).contains(id)
                && doomed.contains(id)),
            live_circuits@ == live0.remove_keys(destroyed@.to_set()),
            commands.deep_view() == prune_commands_in_order(circuits@, *config, destroyed@),
        decreases keys@.len() - i,
    {
        let id = keys[i];
        assert(keys@.contains(id));
        assert(keys@.to_set().contains(id));
        let last: u64 = match live_circuits.get(&id) {
            Some(t) => *t,
            None => now,
        };
        assert(!destroyed@.contains(id)) by {
            if destroyed@.contains(id) {
                let j = choose|j: int| 0 <= j < i && keys@.take(i as int)[j] == id;
                assert(keys@[j] == keys@[i as int]);
            }
        }
        assert(live_circuits@.contains_key(id));
        assert(last == live0[id]);
        let mut expired_cmds: Option<Vec<Vec<String>>> = None;
        if now - last > max_age {
            match circuits.get(&id) {
                Some(c) => {
                    expired_cmds = c.to_prune(config, false);
                },
                None => {},
            }
        }
        let ghost before_destroyed = destroyed@;
        let ghost before_cmds = commands.deep_view();
        match expired_cmds {
            Some(mut cmds) => {
                assert(doomed.contains(id));
                let ghost added = cmds.deep_view();
                commands.append(&mut cmds);
                destroyed.push(id);
                live_circuits.remove(&id);
                proof {
                    assert(destroyed@.drop_last() =~= before_destroyed);
                    assert(commands.deep_view() =~= before_cmds + added);
                    assert(destroyed@ == before_destroyed.push(id));
                    assert forall|x: i64| #[trigger] destroyed@.to_set().contains(x) <==> before_destroyed.to_set().insert(id).contains(x) by {
                        crate::summary::lemma_push_contains(before_destroyed, id, x);
                    }
                    assert(destroyed@.to_set() =~= before_destroyed.to_set().insert(id));
                    assert(live_circuits@ =~= live0.remove_keys(destroyed@.to_set()));
                }
            },
            None => {
                assert(!doomed.contains(id));
            },
        }
        proof {
            assert(keys@.take(i + 1) =~= keys@.take(i as int).push(id));
            assert forall|x: i64| #[trigger] destroyed@.contains(x) <==> (keys@.take(i + 1).contains(x)
                && doomed.contains(x)) by {
                crate::summary::lemma_push_contains(keys@.take(i as int), id, x);
                crate::summary::lemma_push_contains(before_destroyed, id, x);
            }
        }
        i = i + 1;
    }
    proof {
        assert(keys@.take(keys@.len() as int) =~= keys@);
        assert(destroyed@.to_set() =~= doomed);
        assert(expiry_commands(circuits@, live0, *config, now, max_age, destroyed@, commands.deep_view()));
    }
    assert(live_circuits@ == live0.remove_keys(doomed));
    assert(max_age == expire_after(lazy_expire_seconds));
    assert(expired_and_pruned(circuits@, live0, live_circuits@, *config, now, max_age, commands.deep_view()));
    (active, commands)
}

} // verus!
