//! A check that a node's prune sites hang together as a tree: no site can
//! reach itself by going from a site to the sites holding its parent
//! handles.
use vstd::prelude::*;
use std::collections::HashMap;
use crate::commands::BakeryCommands;
use crate::hierarchy::{handle_pair_key, owner_index_valid, pair_key, parent_map, parent_via, parents_ranked, site_key};
use crate::maps::map_keys;
use crate::site_tree::site_class_handles;
use crate::subtree_prune::prune_sites_acyclic;

verus! {

broadcast use vstd::std_specs::hash::group_hash_axioms;

/// The key of a site's parent handles.
pub open spec fn parent_key(site: BakeryCommands) -> Option<u64> {
    match site {
        BakeryCommands::AddSite { parent_class_id, up_parent_class_id, .. } => Some(
            pair_key(parent_class_id, up_parent_class_id),
        ),
        _ => None,
    }
}

/// `t` holds the parent handles of `s`: it may be taken as its parent.
pub open spec fn parent_candidate(sites: Map<i64, BakeryCommands>, s: i64, t: i64) -> bool {
    &&& sites.contains_key(s)
    &&& sites.contains_key(t)
    &&& parent_key(sites[s]) is Some
    &&& site_key(sites[t]) == parent_key(sites[s])
}

/// Every site in `done` comes after all its parent candidates, by `done`'s
/// rounds.
pub open spec fn rounds_ordered(sites: Map<i64, BakeryCommands>, done: Map<i64, usize>) -> bool {
    forall|s: i64, t: i64|
        #![trigger done[s], parent_candidate(sites, s, t)]
        done.contains_key(s) && parent_candidate(sites, s, t) ==> done.contains_key(t) && done[t] < done[s]
}

fn parent_key_of(site: &BakeryCommands) -> (r: Option<u64>)
    ensures
        r == parent_key(*site),
{
    match site {
        BakeryCommands::AddSite { parent_class_id, up_parent_class_id, .. } => Some(
            handle_pair_key(*parent_class_id, *up_parent_class_id),
        ),
        _ => None,
    }
}

fn site_key_of(site: &BakeryCommands) -> (r: Option<u64>)
    ensures
        r == site_key(*site),
{
    match site_class_handles(site) {
        Some((down, up)) => Some(handle_pair_key(down, up)),
        None => None,
    }
}

/// Whether every parent candidate of `s` was placed in a round up to `round`.
fn candidates_placed(
    sites: &HashMap<i64, BakeryCommands>,
    keys: &Vec<i64>,
    done: &HashMap<i64, usize>,
    s: i64,
    round: usize,
) -> (r: bool)
    requires
        sites@.contains_key(s),
        keys@.to_set() == sites@.dom(),
    ensures
        r ==> forall|t: i64| #[trigger]
            parent_candidate(sites@, s, t) ==> done@.contains_key(t) && done@[t] <= round,
{
    let pk = match parent_key_of(sites.get(&s).unwrap()) {
        Some(k) => k,
        None => return true,
    };
    let mut i: usize = 0;
    while i < keys.len()
        invariant
            i <= keys@.len(),
            keys@.to_set() == sites@.dom(),
            sites@.contains_key(s),
            parent_key(sites@[s]) == Some(pk),
            forall|j: int|
                0 <= j < i ==> #[trigger] parent_candidate(sites@, s, keys@[j]) ==> done@.contains_key(keys@[j])
                    && done@[keys@[j]] <= round,
        decreases keys@.len() - i,
    {
        let t = keys[i];
        assert(keys@.to_set().contains(t));
        let is_candidate = match site_key_of(sites.get(&t).unwrap()) {
            Some(k) => k == pk,
            None => false,
        };
        if is_candidate {
            match done.get(&t) {
                Some(r) => {
                    if *r > round {
                        return false;
                    }
                },
                None => return false,
            }
        }
        i = i + 1;
    }
    assert forall|t: i64| #[trigger] parent_candidate(sites@, s, t) implies done@.contains_key(t) && done@[t]
        <= round by {
        assert(keys@.to_set().contains(t));
        let j = choose|j: int| 0 <= j < keys@.len() && keys@[j] == t;
        assert(parent_candidate(sites@, s, keys@[j]));
    }
    true
}

/// Whether the prune sites can be ordered parents first: each site is
/// placed once every site holding its parent handles is placed. `true`
/// means no choice of parents among sites sharing handles forms a cycle, so
/// the prune planner may run on them.
pub fn prune_sites_are_acyclic(sites: &HashMap<i64, BakeryCommands>) -> (r: bool)
    ensures
        r ==> prune_sites_acyclic(sites@),
{
    let keys = map_keys(sites);
    let mut done: HashMap<i64, usize> = HashMap::new();
    let mut round: usize = 0;
    while round < keys.len()
        invariant
            keys@.to_set() == sites@.dom(),
            keys@.no_duplicates(),
            round <= keys@.len(),
            forall|s: i64| #[trigger] done@.contains_key(s) ==> sites@.contains_key(s) && done@[s] <= round,
            rounds_ordered(sites@, done@),
        decreases keys@.len() - round,
    {
        let ghost before = done@;
        let mut i: usize = 0;
        while i < keys.len()
            invariant
                keys@.to_set() == sites@.dom(),
                round < keys@.len(),
                forall|s: i64| #[trigger] done@.contains_key(s) ==> sites@.contains_key(s) && done@[s] <= round + 1,
                forall|s: i64| #[trigger] before.contains_key(s) ==> done@.contains_key(s) && done@[s] == before[s],
                forall|s: i64| #[trigger]
                    done@.contains_key(s) && !before.contains_key(s) ==> done@[s] == round + 1,
                forall|s: i64| #[trigger] before.contains_key(s) ==> before[s] <= round,
                rounds_ordered(sites@, before),
                forall|s: i64, t: i64|
                    #![trigger done@[s], parent_candidate(sites@, s, t)]
                    done@.contains_key(s) && !before.contains_key(s) && parent_candidate(sites@, s, t)
                        ==> before.contains_key(t),
            decreases keys@.len() - i,
        {
            let s = keys[i];
            assert(keys@.to_set().contains(s));
            if !done.contains_key(&s) {
                if candidates_placed(sites, &keys, &done, s, round) {
                    proof {
                        assert forall|t: i64| #[trigger] parent_candidate(sites@, s, t) implies before.contains_key(t) by {
                            assert(done@.contains_key(t) && done@[t] <= round);
                            if !before.contains_key(t) {
                                assert(done@[t] == round + 1);
                            }
                        }
                    }
                    done.insert(s, round + 1);
                }
            }
            i = i + 1;
        }
        proof {
            assert forall|s: i64, t: i64|
                #![trigger done@[s], parent_candidate(sites@, s, t)]
                done@.contains_key(s) && parent_candidate(sites@, s, t) implies done@.contains_key(t) && done@[t]
                < done@[s] by {
                if before.contains_key(s) {
                    assert(before.contains_key(t) && before[t] < before[s]);
                } else {
                    assert(before.contains_key(t));
                }
            }
        }
        round = round + 1;
    }
    let all = done.len() == keys.len();
    if all {
        proof {
            assert(done@.dom().subset_of(sites@.dom()));
            vstd::set_lib::lemma_len_subset(done@.dom(), sites@.dom());
            keys@.unique_seq_to_set();
            assert(done@.dom() =~= sites@.dom()) by {
                if !(done@.dom() =~= sites@.dom()) {
                    let x = choose|x: i64| sites@.dom().contains(x) && !done@.dom().contains(x);
                    vstd::set_lib::lemma_len_subset(done@.dom(), sites@.dom().remove(x));
                }
            }
            let d = done@;
            let rank = |s: i64| if d.contains_key(s) { d[s] as nat } else { 0 };
            assert forall|owner: Map<u64, i64>| owner_index_valid(sites@, owner) implies exists|
                rk: spec_fn(i64) -> nat,
            | parents_ranked(parent_map(sites@, owner), rk) by {
                let pm = parent_map(sites@, owner);
                assert forall|s: i64| #[trigger]
                    pm.contains_key(s) && pm[s] is Some implies rank(pm[s]->0) < rank(s) by {
                    let p = pm[s]->0;
                    assert(parent_via(sites@, owner, s) == Some(p));
                    let k = parent_key(sites@[s])->0;
                    assert(owner.contains_key(k));
                    assert(parent_candidate(sites@, s, p));
                    assert(d.contains_key(s));
                }
                assert(parents_ranked(pm, rank));
            }
        }
    }
    all
}

} // verus!
