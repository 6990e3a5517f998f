//! The site tree implied by class handles: which site owns a pair of class
//! handles, each site's parent, each site's children, subtrees and depths.
use vstd::prelude::*;
use std::collections::HashMap;
use crate::commands::BakeryCommands;
use crate::maps::map_keys;
use crate::site_tree::{site_class_handles, site_handles_of};
use crate::summary::{lemma_push_contains, sorted_insert, sorted_listing, strictly_sorted};
use crate::tc_handle::TcHandle;

verus! {

broadcast use vstd::std_specs::hash::group_hash_axioms;

/// One integer naming an ordered pair of class handles.
pub open spec fn pair_key(down: TcHandle, up: TcHandle) -> u64 {
    (down.0 as int * 0x1_0000_0000 + up.0 as int) as u64
}

/// The key of a pair of class handles.
pub fn handle_pair_key(down: TcHandle, up: TcHandle) -> (r: u64)
    ensures
        r == pair_key(down, up),
{
    down.0 as u64 * 0x1_0000_0000 + up.0 as u64
}

/// The key of a site's own down/up class handles.
pub open spec fn site_key(site: BakeryCommands) -> Option<u64> {
    match site_handles_of(site) {
        Some(h) => Some(pair_key(h.0, h.1)),
        None => None,
    }
}

/// An index from class-handle pairs to the sites holding them: every site's
/// pair is indexed, each to some site with that pair.
pub open spec fn owner_index_valid(sites: Map<i64, BakeryCommands>, owner: Map<u64, i64>) -> bool {
    &&& forall|k: u64| #[trigger]
        owner.contains_key(k) <==> exists|s: i64| #[trigger]
            sites.contains_key(s) && site_key(sites[s]) == Some(k)
    &&& forall|k: u64| #[trigger]
        owner.contains_key(k) ==> sites.contains_key(owner[k]) && site_key(sites[owner[k]]) == Some(k)
}

/// Indexes the sites by their class-handle pair (when two sites share a pair,
/// one of them, in the map's order, is kept).
pub fn site_owner_index(sites: &HashMap<i64, BakeryCommands>) -> (r: HashMap<u64, i64>)
    ensures
        owner_index_valid(sites@, r@),
{
    let keys = map_keys(sites);
    let ghost m = sites@;
    let mut owner: HashMap<u64, i64> = HashMap::new();
    let mut i: usize = 0;
    while i < keys.len()
        invariant
            m == sites@,
            i <= keys@.len(),
            keys@.to_set() == m.dom(),
            forall|k: u64| #[trigger]
                owner@.contains_key(k) <==> exists|j: int|
                    0 <= j < i && site_key(m[#[trigger] keys@[j]]) == Some(k),
            forall|k: u64| #[trigger]
                owner@.contains_key(k) ==> m.contains_key(owner@[k]) && site_key(m[owner@[k]]) == Some(k),
        decreases keys@.len() - i,
    {
        let s = keys[i];
        assert(keys@.to_set().contains(s)) by {
            assert(keys@.contains(s));
        }
        let ghost before = owner@;
        match sites.get(&s) {
            Some(cmd) => {
                assert(*cmd == m[s]);
                match site_class_handles(cmd) {
                    Some((down, up)) => {
                        owner.insert(handle_pair_key(down, up), s);
                    },
                    None => {},
                }
            },
            None => {},
        }
        proof {
            assert forall|k: u64| #[trigger] owner@.contains_key(k) <==> exists|j: int|
                0 <= j < i + 1 && site_key(m[#[trigger] keys@[j]]) == Some(k) by {
                if owner@.contains_key(k) && !before.contains_key(k) {
                    assert(site_key(m[keys@[i as int]]) == Some(k));
                }
                if exists|j: int| 0 <= j < i + 1 && site_key(m[#[trigger] keys@[j]]) == Some(k) {
                    let j = choose|j: int| 0 <= j < i + 1 && site_key(m[#[trigger] keys@[j]]) == Some(k);
                    if j == i {
                        assert(owner@.contains_key(k));
                    }
                }
            }
        }
        i = i + 1;
    }
    proof {
        assert forall|k: u64| #[trigger] owner@.contains_key(k) <==> exists|s: i64| #[trigger]
            m.contains_key(s) && site_key(m[s]) == Some(k) by {
            if exists|s: i64| #[trigger] m.contains_key(s) && site_key(m[s]) == Some(k) {
                let s = choose|s: i64| #[trigger] m.contains_key(s) && site_key(m[s]) == Some(k);
                assert(keys@.to_set().contains(s));
                assert(keys@.contains(s));
                let j = choose|j: int| 0 <= j < keys@.len() && keys@[j] == s;
                assert(site_key(m[keys@[j]]) == Some(k));
            }
            if owner@.contains_key(k) {
                let j = choose|j: int| 0 <= j < keys@.len() && site_key(m[#[trigger] keys@[j]]) == Some(k);
                assert(keys@.contains(keys@[j]));
                assert(m.contains_key(keys@[j]));
            }
        }
    }
    owner
}

/// The site owning a site's parent handles, under an ownership index.
pub open spec fn parent_via(sites: Map<i64, BakeryCommands>, owner: Map<u64, i64>, s: i64) -> Option<i64> {
    if sites.contains_key(s) {
        match sites[s] {
            BakeryCommands::AddSite { parent_class_id, up_parent_class_id, .. } => {
                let k = pair_key(parent_class_id, up_parent_class_id);
                if owner.contains_key(k) {
                    Some(owner[k])
                } else {
                    None
                }
            },
            _ => None,
        }
    } else {
        None
    }
}

/// The parent site of a site: the site whose own class handles are the site's
/// parent handles.
pub fn site_parent_hash(
    site_hash: i64,
    sites: &HashMap<i64, BakeryCommands>,
    class_to_site: &HashMap<u64, i64>,
) -> (r: Option<i64>)
    ensures
        r == parent_via(sites@, class_to_site@, site_hash),
{
    match sites.get(&site_hash) {
        Some(site) => match site {
            BakeryCommands::AddSite { parent_class_id, up_parent_class_id, .. } => {
                match class_to_site.get(&handle_pair_key(*parent_class_id, *up_parent_class_id)) {
                    Some(p) => Some(*p),
                    None => None,
                }
            },
            _ => None,
        },
        None => None,
    }
}

/// The members of `s` whose parent is `p`.
pub open spec fn children_in(
    sites: Map<i64, BakeryCommands>,
    owner: Map<u64, i64>,
    s: Set<i64>,
    p: i64,
) -> Set<i64> {
    s.filter(|c: i64| parent_via(sites, owner, c) == Some(p))
}

/// The children lists of a site tree: each parent lists exactly its child
/// sites, in increasing order.
pub open spec fn children_lists(
    sites: Map<i64, BakeryCommands>,
    owner: Map<u64, i64>,
    children: Map<i64, Vec<i64>>,
) -> bool {
    &&& forall|p: i64| #[trigger]
        children.contains_key(p) <==> exists|c: i64| #[trigger]
            sites.contains_key(c) && parent_via(sites, owner, c) == Some(p)
    &&& forall|p: i64| #[trigger]
        children.contains_key(p) ==> sorted_listing(
            children[p]@,
            children_in(sites, owner, sites.dom(), p),
        )
}

/// For each parent site, its direct child sites in increasing order.
pub fn direct_child_sites_by_parent(sites: &HashMap<i64, BakeryCommands>) -> (r: HashMap<i64, Vec<i64>>)
    ensures
        exists|owner: Map<u64, i64>| owner_index_valid(sites@, owner) && children_lists(sites@, owner, r@),
{
    let owner = site_owner_index(sites);
    let ghost o = owner@;
    let ghost m = sites@;
    let keys = map_keys(sites);
    let mut result: HashMap<i64, Vec<i64>> = HashMap::new();
    let mut i: usize = 0;
    while i < keys.len()
        invariant
            m == sites@,
            o == owner@,
            i <= keys@.len(),
            keys@.no_duplicates(),
            keys@.to_set() == m.dom(),
            forall|p: i64| #[trigger]
                result@.contains_key(p) <==> exists|j: int|
                    0 <= j < i && parent_via(m, o, #[trigger] keys@[j]) == Some(p),
            forall|p: i64| #[trigger]
                result@.contains_key(p) ==> sorted_listing(
                    result@[p]@,
                    children_in(m, o, keys@.take(i as int).to_set(), p),
                ),
        decreases keys@.len() - i,
    {
        let c = keys[i];
        let ghost before = result@;
        proof {
            assert(keys@.take(i + 1) =~= keys@.take(i as int).push(c));
            assert forall|x: i64| #[trigger] keys@.take(i + 1).to_set().contains(x)
                <==> keys@.take(i as int).to_set().insert(c).contains(x) by {
                lemma_push_contains(keys@.take(i as int), c, x);
            }
            assert(keys@.take(i + 1).to_set() =~= keys@.take(i as int).to_set().insert(c));
            assert(!keys@.take(i as int).contains(c)) by {
                if keys@.take(i as int).contains(c) {
                    let j = choose|j: int| 0 <= j < i && #[trigger] keys@.take(i as int)[j] == c;
                    assert(keys@[j] == keys@[i as int]);
                }
            }
        }
        match site_parent_hash(c, sites, &owner) {
            Some(p) => {
                let mut v = match result.remove(&p) {
                    Some(v) => v,
                    None => Vec::new(),
                };
                proof {
                    if before.contains_key(p) {
                        assert(sorted_listing(
                            v@,
                            children_in(m, o, keys@.take(i as int).to_set(), p),
                        ));
                    }
                    assert(!v@.contains(c)) by {
                        if v@.contains(c) {
                            assert(v@.to_set().contains(c));
                        }
                    }
                }
                let ghost v_before = v@;
                sorted_insert(&mut v, c);
                let ghost v_after = v@;
                result.insert(p, v);
                proof {
                    assert(parent_via(m, o, c) == Some(p));
                    assert(result@[p]@ == v_after);
                    if before.contains_key(p) {
                        assert(v_before == before[p]@);
                    } else {
                        assert(v_before.len() == 0);
                        assert(v_before.to_set() =~= Set::<i64>::empty());
                    }
                    assert forall|q: i64| #[trigger] result@.contains_key(q) implies sorted_listing(
                        result@[q]@,
                        children_in(m, o, keys@.take(i + 1).to_set(), q),
                    ) by {
                        if q == p {
                            assert(children_in(m, o, keys@.take(i + 1).to_set(), q) =~= children_in(m, o, keys@.take(i as int).to_set(), q).insert(c));
                            if !before.contains_key(p) {
                                assert(children_in(m, o, keys@.take(i as int).to_set(), q) =~= Set::<i64>::empty()) by {
                                    assert forall|x: i64| !#[trigger] children_in(m, o, keys@.take(i as int).to_set(), q).contains(x) by {
                                        if keys@.take(i as int).to_set().contains(x) && parent_via(
                                            m,
                                            o,
                                            x,
                                        ) == Some(q) {
                                            assert(keys@.take(i as int).contains(x));
                                            let j = choose|j: int|
                                                0 <= j < i && #[trigger] keys@.take(i as int)[j] == x;
                                            assert(keys@[j] == x);
                                        }
                                    }
                                }
                            }
                        } else {
                            assert(children_in(m, o, keys@.take(i + 1).to_set(), q) =~= children_in(m, o, keys@.take(i as int).to_set(), q));
                        }
                    }
                    assert forall|q: i64| #[trigger] result@.contains_key(q) <==> exists|j: int|
                        0 <= j < i + 1 && parent_via(m, o, #[trigger] keys@[j]) == Some(q) by {
                        if exists|j: int| 0 <= j < i + 1 && parent_via(m, o, #[trigger] keys@[j]) == Some(q) {
                            let j = choose|j: int| 0 <= j < i + 1 && parent_via(m, o, #[trigger] keys@[j]) == Some(q);
                            if j < i {
                                assert(before.contains_key(q));
                            }
                        }
                    }
                }
            },
            None => {
                proof {
                    assert forall|q: i64| #[trigger] result@.contains_key(q) implies sorted_listing(
                        result@[q]@,
                        children_in(m, o, keys@.take(i + 1).to_set(), q),
                    ) by {
                        assert(children_in(m, o, keys@.take(i + 1).to_set(), q) =~= children_in(m, o, keys@.take(i as int).to_set(), q));
                    }
                    assert forall|q: i64| #[trigger] result@.contains_key(q) <==> exists|j: int|
                        0 <= j < i + 1 && parent_via(m, o, #[trigger] keys@[j]) == Some(q) by {
                        if exists|j: int| 0 <= j < i + 1 && parent_via(m, o, #[trigger] keys@[j]) == Some(q) {
                            let j = choose|j: int| 0 <= j < i + 1 && parent_via(m, o, #[trigger] keys@[j]) == Some(q);
                            if j < i {
                                assert(before.contains_key(q));
                            }
                        }
                    }
                }
            },
        }
        i = i + 1;
    }
    proof {
        assert(keys@.take(keys@.len() as int) =~= keys@);
        assert forall|p: i64| #[trigger] result@.contains_key(p) <==> exists|c: i64| #[trigger]
            m.contains_key(c) && parent_via(m, o, c) == Some(p) by {
            if exists|c: i64| #[trigger] m.contains_key(c) && parent_via(m, o, c) == Some(p) {
                let c = choose|c: i64| #[trigger] m.contains_key(c) && parent_via(m, o, c) == Some(p);
                assert(keys@.to_set().contains(c));
                assert(keys@.contains(c));
                let j = choose|j: int| 0 <= j < keys@.len() && keys@[j] == c;
                assert(parent_via(m, o, keys@[j]) == Some(p));
            }
            if result@.contains_key(p) {
                let j = choose|j: int| 0 <= j < keys@.len() && parent_via(m, o, #[trigger] keys@[j]) == Some(p);
                assert(keys@.contains(keys@[j]));
                assert(m.contains_key(keys@[j]));
            }
        }
        assert forall|p: i64| #[trigger] result@.contains_key(p) implies sorted_listing(
            result@[p]@,
            children_in(m, o, m.dom(), p),
        ) by {
            assert(children_in(m, o, keys@.to_set(), p) =~= children_in(m, o, m.dom(), p));
        }
        assert(children_lists(m, o, result@));
    }
    result
}

/// The children lists as sequences.
pub open spec fn child_view(children: Map<i64, Vec<i64>>) -> Map<i64, Seq<i64>> {
    children.map_values(|v: Vec<i64>| v@)
}

/// The listed children of `x` (none when it has no list).
pub open spec fn kids(ch: Map<i64, Seq<i64>>, x: i64) -> Seq<i64> {
    if ch.contains_key(x) {
        ch[x]
    } else {
        Seq::empty()
    }
}

/// `rank` strictly decreases from every parent to each listed child, so the
/// lists hold no cycle.
pub open spec fn ranked(ch: Map<i64, Seq<i64>>, rank: spec_fn(i64) -> nat) -> bool {
    forall|p: i64, j: int|
        #![trigger ch[p][j]]
        ch.contains_key(p) && 0 <= j < ch[p].len() ==> rank(ch[p][j]) < rank(p)
}

/// The subtree below `x` in depth-first pre-order: `x`, then each child's
/// subtree in list order.
pub open spec fn preorder(ch: Map<i64, Seq<i64>>, rank: spec_fn(i64) -> nat, x: i64) -> Seq<i64>
    decreases rank(x) + 1, 0nat,
{
    seq![x] + forest(ch, rank, kids(ch, x), rank(x))
}

/// The pre-order subtrees of `xs` in order (those ranked below `bound`).
pub open spec fn forest(ch: Map<i64, Seq<i64>>, rank: spec_fn(i64) -> nat, xs: Seq<i64>, bound: nat) -> Seq<
    i64,
>
    decreases bound, xs.len(),
{
    if xs.len() == 0 {
        Seq::empty()
    } else {
        (if rank(xs[0]) < bound {
            preorder(ch, rank, xs[0])
        } else {
            Seq::empty()
        }) + forest(ch, rank, xs.drop_first(), bound)
    }
}

/// What a traversal stack still yields: the subtrees of its entries, top first.
pub open spec fn stack_yield(ch: Map<i64, Seq<i64>>, rank: spec_fn(i64) -> nat, st: Seq<i64>) -> Seq<
    i64,
>
    decreases st.len(),
{
    if st.len() == 0 {
        Seq::empty()
    } else {
        preorder(ch, rank, st.last()) + stack_yield(ch, rank, st.drop_last())
    }
}

/// Pushing children in reverse order makes the first child yield first.
proof fn lemma_stack_push_children(
    ch: Map<i64, Seq<i64>>,
    rank: spec_fn(i64) -> nat,
    s: Seq<i64>,
    k: Seq<i64>,
    bound: nat,
)
    requires
        forall|i: int| 0 <= i < k.len() ==> rank(#[trigger] k[i]) < bound,
    ensures
        stack_yield(ch, rank, s + k.reverse()) == forest(ch, rank, k, bound) + stack_yield(ch, rank, s),
    decreases k.len(),
{
    if k.len() == 0 {
        assert(s + k.reverse() =~= s);
    } else {
        let rest = k.drop_first();
        lemma_stack_push_children(ch, rank, s, rest, bound);
        assert(k.reverse() =~= rest.reverse().push(k[0]));
        assert(s + k.reverse() =~= (s + rest.reverse()).push(k[0]));
        assert((s + k.reverse()).drop_last() =~= s + rest.reverse());
        assert(rank(k[0]) < bound);
        assert(forest(ch, rank, k, bound) == preorder(ch, rank, k[0]) + forest(ch, rank, rest, bound));
        assert(stack_yield(ch, rank, s + k.reverse()) =~= preorder(ch, rank, k[0]) + (forest(
            ch,
            rank,
            rest,
            bound,
        ) + stack_yield(ch, rank, s)));
    }
}

/// Pre-order does not depend on which cycle-excluding rank is used.
proof fn lemma_preorder_rank_free(
    ch: Map<i64, Seq<i64>>,
    r1: spec_fn(i64) -> nat,
    r2: spec_fn(i64) -> nat,
    x: i64,
)
    requires
        ranked(ch, r1),
        ranked(ch, r2),
    ensures
        preorder(ch, r1, x) == preorder(ch, r2, x),
    decreases r1(x) + 1, 0nat,
{
    let k = kids(ch, x);
    assert forall|i: int| 0 <= i < k.len() implies r1(#[trigger] k[i]) < r1(x) && r2(k[i]) < r2(x) by {
        assert(ch[x][i] == k[i]);
    }
    lemma_forest_rank_free(ch, r1, r2, k, r1(x), r2(x));
}

/// Forests agree under two cycle-excluding ranks.
proof fn lemma_forest_rank_free(
    ch: Map<i64, Seq<i64>>,
    r1: spec_fn(i64) -> nat,
    r2: spec_fn(i64) -> nat,
    xs: Seq<i64>,
    b1: nat,
    b2: nat,
)
    requires
        ranked(ch, r1),
        ranked(ch, r2),
        forall|i: int| 0 <= i < xs.len() ==> r1(#[trigger] xs[i]) < b1 && r2(xs[i]) < b2,
    ensures
        forest(ch, r1, xs, b1) == forest(ch, r2, xs, b2),
    decreases b1, xs.len(),
{
    if xs.len() > 0 {
        assert(r1(xs[0]) < b1 && r2(xs[0]) < b2);
        lemma_preorder_rank_free(ch, r1, r2, xs[0]);
        assert forall|i: int| 0 <= i < xs.drop_first().len() implies r1(#[trigger] xs.drop_first()[i])
            < b1 && r2(xs.drop_first()[i]) < b2 by {
            assert(xs.drop_first()[i] == xs[i + 1]);
        }
        lemma_forest_rank_free(ch, r1, r2, xs.drop_first(), b1, b2);
    }
}

/// The subtree rooted at `root_hash` in depth-first pre-order, children in
/// list order. The lists must hold no cycle (the traversal would not end).
pub fn collect_site_subtree_hashes(root_hash: i64, children_by_parent: &HashMap<i64, Vec<i64>>) -> (r:
    Vec<i64>)
    requires
        exists|rank: spec_fn(i64) -> nat| ranked(child_view(children_by_parent@), rank),
    ensures
        forall|rank: spec_fn(i64) -> nat|
            ranked(child_view(children_by_parent@), rank) ==> r@ == preorder(
                child_view(children_by_parent@),
                rank,
                root_hash,
            ),
{
    let ghost ch = child_view(children_by_parent@);
    let ghost rank = choose|rank: spec_fn(i64) -> nat| ranked(child_view(children_by_parent@), rank);
    let ghost whole = preorder(ch, rank, root_hash);
    let mut ordered: Vec<i64> = Vec::new();
    let mut stack: Vec<i64> = Vec::new();
    stack.push(root_hash);
    proof {
        assert(stack@.drop_last() =~= Seq::<i64>::empty());
        assert(stack@.last() == root_hash);
        assert(stack_yield(ch, rank, stack@.drop_last()) == Seq::<i64>::empty());
        assert(stack_yield(ch, rank, stack@) == preorder(ch, rank, root_hash) + stack_yield(
            ch,
            rank,
            stack@.drop_last(),
        ));
        assert(ordered@ + stack_yield(ch, rank, stack@) =~= whole);
    }
    while stack.len() > 0
        invariant
            ch == child_view(children_by_parent@),
            ranked(ch, rank),
            whole == preorder(ch, rank, root_hash),
            ordered@ + stack_yield(ch, rank, stack@) == whole,
        decreases whole.len() - ordered@.len(),
    {
        let ghost before_stack = stack@;
        let ghost before_ordered = ordered@;
        let x = match stack.pop() {
            Some(x) => x,
            None => {
                return ordered;
            },
        };
        let ghost rest = stack@;
        assert(rest == before_stack.drop_last());
        assert(x == before_stack.last());
        ordered.push(x);
        match children_by_parent.get(&x) {
            Some(list) => {
                let mut j: usize = list.len();
                while j > 0
                    invariant
                        j <= list@.len(),
                        stack@ == rest + list@.subrange(j as int, list@.len() as int).reverse(),
                    decreases j,
                {
                    j = j - 1;
                    stack.push(list[j]);
                    assert(list@.subrange(j as int, list@.len() as int).reverse() =~= list@.subrange(
                        j + 1,
                        list@.len() as int,
                    ).reverse().push(list@[j as int]));
                }
                assert(list@.subrange(0, list@.len() as int) =~= list@);
                assert(kids(ch, x) == list@);
            },
            None => {
                assert(kids(ch, x) =~= Seq::<i64>::empty());
                assert(stack@ =~= rest + kids(ch, x).reverse());
            },
        }
        proof {
            let k = kids(ch, x);
            assert(stack@ =~= rest + k.reverse());
            assert forall|i: int| 0 <= i < k.len() implies rank(#[trigger] k[i]) < rank(x) by {
                assert(ch[x][i] == k[i]);
            }
            lemma_stack_push_children(ch, rank, rest, k, rank(x));
            assert(stack_yield(ch, rank, before_stack) == preorder(ch, rank, x) + stack_yield(
                ch,
                rank,
                rest,
            ));
            assert(ordered@ + stack_yield(ch, rank, stack@) =~= before_ordered + stack_yield(
                ch,
                rank,
                before_stack,
            ));
        }
    }
    proof {
        assert(stack@.len() == 0);
        assert(ordered@ =~= whole);
        assert forall|rank2: spec_fn(i64) -> nat| ranked(ch, rank2) implies ordered@ == preorder(
            ch,
            rank2,
            root_hash,
        ) by {
            lemma_preorder_rank_free(ch, rank, rank2, root_hash);
        }
    }
    ordered
}

/// `rank` strictly decreases from every site to its parent, so parent chains end.
pub open spec fn parents_ranked(parents: Map<i64, Option<i64>>, rank: spec_fn(i64) -> nat) -> bool {
    forall|s: i64| #[trigger]
        parents.contains_key(s) && parents[s] is Some ==> rank(parents[s]->0) < rank(s)
}

/// The parent recorded for `s`, if any.
pub open spec fn parent_of(parents: Map<i64, Option<i64>>, s: i64) -> Option<i64> {
    if parents.contains_key(s) {
        parents[s]
    } else {
        None
    }
}

/// Number of ancestors of `s`.
pub open spec fn depth(parents: Map<i64, Option<i64>>, rank: spec_fn(i64) -> nat, s: i64) -> nat
    decreases rank(s),
{
    match parent_of(parents, s) {
        Some(p) => if rank(p) < rank(s) {
            1 + depth(parents, rank, p)
        } else {
            0
        },
        None => 0,
    }
}

/// Depth does not depend on which chain-ending rank is used.
proof fn lemma_depth_rank_free(
    parents: Map<i64, Option<i64>>,
    r1: spec_fn(i64) -> nat,
    r2: spec_fn(i64) -> nat,
    s: i64,
)
    requires
        parents_ranked(parents, r1),
        parents_ranked(parents, r2),
    ensures
        depth(parents, r1, s) == depth(parents, r2, s),
    decreases r1(s),
{
    if let Some(p) = parent_of(parents, s) {
        assert(parents.contains_key(s) && parents[s] is Some);
        lemma_depth_rank_free(parents, r1, r2, p);
    }
}

/// `s` and its ancestors along ranked parents.
pub open spec fn ancestors(parents: Map<i64, Option<i64>>, rank: spec_fn(i64) -> nat, s: i64) -> Set<i64>
    decreases rank(s),
{
    match parent_of(parents, s) {
        Some(p) => if rank(p) < rank(s) {
            ancestors(parents, rank, p).insert(s)
        } else {
            set![s]
        },
        None => set![s],
    }
}

/// A site and its ancestors are `depth + 1` distinct members of any set
/// that holds the site and every recorded parent.
proof fn lemma_ancestors(parents: Map<i64, Option<i64>>, rank: spec_fn(i64) -> nat, s: i64, dom: Set<i64>)
    requires
        parents_ranked(parents, rank),
        dom.contains(s),
        forall|x: i64| #[trigger] parents.contains_key(x) && parents[x] is Some ==> dom.contains(parents[x]->0),
    ensures
        ancestors(parents, rank, s).finite(),
        ancestors(parents, rank, s).len() == depth(parents, rank, s) + 1,
        ancestors(parents, rank, s).subset_of(dom),
        forall|a: i64| #[trigger] ancestors(parents, rank, s).contains(a) ==> rank(a) <= rank(s),
    decreases rank(s),
{
    match parent_of(parents, s) {
        Some(p) => {
            assert(parents.contains_key(s) && parents[s] is Some);
            assert(rank(p) < rank(s));
            lemma_ancestors(parents, rank, p, dom);
            assert(!ancestors(parents, rank, p).contains(s));
        },
        None => {
            assert(set![s].len() == 1) by {
                assert(set![s] =~= Set::<i64>::empty().insert(s));
            }
        },
    }
}

/// The children lists of an acyclic site tree hold no cycle: going down a
/// list strictly lowers the room left below the site count.
proof fn lemma_children_ranked(
    sites: Map<i64, BakeryCommands>,
    owner: Map<u64, i64>,
    children: Map<i64, Vec<i64>>,
    rank: spec_fn(i64) -> nat,
)
    requires
        sites.dom().finite(),
        owner_index_valid(sites, owner),
        children_lists(sites, owner, children),
        parents_ranked(parent_map(sites, owner), rank),
    ensures
        exists|r: spec_fn(i64) -> nat| ranked(child_view(children), r),
{
    let pm = parent_map(sites, owner);
    let n = sites.dom().len();
    let r = |x: i64| (n - depth(pm, rank, x)) as nat;
    assert forall|x: i64| #[trigger] pm.contains_key(x) && pm[x] is Some implies sites.dom().contains(pm[x]->0) by {
        let c = sites[x];
        if let BakeryCommands::AddSite { parent_class_id, up_parent_class_id, .. } = c {
            let k = pair_key(parent_class_id, up_parent_class_id);
            assert(owner.contains_key(k));
        }
    }
    let ch = child_view(children);
    assert forall|p: i64, j: int| #![trigger ch[p][j]] ch.contains_key(p) && 0 <= j < ch[p].len() implies r(
        ch[p][j],
    ) < r(p) by {
        let c = ch[p][j];
        assert(children[p]@[j] == c);
        assert(children[p]@.to_set().contains(c));
        assert(children_in(sites, owner, sites.dom(), p).contains(c));
        assert(parent_via(sites, owner, c) == Some(p));
        assert(pm.contains_key(c) && pm[c] is Some);
        assert(rank(p) < rank(c));
        assert(parent_of(pm, c) == Some(p));
        assert(depth(pm, rank, c) == 1 + depth(pm, rank, p));
        lemma_ancestors(pm, rank, c, sites.dom());
        vstd::set_lib::lemma_len_subset(ancestors(pm, rank, c), sites.dom());
    }
    assert(ranked(ch, r));
}

/// The site `root` and every site below it, in depth-first pre-order (each
/// parent before its children, children in increasing hash order). The
/// site tree must hold no cycle.
pub fn site_subtree_hashes(root: i64, sites: &HashMap<i64, BakeryCommands>) -> (r: Vec<i64>)
    requires
        crate::subtree_prune::prune_sites_acyclic(sites@),
    ensures
        exists|owner: Map<u64, i64>, children: Map<i64, Vec<i64>>|
            {
                &&& owner_index_valid(sites@, owner)
                &&& children_lists(sites@, owner, children)
                &&& exists|rank: spec_fn(i64) -> nat| ranked(child_view(children), rank)
                &&& forall|rank: spec_fn(i64) -> nat|
                    ranked(child_view(children), rank) ==> r@ == preorder(child_view(children), rank, root)
            },
{
    let children = direct_child_sites_by_parent(sites);
    proof {
        let owner = choose|owner: Map<u64, i64>| owner_index_valid(sites@, owner) && children_lists(
            sites@,
            owner,
            children@,
        );
        let rank = choose|rank: spec_fn(i64) -> nat| parents_ranked(parent_map(sites@, owner), rank);
        lemma_children_ranked(sites@, owner, children@, rank);
    }
    collect_site_subtree_hashes(root, &children)
}

/// The number of ancestors of a site, following recorded parents. The parent
/// records must hold no cycle (the walk would not end).
pub fn site_descendant_depth(site_hash: i64, parents: &HashMap<i64, Option<i64>>) -> (r: usize)
    requires
        exists|rank: spec_fn(i64) -> nat| parents_ranked(parents@, rank),
    ensures
        forall|rank: spec_fn(i64) -> nat| parents_ranked(parents@, rank) ==> r == depth(parents@, rank, site_hash),
{
    let ghost pm = parents@;
    let ghost rank = choose|rank: spec_fn(i64) -> nat| parents_ranked(parents@, rank);
    let total = parents.len();
    assert(total == pm.dom().len());
    let mut count: usize = 0;
    let mut current: Option<i64> = match parents.get(&site_hash) {
        Some(p) => *p,
        None => None,
    };
    let ghost mut node: i64 = site_hash;
    let ghost mut visited: Set<i64> = Set::empty();
    assert(current == parent_of(pm, site_hash));
    while current.is_some()
        invariant
            pm == parents@,
            parents_ranked(pm, rank),
            total == pm.dom().len(),
            current == parent_of(pm, node),
            count + depth(pm, rank, node) == depth(pm, rank, site_hash),
            visited.finite(),
            visited.subset_of(pm.dom()),
            count == visited.len(),
            forall|v: i64| #[trigger] visited.contains(v) ==> rank(v) > rank(node),
        decreases match current {
            Some(c) => rank(c) + 1,
            None => 0,
        },
    {
        if let Some(p) = current {
            proof {
                assert(pm.contains_key(node) && pm[node] is Some);
                assert(rank(p) < rank(node));
                assert(!visited.contains(node));
                vstd::set_lib::lemma_len_subset(visited.insert(node), pm.dom());
                visited = visited.insert(node);
                node = p;
            }
            count = count + 1;
            current = match parents.get(&p) {
                Some(q) => *q,
                None => None,
            };
        }
    }
    proof {
        assert forall|rank2: spec_fn(i64) -> nat| parents_ranked(pm, rank2) implies count == depth(
            pm,
            rank2,
            site_hash,
        ) by {
            lemma_depth_rank_free(pm, rank, rank2, site_hash);
        }
    }
    count
}

/// Each site's parent under an ownership index.
pub open spec fn parent_map(sites: Map<i64, BakeryCommands>, owner: Map<u64, i64>) -> Map<i64, Option<i64>> {
    Map::new(|s: i64| sites.contains_key(s), |s: i64| parent_via(sites, owner, s))
}

/// Prune order: deeper sites first, equal depths by increasing hash.
pub open spec fn prunes_before(da: nat, ha: i64, db: nat, hb: i64) -> bool {
    da > db || (da == db && ha < hb)
}

/// A list in prune order under the given depths.
pub open spec fn prune_ordered(r: Seq<i64>, d: spec_fn(i64) -> nat) -> bool {
    forall|i: int, j: int| 0 <= i < j < r.len() ==> prunes_before(d(#[trigger] r[i]), r[i], d(#[trigger] r[j]), r[j])
}

/// `(depth, hash)` pairs in prune order.
pub open spec fn pairs_ordered(v: Seq<(usize, i64)>) -> bool {
    forall|i: int, j: int|
        0 <= i < j < v.len() ==> prunes_before(
            (#[trigger] v[i]).0 as nat,
            v[i].1,
            (#[trigger] v[j]).0 as nat,
            v[j].1,
        )
}

/// The hashes of a list of pairs.
pub open spec fn pair_hashes(v: Seq<(usize, i64)>) -> Seq<i64> {
    v.map_values(|p: (usize, i64)| p.1)
}

/// Inserts a pair into a prune-ordered list that does not hold its hash.
fn insert_prune_ordered(v: &mut Vec<(usize, i64)>, x: (usize, i64))
    requires
        pairs_ordered(old(v)@),
        !pair_hashes(old(v)@).contains(x.1),
    ensures
        pairs_ordered(final(v)@),
        final(v)@.len() == old(v)@.len() + 1,
        final(v)@.to_set() == old(v)@.to_set().insert(x),
        pair_hashes(final(v)@).to_set() == pair_hashes(old(v)@).to_set().insert(x.1),
{
    let ghost before = v@;
    let mut idx: usize = 0;
    while idx < v.len() && prunes_before_exec(v[idx], x)
        invariant
            v@ == before,
            idx <= v@.len(),
            forall|k: int| 0 <= k < idx ==> prunes_before(v@[k].0 as nat, v@[k].1, x.0 as nat, x.1),
        decreases v.len() - idx,
    {
        idx = idx + 1;
    }
    proof {
        if idx < before.len() {
            assert(before[idx as int].1 != x.1) by {
                assert(pair_hashes(before)[idx as int] == before[idx as int].1);
            }
        }
    }
    v.insert(idx, x);
    proof {
        assert forall|i: int, j: int| 0 <= i < j < v@.len() implies prunes_before(
            (#[trigger] v@[i]).0 as nat,
            v@[i].1,
            (#[trigger] v@[j]).0 as nat,
            v@[j].1,
        ) by {
            if j < idx {
                assert(v@[i] == before[i] && v@[j] == before[j]);
            } else if j == idx {
                assert(v@[i] == before[i]);
            } else if i < idx {
                assert(v@[i] == before[i] && v@[j] == before[j - 1]);
                assert(prunes_before(before[idx as int].0 as nat, before[idx as int].1, before[j - 1].0 as nat, before[j - 1].1) || idx == j - 1);
            } else if i == idx {
                assert(v@[j] == before[j - 1]);
                if j - 1 > idx {
                    assert(prunes_before(before[idx as int].0 as nat, before[idx as int].1, before[j - 1].0 as nat, before[j - 1].1));
                }
            } else {
                assert(v@[i] == before[i - 1] && v@[j] == before[j - 1]);
            }
        }
        assert forall|y: (usize, i64)| #[trigger] v@.to_set().contains(y) <==> before.to_set().insert(x).contains(y) by {
            if v@.contains(y) {
                let k = choose|k: int| 0 <= k < v@.len() && v@[k] == y;
                if k < idx {
                    assert(before[k] == y);
                } else if k > idx {
                    assert(before[k - 1] == y);
                }
            }
            if before.contains(y) {
                let k = choose|k: int| 0 <= k < before.len() && before[k] == y;
                if k < idx {
                    assert(v@[k] == y);
                } else {
                    assert(v@[k + 1] == y);
                }
            }
            if y == x {
                assert(v@[idx as int] == x);
            }
        }
        assert(v@.to_set() =~= before.to_set().insert(x));
        assert forall|h: i64| #[trigger] pair_hashes(v@).to_set().contains(h) <==> pair_hashes(before).to_set().insert(x.1).contains(h) by {
            if pair_hashes(v@).contains(h) {
                let k = choose|k: int| 0 <= k < v@.len() && pair_hashes(v@)[k] == h;
                if k < idx {
                    assert(pair_hashes(before)[k] == h);
                } else if k > idx {
                    assert(pair_hashes(before)[k - 1] == h);
                }
            }
            if pair_hashes(before).contains(h) {
                let k = choose|k: int| 0 <= k < before.len() && pair_hashes(before)[k] == h;
                if k < idx {
                    assert(pair_hashes(v@)[k] == h);
                } else {
                    assert(pair_hashes(v@)[k + 1] == h);
                }
            }
            if h == x.1 {
                assert(pair_hashes(v@)[idx as int] == h);
            }
        }
        assert(pair_hashes(v@).to_set() =~= pair_hashes(before).to_set().insert(x.1));
    }
}

/// Whether `a` comes before `b` in prune order.
fn prunes_before_exec(a: (usize, i64), b: (usize, i64)) -> (r: bool)
    ensures
        r == prunes_before(a.0 as nat, a.1, b.0 as nat, b.1),
{
    a.0 > b.0 || (a.0 == b.0 && a.1 < b.1)
}

/// The hashes of sites to prune, children before their parents: deeper sites
/// first, equal depths by increasing hash. The parent relation (one site's
/// class handles being another's parents) must hold no cycle.
pub fn ordered_prune_site_hashes(prune_sites: &HashMap<i64, BakeryCommands>) -> (r: Vec<i64>)
    requires
        forall|owner: Map<u64, i64>|
            owner_index_valid(prune_sites@, owner) ==> exists|rank: spec_fn(i64) -> nat|
                parents_ranked(parent_map(prune_sites@, owner), rank),
    ensures
        r@.no_duplicates(),
        r@.to_set() == prune_sites@.dom(),
        exists|owner: Map<u64, i64>|
            owner_index_valid(prune_sites@, owner) && forall|rank: spec_fn(i64) -> nat|
                parents_ranked(parent_map(prune_sites@, owner), rank) ==> prune_ordered(
                    r@,
                    |s: i64| depth(parent_map(prune_sites@, owner), rank, s),
                ),
{
    let owner = site_owner_index(prune_sites);
    let ghost o = owner@;
    let ghost m = prune_sites@;
    let ghost pm = parent_map(m, o);
    let keys = map_keys(prune_sites);
    let mut parents: HashMap<i64, Option<i64>> = HashMap::new();
    let mut i: usize = 0;
    while i < keys.len()
        invariant
            m == prune_sites@,
            o == owner@,
            pm == parent_map(m, o),
            i <= keys@.len(),
            keys@.to_set() == m.dom(),
            parents@.dom() == keys@.take(i as int).to_set(),
            forall|s: i64| #[trigger] parents@.contains_key(s) ==> parents@[s] == parent_via(m, o, s),
        decreases keys@.len() - i,
    {
        let s = keys[i];
        let p = site_parent_hash(s, prune_sites, &owner);
        parents.insert(s, p);
        proof {
            assert(keys@.take(i + 1) =~= keys@.take(i as int).push(s));
            assert forall|x: i64| #[trigger] keys@.take(i + 1).to_set().contains(x)
                <==> keys@.take(i as int).to_set().insert(s).contains(x) by {
                lemma_push_contains(keys@.take(i as int), s, x);
            }
            assert(parents@.dom() =~= keys@.take(i + 1).to_set());
        }
        i = i + 1;
    }
    proof {
        assert(keys@.take(keys@.len() as int) =~= keys@);
        assert(parents@ =~= pm);
    }
    let ghost rank = choose|rank: spec_fn(i64) -> nat| parents_ranked(pm, rank);
    let mut pairs: Vec<(usize, i64)> = Vec::new();
    let mut j: usize = 0;
    proof {
        assert(pair_hashes(pairs@).to_set() =~= keys@.take(0).to_set());
    }
    while j < keys.len()
        invariant
            pm == parents@,
            parents_ranked(pm, rank),
            j <= keys@.len(),
            keys@.no_duplicates(),
            pairs_ordered(pairs@),
            pairs@.len() == j,
            pair_hashes(pairs@).to_set() == keys@.take(j as int).to_set(),
            forall|k: int| 0 <= k < pairs@.len() ==> (#[trigger] pairs@[k]).0 == depth(pm, rank, pairs@[k].1),
        decreases keys@.len() - j,
    {
        let s = keys[j];
        let d = site_descendant_depth(s, &parents);
        assert(d == depth(pm, rank, s));
        proof {
            assert(!pair_hashes(pairs@).contains(s)) by {
                if pair_hashes(pairs@).contains(s) {
                    assert(pair_hashes(pairs@).to_set().contains(s));
                    assert(keys@.take(j as int).contains(s));
                    let x = choose|x: int| 0 <= x < j && #[trigger] keys@.take(j as int)[x] == s;
                    assert(keys@[x] == keys@[j as int]);
                }
            }
        }
        let ghost before = pairs@;
        insert_prune_ordered(&mut pairs, (d, s));
        proof {
            assert forall|k: int| 0 <= k < pairs@.len() implies (#[trigger] pairs@[k]).0 == depth(pm, rank, pairs@[k].1) by {
                assert(pairs@.contains(pairs@[k]));
                assert(pairs@.to_set().contains(pairs@[k]));
                if pairs@[k] != (d, s) {
                    assert(before.to_set().contains(pairs@[k]));
                    assert(before.contains(pairs@[k]));
                    let q = choose|q: int| 0 <= q < before.len() && before[q] == pairs@[k];
                    assert(before[q].0 == depth(pm, rank, before[q].1));
                }
            }
            assert(keys@.take(j + 1) =~= keys@.take(j as int).push(s));
            assert forall|x: i64| #[trigger] keys@.take(j + 1).to_set().contains(x)
                <==> keys@.take(j as int).to_set().insert(s).contains(x) by {
                lemma_push_contains(keys@.take(j as int), s, x);
            }
            assert(pair_hashes(pairs@).to_set() =~= keys@.take(j + 1).to_set());
        }
        j = j + 1;
    }
    let mut out: Vec<i64> = Vec::new();
    let mut k: usize = 0;
    while k < pairs.len()
        invariant
            k <= pairs@.len(),
            out@ == pair_hashes(pairs@).take(k as int),
        decreases pairs@.len() - k,
    {
        out.push(pairs[k].1);
        assert(out@ =~= pair_hashes(pairs@).take(k + 1));
        k = k + 1;
    }
    proof {
        assert(out@ =~= pair_hashes(pairs@));
        assert(keys@.take(keys@.len() as int) =~= keys@);
        keys@.unique_seq_to_set();
        out@.lemma_no_dup_set_cardinality();
        assert forall|rank2: spec_fn(i64) -> nat| parents_ranked(pm, rank2) implies prune_ordered(
            out@,
            |s: i64| depth(pm, rank2, s),
        ) by {
            assert forall|a: int, b: int| 0 <= a < b < out@.len() implies prunes_before(
                depth(pm, rank2, #[trigger] out@[a]),
                out@[a],
                depth(pm, rank2, #[trigger] out@[b]),
                out@[b],
            ) by {
                lemma_depth_rank_free(pm, rank, rank2, out@[a]);
                lemma_depth_rank_free(pm, rank, rank2, out@[b]);
                assert(out@[a] == pairs@[a].1 && out@[b] == pairs@[b].1);
            }
        }
    }
    out
}

/// Circuits attached directly beneath any of the listed sites (those present),
/// in increasing order.
pub open spec fn attached_circuits(
    circuits: Map<i64, BakeryCommands>,
    sites: Map<i64, BakeryCommands>,
    site_hashes: Seq<i64>,
) -> Set<i64> {
    circuits.dom().filter(
        |c: i64|
            match circuits[c] {
                BakeryCommands::AddCircuit { parent_class_id, up_parent_class_id, .. } => exists|i: int|
                    0 <= i < site_hashes.len() && sites.contains_key(#[trigger] site_hashes[i])
                        && site_key(sites[site_hashes[i]]) == Some(
                        pair_key(parent_class_id, up_parent_class_id),
                    ),
                _ => false,
            },
    )
}

/// The circuits attached directly beneath the listed sites, in increasing order.
pub fn collect_circuits_attached_to_sites(
    circuits: &HashMap<i64, BakeryCommands>,
    sites: &HashMap<i64, BakeryCommands>,
    site_hashes: &Vec<i64>,
) -> (r: Vec<i64>)
    ensures
        sorted_listing(r@, attached_circuits(circuits@, sites@, site_hashes@)),
{
    let mut handles: std::collections::HashSet<u64> = std::collections::HashSet::new();
    let mut i: usize = 0;
    while i < site_hashes.len()
        invariant
            i <= site_hashes@.len(),
            forall|k: u64| #[trigger] handles@.contains(k) <==> exists|j: int|
                0 <= j < i && sites@.contains_key(#[trigger] site_hashes@[j]) && site_key(
                    sites@[site_hashes@[j]],
                ) == Some(k),
        decreases site_hashes@.len() - i,
    {
        let ghost before = handles@;
        match sites.get(&site_hashes[i]) {
            Some(site) => match site_class_handles(site) {
                Some((down, up)) => {
                    handles.insert(handle_pair_key(down, up));
                },
                None => {},
            },
            None => {},
        }
        proof {
            assert forall|k: u64| #[trigger] handles@.contains(k) <==> exists|j: int|
                0 <= j < i + 1 && sites@.contains_key(#[trigger] site_hashes@[j]) && site_key(
                    sites@[site_hashes@[j]],
                ) == Some(k) by {
                if handles@.contains(k) && !before.contains(k) {
                    assert(sites@.contains_key(site_hashes@[i as int]));
                }
                if exists|j: int|
                    0 <= j < i + 1 && sites@.contains_key(#[trigger] site_hashes@[j]) && site_key(
                        sites@[site_hashes@[j]],
                    ) == Some(k) {
                    let j = choose|j: int|
                        0 <= j < i + 1 && sites@.contains_key(#[trigger] site_hashes@[j]) && site_key(
                            sites@[site_hashes@[j]],
                        ) == Some(k);
                    if j == i {
                        assert(handles@.contains(k));
                    }
                }
            }
        }
        i = i + 1;
    }
    let keys = map_keys(circuits);
    let ghost cm = circuits@;
    let ghost target = attached_circuits(circuits@, sites@, site_hashes@);
    let mut out: Vec<i64> = Vec::new();
    let mut j: usize = 0;
    while j < keys.len()
        invariant
            cm == circuits@,
            target == attached_circuits(circuits@, sites@, site_hashes@),
            j <= keys@.len(),
            keys@.no_duplicates(),
            keys@.to_set() == cm.dom(),
            forall|k: u64| #[trigger] handles@.contains(k) <==> exists|x: int|
                0 <= x < site_hashes@.len() && sites@.contains_key(#[trigger] site_hashes@[x])
                    && site_key(sites@[site_hashes@[x]]) == Some(k),
            strictly_sorted(out@),
            out@.to_set() == keys@.take(j as int).to_set().filter(|c: i64| target.contains(c)),
        decreases keys@.len() - j,
    {
        let c = keys[j];
        proof {
            assert(keys@.to_set().contains(c)) by {
                assert(keys@.contains(c));
            }
            assert(keys@.take(j + 1) =~= keys@.take(j as int).push(c));
            assert forall|x: i64| #[trigger] keys@.take(j + 1).to_set().contains(x)
                <==> keys@.take(j as int).to_set().insert(c).contains(x) by {
                lemma_push_contains(keys@.take(j as int), c, x);
            }
            assert(keys@.take(j + 1).to_set() =~= keys@.take(j as int).to_set().insert(c));
            assert(!keys@.take(j as int).contains(c)) by {
                if keys@.take(j as int).contains(c) {
                    let x = choose|x: int| 0 <= x < j && #[trigger] keys@.take(j as int)[x] == c;
                    assert(keys@[x] == keys@[j as int]);
                }
            }
        }
        let hit = match circuits.get(&c) {
            Some(cmd) => {
                assert(*cmd == cm[c]);
                match cmd {
                    BakeryCommands::AddCircuit { parent_class_id, up_parent_class_id, .. } => {
                        handles.contains(&handle_pair_key(*parent_class_id, *up_parent_class_id))
                    },
                    _ => false,
                }
            },
            None => false,
        };
        assert(hit == target.contains(c));
        if hit {
            proof {
                assert(!out@.contains(c)) by {
                    if out@.contains(c) {
                        assert(out@.to_set().contains(c));
                    }
                }
            }
            sorted_insert(&mut out, c);
            proof {
                assert(keys@.take(j + 1).to_set().filter(|x: i64| target.contains(x))
                    =~= keys@.take(j as int).to_set().filter(|x: i64| target.contains(x)).insert(c));
            }
        } else {
            proof {
                assert(keys@.take(j + 1).to_set().filter(|x: i64| target.contains(x))
                    =~= keys@.take(j as int).to_set().filter(|x: i64| target.contains(x)));
            }
        }
        j = j + 1;
    }
    proof {
        assert(keys@.take(keys@.len() as int) =~= keys@);
        assert(keys@.to_set().filter(|x: i64| target.contains(x)) =~= target);
    }
    out
}

/// The hashes of circuits to prune, in increasing order.
pub fn ordered_prune_circuit_hashes(prune_circuits: &HashMap<i64, BakeryCommands>) -> (r: Vec<i64>)
    ensures
        sorted_listing(r@, prune_circuits@.dom()),
{
    crate::runtime::sorted_keys(prune_circuits)
}

/// Every site map has an ownership index.
pub proof fn lemma_owner_index_exists(sites: Map<i64, BakeryCommands>)
    ensures
        exists|owner: Map<u64, i64>| owner_index_valid(sites, owner),
{
    let owner = Map::new(
        |k: u64| exists|s: i64| #[trigger] sites.contains_key(s) && site_key(sites[s]) == Some(k),
        |k: u64| choose|s: i64| #[trigger] sites.contains_key(s) && site_key(sites[s]) == Some(k),
    );
    assert(owner_index_valid(sites, owner));
}

/// Sites directly beneath `p`.
pub open spec fn child_site_count(sites: Map<i64, BakeryCommands>, owner: Map<u64, i64>, p: i64) -> nat {
    children_in(sites, owner, sites.dom(), p).len()
}

/// Circuits directly beneath a site's own classes.
pub open spec fn direct_circuit_count(circuits: Map<i64, BakeryCommands>, site: BakeryCommands) -> nat {
    match site_handles_of(site) {
        Some(h) => circuits.dom().filter(
            |k: i64| crate::site_tree::circuit_under(circuits[k], h.0, h.1),
        ).len(),
        None => 0,
    }
}

/// Why a top-level site cannot be runtime-virtualized, given its direct child
/// sites and circuits, if it cannot.
pub open spec fn top_level_error(
    site_hash: i64,
    target: BakeryCommands,
    children: nat,
    direct: nat,
) -> Option<(Seq<char>, Option<crate::commands::RuntimeNodeOperationFailureReason>)> {
    if !crate::site_tree::is_top_level_site(target) {
        Some(
            (
                "Site "@ + crate::text::dec_int(site_hash as int)
                    + " is not top-level and cannot use the top-level runtime virtualization path"@,
                None,
            ),
        )
    } else if children == 0 && direct == 0 {
        Some(
            (
                "Site "@ + crate::text::dec_int(site_hash as int)
                    + " has no direct child sites or direct circuits to promote safely"@,
                Some(
                    crate::commands::RuntimeNodeOperationFailureReason::StructuralIneligibleNoPromotableChildren,
                ),
            ),
        )
    } else if children + direct < 2 {
        Some(
            (
                "Site "@ + crate::text::dec_int(site_hash as int)
                    + " has only one promotable direct child, so top-level runtime virtualization would not produce a deterministic v1 split point"@,
                Some(
                    crate::commands::RuntimeNodeOperationFailureReason::StructuralIneligibleSinglePromotableChild,
                ),
            ),
        )
    } else {
        None
    }
}

/// Builds `Site <hash><rest>`.
fn site_message(site_hash: i64, rest: &str) -> (r: String)
    ensures
        r@ == "Site "@ + crate::text::dec_int(site_hash as int) + rest@,
{
    let mut s = crate::text::owned("Site ");
    let h = crate::text::dec_string_i64(site_hash);
    crate::text::append_str(&mut s, h.as_str());
    crate::text::append_str(&mut s, rest);
    s
}

/// Why a top-level site cannot be runtime-virtualized, if it cannot: it is not
/// top-level, or it has fewer than two promotable direct children (child sites
/// plus direct circuits) to split at.
pub fn top_level_runtime_virtualization_eligibility_error(
    site_hash: i64,
    target_site: &BakeryCommands,
    sites: &HashMap<i64, BakeryCommands>,
    circuits: &HashMap<i64, BakeryCommands>,
) -> (r: Option<crate::runtime::RuntimeNodeEligibilityError>)
    ensures
        exists|owner: Map<u64, i64>|
            owner_index_valid(sites@, owner) && match top_level_error(
                site_hash,
                *target_site,
                child_site_count(sites@, owner, site_hash),
                direct_circuit_count(circuits@, *target_site),
            ) {
                Some((msg, reason)) => r matches Some(e) && e.message@ == msg && e.failure_reason
                    == reason,
                None => r is None,
            },
{
    if !crate::site_tree::site_is_top_level(target_site) {
        let e = crate::runtime::RuntimeNodeEligibilityError::plain(
            site_message(
                site_hash,
                " is not top-level and cannot use the top-level runtime virtualization path",
            ),
        );
        proof {
            lemma_owner_index_exists(sites@);
        }
        return Some(e);
    }
    if crate::site_tree::current_site_queue(target_site).is_none() {
        let e = crate::runtime::RuntimeNodeEligibilityError::plain(
            site_message(site_hash, " does not have a deterministic current queue assignment"),
        );
        return Some(e);
    }
    let children_by_parent = direct_child_sites_by_parent(sites);
    let ghost owner = choose|owner: Map<u64, i64>|
        owner_index_valid(sites@, owner) && children_lists(sites@, owner, children_by_parent@);
    let child_sites: usize = match children_by_parent.get(&site_hash) {
        Some(children) => children.len(),
        None => 0,
    };
    proof {
        if children_by_parent@.contains_key(site_hash) {
            crate::summary::lemma_listing_len(
                children_by_parent@[site_hash]@,
                children_in(sites@, owner, sites@.dom(), site_hash),
            );
        } else {
            assert(children_in(sites@, owner, sites@.dom(), site_hash) =~= Set::<i64>::empty()) by {
                assert forall|c: i64| !#[trigger] children_in(sites@, owner, sites@.dom(), site_hash).contains(c) by {
                    if children_in(sites@, owner, sites@.dom(), site_hash).contains(c) {
                        assert(sites@.contains_key(c) && parent_via(sites@, owner, c) == Some(site_hash));
                    }
                }
            }
        }
    }
    let direct_circuits: usize = match crate::site_tree::site_class_handles(target_site) {
        Some((down, up)) => {
            let hashes = crate::site_tree::collect_direct_circuit_hashes(circuits, down, up);
            proof {
                crate::summary::lemma_listing_len(
                    hashes@,
                    circuits@.dom().filter(
                        |k: i64| crate::site_tree::circuit_under(circuits@[k], down, up),
                    ),
                );
            }
            hashes.len()
        },
        None => 0,
    };
    if child_sites == 0 && direct_circuits == 0 {
        return Some(
            crate::runtime::RuntimeNodeEligibilityError::new(
                site_message(site_hash, " has no direct child sites or direct circuits to promote safely"),
                crate::commands::RuntimeNodeOperationFailureReason::StructuralIneligibleNoPromotableChildren,
            ),
        );
    }
    if child_sites < 2 && direct_circuits < 2 && child_sites + direct_circuits < 2 {
        return Some(
            crate::runtime::RuntimeNodeEligibilityError::new(
                site_message(
                    site_hash,
                    " has only one promotable direct child, so top-level runtime virtualization would not produce a deterministic v1 split point",
                ),
                crate::commands::RuntimeNodeOperationFailureReason::StructuralIneligibleSinglePromotableChild,
            ),
        );
    }
    None
}

} // verus!
