//! How the shaping tree is spread over the CPU queues: per queue, its sites,
//! top-level sites and circuits, and the circuits' configured maximum rates.
use vstd::prelude::*;
use std::collections::HashMap;
use crate::commands::BakeryCommands;
use crate::maps::{lemma_filter_prefix_ends, lemma_filter_prefix_step, map_keys};
use crate::site_tree::{current_circuit_queue, current_site_queue, is_top_level_site, site_is_top_level};
use crate::summary::{sorted_insert, strictly_sorted};

verus! {

broadcast use vstd::std_specs::hash::group_hash_axioms;

/// The queue a site is placed on: its parent's major.
pub open spec fn site_queue_of(site: BakeryCommands) -> Option<u32> {
    match site {
        BakeryCommands::AddSite { parent_class_id, .. } => Some(parent_class_id.major() as u32),
        _ => None,
    }
}

/// The queue a circuit is placed on: its down class major.
pub open spec fn circuit_queue_of(circuit: BakeryCommands) -> Option<u32> {
    match circuit {
        BakeryCommands::AddCircuit { class_major, .. } => Some(class_major as u32),
        _ => None,
    }
}

/// A circuit's maximum download and upload rates (`f32` bits).
pub open spec fn circuit_max_rates(circuit: BakeryCommands) -> (u32, u32) {
    match circuit {
        BakeryCommands::AddCircuit { download_bandwidth_max, upload_bandwidth_max, .. } => (
            download_bandwidth_max,
            upload_bandwidth_max,
        ),
        _ => (0, 0),
    }
}

/// The sites on queue `q`.
pub open spec fn sites_in_queue(sites: Map<i64, BakeryCommands>, q: u32) -> Set<i64> {
    sites.dom().filter(|id: i64| site_queue_of(sites[id]) == Some(q))
}

/// The top-level sites on queue `q`.
pub open spec fn top_sites_in_queue(sites: Map<i64, BakeryCommands>, q: u32) -> Set<i64> {
    sites.dom().filter(|id: i64| site_queue_of(sites[id]) == Some(q) && is_top_level_site(sites[id]))
}

/// The circuits on queue `q`.
pub open spec fn circuits_in_queue(circuits: Map<i64, BakeryCommands>, q: u32) -> Set<i64> {
    circuits.dom().filter(|id: i64| circuit_queue_of(circuits[id]) == Some(q))
}

/// The queues that hold a site or a circuit.
pub open spec fn used_queues(sites: Map<i64, BakeryCommands>, circuits: Map<i64, BakeryCommands>) -> Set<u32> {
    Set::new(
        |q: u32|
            (exists|id: i64| #[trigger] sites.contains_key(id) && site_queue_of(sites[id]) == Some(q)) || (exists|
                id: i64,
            |
                #[trigger] circuits.contains_key(id) && circuit_queue_of(circuits[id]) == Some(q)),
    )
}

/// One queue's share of the shaping tree.
#[derive(Debug)]
pub struct QueueBucket {
    /// The queue.
    pub queue: u32,
    /// Top-level sites on it.
    pub top_level_site_count: usize,
    /// Sites on it.
    pub site_count: usize,
    /// Circuits on it.
    pub circuit_count: usize,
    /// The circuits' maximum download rates (`f32` bits), one per circuit.
    pub download_rates: Vec<u32>,
    /// The circuits' maximum upload rates (`f32` bits), one per circuit.
    pub upload_rates: Vec<u32>,
}

/// The bucket describes queue `q` exactly.
pub open spec fn bucket_matches(
    b: QueueBucket,
    sites: Map<i64, BakeryCommands>,
    circuits: Map<i64, BakeryCommands>,
) -> bool {
    &&& b.site_count == sites_in_queue(sites, b.queue).len()
    &&& b.top_level_site_count == top_sites_in_queue(sites, b.queue).len()
    &&& b.circuit_count == circuits_in_queue(circuits, b.queue).len()
    &&& exists|ids: Seq<i64>|
        {
            &&& ids.no_duplicates()
            &&& ids.to_set() == circuits_in_queue(circuits, b.queue)
            &&& b.download_rates@ == ids.map_values(|id: i64| circuit_max_rates(circuits[id]).0)
            &&& b.upload_rates@ == ids.map_values(|id: i64| circuit_max_rates(circuits[id]).1)
        }
}

/// The queues that hold a site or a circuit, in increasing order.
fn used_queue_list(
    sites: &HashMap<i64, BakeryCommands>,
    circuits: &HashMap<i64, BakeryCommands>,
) -> (r: Vec<i64>)
    ensures
        strictly_sorted(r@),
        forall|q: i64| #[trigger]
            r@.contains(q) <==> (0 <= q <= u32::MAX && used_queues(sites@, circuits@).contains(q as u32)),
{
    let mut out: Vec<i64> = Vec::new();
    let site_ids = map_keys(sites);
    let mut i: usize = 0;
    while i < site_ids.len()
        invariant
            i <= site_ids@.len(),
            site_ids@.to_set() == sites@.dom(),
            strictly_sorted(out@),
            forall|q: i64| #[trigger]
                out@.contains(q) <==> (0 <= q <= u32::MAX && exists|j: int|
                    0 <= j < i && sites@.contains_key(#[trigger] site_ids@[j]) && site_queue_of(
                        sites@[site_ids@[j]],
                    ) == Some(q as u32)),
        decreases site_ids@.len() - i,
    {
        let id = site_ids[i];
        assert(site_ids@.to_set().contains(id)) by {
            assert(site_ids@.contains(id));
        }
        let ghost before = out@;
        let queue = match sites.get(&id) {
            Some(site) => current_site_queue(site),
            None => None,
        };
        if let Some(q) = queue {
            let qi = q as i64;
            let mut present = false;
            let mut k: usize = 0;
            while k < out.len()
                invariant
                    k <= out@.len(),
                    present <==> exists|t: int| 0 <= t < k && out@[t] == qi,
                decreases out@.len() - k,
            {
                if out[k] == qi {
                    present = true;
                }
                k = k + 1;
            }
            if !present {
                sorted_insert(&mut out, qi);
            }
        }
        proof {
            assert forall|q: i64| #[trigger] out@.contains(q) <==> (0 <= q <= u32::MAX && exists|j: int|
                0 <= j < i + 1 && sites@.contains_key(#[trigger] site_ids@[j]) && site_queue_of(
                    sites@[site_ids@[j]],
                ) == Some(q as u32)) by {
                if out@.contains(q) && !before.contains(q) {
                    assert(out@.to_set().contains(q));
                }
                if before.contains(q) {
                    assert(before.to_set().contains(q));
                    assert(out@.to_set().contains(q));
                }
                if exists|j: int|
                    0 <= j < i + 1 && sites@.contains_key(#[trigger] site_ids@[j]) && site_queue_of(
                        sites@[site_ids@[j]],
                    ) == Some(q as u32) {
                    if 0 <= q <= u32::MAX {
                        let j = choose|j: int|
                            0 <= j < i + 1 && sites@.contains_key(#[trigger] site_ids@[j]) && site_queue_of(
                                sites@[site_ids@[j]],
                            ) == Some(q as u32);
                        if j == i {
                            assert(out@.to_set().contains(q));
                        }
                    }
                }
            }
        }
        i = i + 1;
    }
    let circuit_ids = map_keys(circuits);
    let mut c: usize = 0;
    while c < circuit_ids.len()
        invariant
            c <= circuit_ids@.len(),
            site_ids@.to_set() == sites@.dom(),
            circuit_ids@.to_set() == circuits@.dom(),
            strictly_sorted(out@),
            forall|q: i64| #[trigger]
                out@.contains(q) <==> (0 <= q <= u32::MAX && ((exists|j: int|
                    0 <= j < site_ids@.len() && sites@.contains_key(#[trigger] site_ids@[j]) && site_queue_of(
                        sites@[site_ids@[j]],
                    ) == Some(q as u32)) || (exists|j: int|
                    0 <= j < c && circuits@.contains_key(#[trigger] circuit_ids@[j]) && circuit_queue_of(
                        circuits@[circuit_ids@[j]],
                    ) == Some(q as u32)))),
        decreases circuit_ids@.len() - c,
    {
        let id = circuit_ids[c];
        assert(circuit_ids@.to_set().contains(id)) by {
            assert(circuit_ids@.contains(id));
        }
        let ghost before = out@;
        let queue = match circuits.get(&id) {
            Some(circuit) => current_circuit_queue(circuit),
            None => None,
        };
        if let Some(q) = queue {
            let qi = q as i64;
            let mut present = false;
            let mut k: usize = 0;
            while k < out.len()
                invariant
                    k <= out@.len(),
                    present <==> exists|t: int| 0 <= t < k && out@[t] == qi,
                decreases out@.len() - k,
            {
                if out[k] == qi {
                    present = true;
                }
                k = k + 1;
            }
            if !present {
                sorted_insert(&mut out, qi);
            }
        }
        proof {
            assert forall|q: i64| #[trigger] out@.contains(q) <==> (0 <= q <= u32::MAX && ((exists|j: int|
                0 <= j < site_ids@.len() && sites@.contains_key(#[trigger] site_ids@[j]) && site_queue_of(
                    sites@[site_ids@[j]],
                ) == Some(q as u32)) || (exists|j: int|
                0 <= j < c + 1 && circuits@.contains_key(#[trigger] circuit_ids@[j]) && circuit_queue_of(
                    circuits@[circuit_ids@[j]],
                ) == Some(q as u32)))) by {
                if out@.contains(q) && !before.contains(q) {
                    assert(out@.to_set().contains(q));
                }
                if before.contains(q) {
                    assert(before.to_set().contains(q));
                    assert(out@.to_set().contains(q));
                }
                if exists|j: int|
                    0 <= j < c + 1 && circuits@.contains_key(#[trigger] circuit_ids@[j]) && circuit_queue_of(
                        circuits@[circuit_ids@[j]],
                    ) == Some(q as u32) {
                    if 0 <= q <= u32::MAX {
                        let j = choose|j: int|
                            0 <= j < c + 1 && circuits@.contains_key(#[trigger] circuit_ids@[j]) && circuit_queue_of(
                                circuits@[circuit_ids@[j]],
                            ) == Some(q as u32);
                        if j == c {
                            assert(out@.to_set().contains(q));
                        }
                    }
                }
            }
        }
        c = c + 1;
    }
    proof {
        assert forall|q: i64| #[trigger]
            out@.contains(q) <==> (0 <= q <= u32::MAX && used_queues(sites@, circuits@).contains(q as u32)) by {
            if 0 <= q <= u32::MAX && used_queues(sites@, circuits@).contains(q as u32) {
                if exists|id: i64| #[trigger] sites@.contains_key(id) && site_queue_of(sites@[id]) == Some(q as u32) {
                    let id = choose|id: i64| #[trigger] sites@.contains_key(id) && site_queue_of(sites@[id]) == Some(
                        q as u32,
                    );
                    assert(site_ids@.to_set().contains(id));
                    let j = choose|j: int| 0 <= j < site_ids@.len() && site_ids@[j] == id;
                    assert(sites@.contains_key(site_ids@[j]));
                } else {
                    let id = choose|id: i64| #[trigger] circuits@.contains_key(id) && circuit_queue_of(circuits@[id])
                        == Some(q as u32);
                    assert(circuit_ids@.to_set().contains(id));
                    let j = choose|j: int| 0 <= j < circuit_ids@.len() && circuit_ids@[j] == id;
                    assert(circuits@.contains_key(circuit_ids@[j]));
                }
            }
        }
    }
    out
}

/// The first `i + 1` distinct keys are the first `i` and the next one,
/// which is not among them.
proof fn lemma_take_push_set(keys: Seq<i64>, i: int)
    requires
        keys.no_duplicates(),
        0 <= i < keys.len(),
    ensures
        keys.take(i + 1).to_set() == keys.take(i).to_set().insert(keys[i]),
        !keys.take(i).to_set().contains(keys[i]),
{
    let k = keys[i];
    assert forall|x: i64| #[trigger] keys.take(i + 1).to_set().contains(x) <==> keys.take(i).to_set().insert(
        k,
    ).contains(x) by {
        if keys.take(i + 1).to_set().contains(x) {
            assert(keys.take(i + 1).contains(x));
            let j = choose|j: int| 0 <= j < i + 1 && #[trigger] keys.take(i + 1)[j] == x;
            if j < i {
                assert(keys.take(i)[j] == x);
                assert(keys.take(i).contains(x));
            }
        }
        if keys.take(i).to_set().insert(k).contains(x) {
            if x == k {
                assert(keys.take(i + 1)[i] == k);
                assert(keys.take(i + 1).contains(x));
            } else {
                assert(keys.take(i).contains(x));
                let j = choose|j: int| 0 <= j < i && #[trigger] keys.take(i)[j] == x;
                assert(keys.take(i + 1)[j] == x);
                assert(keys.take(i + 1).contains(x));
            }
        }
    }
    assert(keys.take(i + 1).to_set() =~= keys.take(i).to_set().insert(k));
    if keys.take(i).to_set().contains(k) {
        assert(keys.take(i).contains(k));
        let j = choose|j: int| 0 <= j < i && #[trigger] keys.take(i)[j] == k;
        assert(keys[j] == keys[i]);
    }
}

/// The share of queue `queue`.
fn bucket_for(
    queue: u32,
    sites: &HashMap<i64, BakeryCommands>,
    circuits: &HashMap<i64, BakeryCommands>,
) -> (r: QueueBucket)
    ensures
        r.queue == queue,
        bucket_matches(r, sites@, circuits@),
{
    let ghost sm = sites@;
    let ghost cm = circuits@;
    let ghost site_pred = |id: i64| site_queue_of(sm[id]) == Some(queue);
    let ghost top_pred = |id: i64| site_queue_of(sm[id]) == Some(queue) && is_top_level_site(sm[id]);
    let ghost circuit_pred = |id: i64| circuit_queue_of(cm[id]) == Some(queue);
    let site_ids = map_keys(sites);
    proof {
        lemma_filter_prefix_ends(site_ids@, site_pred);
        lemma_filter_prefix_ends(site_ids@, top_pred);
    }
    let mut site_count: usize = 0;
    let mut top_count: usize = 0;
    let mut i: usize = 0;
    while i < site_ids.len()
        invariant
            sm == sites@,
            i <= site_ids@.len(),
            site_ids@.no_duplicates(),
            site_ids@.to_set() == sm.dom(),
            site_pred == (|id: i64| site_queue_of(sm[id]) == Some(queue)),
            top_pred == (|id: i64| site_queue_of(sm[id]) == Some(queue) && is_top_level_site(sm[id])),
            site_count == site_ids@.take(i as int).to_set().filter(site_pred).len(),
            top_count == site_ids@.take(i as int).to_set().filter(top_pred).len(),
            site_count <= i,
            top_count <= i,
        decreases site_ids@.len() - i,
    {
        let id = site_ids[i];
        proof {
            lemma_filter_prefix_step(site_ids@, i as int, site_pred);
            lemma_filter_prefix_step(site_ids@, i as int, top_pred);
            assert(site_ids@.to_set().contains(id)) by {
                assert(site_ids@.contains(id));
            }
        }
        match sites.get(&id) {
            Some(site) => {
                if current_site_queue(site) == Some(queue) {
                    site_count = site_count + 1;
                    if site_is_top_level(site) {
                        top_count = top_count + 1;
                    }
                }
            },
            None => {},
        }
        i = i + 1;
    }
    proof {
        assert(site_ids@.take(site_ids@.len() as int) =~= site_ids@);
        assert(site_ids@.to_set().filter(site_pred) =~= sites_in_queue(sm, queue));
        assert(site_ids@.to_set().filter(top_pred) =~= top_sites_in_queue(sm, queue));
    }
    let circuit_ids = map_keys(circuits);
    let mut ids: Vec<i64> = Vec::new();
    let mut download_rates: Vec<u32> = Vec::new();
    let mut upload_rates: Vec<u32> = Vec::new();
    proof {
        assert(circuit_ids@.take(0).to_set().filter(circuit_pred) =~= ids@.to_set());
    }
    let mut c: usize = 0;
    while c < circuit_ids.len()
        invariant
            cm == circuits@,
            c <= circuit_ids@.len(),
            circuit_ids@.no_duplicates(),
            circuit_ids@.to_set() == cm.dom(),
            circuit_pred == (|id: i64| circuit_queue_of(cm[id]) == Some(queue)),
            ids@.no_duplicates(),
            ids@.len() <= c,
            ids@.to_set() == circuit_ids@.take(c as int).to_set().filter(circuit_pred),
            download_rates@ == ids@.map_values(|id: i64| circuit_max_rates(cm[id]).0),
            upload_rates@ == ids@.map_values(|id: i64| circuit_max_rates(cm[id]).1),
        decreases circuit_ids@.len() - c,
    {
        let id = circuit_ids[c];
        let ghost before = ids@;
        proof {
            lemma_take_push_set(circuit_ids@, c as int);
            assert(circuit_ids@.to_set().contains(id)) by {
                assert(circuit_ids@.contains(id));
            }
        }
        match circuits.get(&id) {
            Some(circuit) => {
                if current_circuit_queue(circuit) == Some(queue) {
                    if let BakeryCommands::AddCircuit { download_bandwidth_max, upload_bandwidth_max, .. } = circuit {
                        ids.push(id);
                        download_rates.push(*download_bandwidth_max);
                        upload_rates.push(*upload_bandwidth_max);
                    }
                    proof {
                        assert(!before.contains(id)) by {
                            if before.contains(id) {
                                assert(before.to_set().contains(id));
                            }
                        }
                        assert(ids@ == before.push(id));
                        assert forall|x: int, y: int| 0 <= x < y < ids@.len() implies ids@[x] != ids@[y] by {
                            if y == before.len() {
                                assert(before.contains(before[x]));
                            }
                        }
                        assert forall|x: i64| ids@.to_set().contains(x) <==> before.to_set().insert(id).contains(x) by {
                            crate::summary::lemma_push_contains(before, id, x);
                        }
                        assert(ids@.to_set() =~= before.to_set().insert(id));
                        assert(circuit_ids@.take(c + 1).to_set().filter(circuit_pred) =~= circuit_ids@.take(
                            c as int,
                        ).to_set().filter(circuit_pred).insert(id));
                        assert(download_rates@ =~= ids@.map_values(|i: i64| circuit_max_rates(cm[i]).0));
                        assert(upload_rates@ =~= ids@.map_values(|i: i64| circuit_max_rates(cm[i]).1));
                    }
                } else {
                    proof {
                        assert(circuit_ids@.take(c + 1).to_set().filter(circuit_pred) =~= circuit_ids@.take(
                            c as int,
                        ).to_set().filter(circuit_pred));
                    }
                }
            },
            None => {},
        }
        c = c + 1;
    }
    proof {
        assert(circuit_ids@.take(circuit_ids@.len() as int) =~= circuit_ids@);
        assert(ids@.to_set() =~= circuits_in_queue(cm, queue));
        ids@.unique_seq_to_set();
    }
    let circuit_count = ids.len();
    QueueBucket {
        queue,
        top_level_site_count: top_count,
        site_count,
        circuit_count,
        download_rates,
        upload_rates,
    }
}

/// The share of each queue that holds a site or a circuit, in increasing
/// queue order (see [`bucket_matches`]).
pub fn queue_distribution_buckets(
    sites: &HashMap<i64, BakeryCommands>,
    circuits: &HashMap<i64, BakeryCommands>,
) -> (r: Vec<QueueBucket>)
    ensures
        forall|i: int, j: int| 0 <= i < j < r@.len() ==> r@[i].queue < r@[j].queue,
        forall|q: u32|
            used_queues(sites@, circuits@).contains(q) <==> exists|i: int|
                0 <= i < r@.len() && #[trigger] r@[i].queue == q,
        forall|i: int| 0 <= i < r@.len() ==> bucket_matches(#[trigger] r@[i], sites@, circuits@),
{
    let queues = used_queue_list(sites, circuits);
    let mut out: Vec<QueueBucket> = Vec::new();
    let mut k: usize = 0;
    while k < queues.len()
        invariant
            k <= queues@.len(),
            strictly_sorted(queues@),
            forall|q: i64| #[trigger]
                queues@.contains(q) <==> (0 <= q <= u32::MAX && used_queues(sites@, circuits@).contains(q as u32)),
            out@.len() == k,
            forall|t: int| 0 <= t < k ==> (#[trigger] out@[t]).queue as int == queues@[t] as int,
            forall|t: int| 0 <= t < k ==> bucket_matches(#[trigger] out@[t], sites@, circuits@),
        decreases queues@.len() - k,
    {
        let q = queues[k];
        assert(queues@.contains(q));
        let bucket = bucket_for(q as u32, sites, circuits);
        out.push(bucket);
        k = k + 1;
    }
    proof {
        assert forall|i: int, j: int| 0 <= i < j < out@.len() implies out@[i].queue < out@[j].queue by {
            assert(queues@[i] < queues@[j]);
        }
        assert forall|q: u32| used_queues(sites@, circuits@).contains(q) <==> exists|i: int|
            0 <= i < out@.len() && #[trigger] out@[i].queue == q by {
            if used_queues(sites@, circuits@).contains(q) {
                assert(queues@.contains(q as i64));
                let i = choose|i: int| 0 <= i < queues@.len() && queues@[i] == q as i64;
                assert(out@[i].queue == q);
            }
            if exists|i: int| 0 <= i < out@.len() && #[trigger] out@[i].queue == q {
                let i = choose|i: int| 0 <= i < out@.len() && #[trigger] out@[i].queue == q;
                assert(queues@.contains(queues@[i]));
            }
        }
    }
    out
}

} // verus!
