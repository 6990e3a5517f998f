//! The mapped-circuit limit: circuits with IP addresses beyond the allowed
//! number are dropped from a batch, existing mapped circuits first kept.
use vstd::prelude::*;
use std::collections::HashMap;
use std::collections::HashSet;
use crate::commands::BakeryCommands;
use crate::text::{append_str, chars_of, dec_seq, dec_string, owned, string_of, trim_chars, trim_seq};

verus! {

broadcast use vstd::std_specs::hash::group_hash_axioms;

/// Mapped-circuit limit applied when no license information is available.
pub const DEFAULT_MAPPED_CIRCUITS_LIMIT: usize = 1000;

/// Pieces of `s` separated by `c` (`str::split`); always at least one piece.
pub open spec fn split_on(s: Seq<char>, c: char) -> Seq<Seq<char>>
    decreases s.len(),
{
    if s.len() == 0 {
        seq![Seq::<char>::empty()]
    } else {
        let prev = split_on(s.drop_last(), c);
        if s.last() == c {
            prev.push(Seq::<char>::empty())
        } else {
            prev.update(prev.len() - 1, prev.last().push(s.last()))
        }
    }
}

/// `split_on` never yields an empty list of pieces.
pub proof fn lemma_split_on_nonempty(s: Seq<char>, c: char)
    ensures
        split_on(s, c).len() > 0,
    decreases s.len(),
{
    if s.len() > 0 {
        lemma_split_on_nonempty(s.drop_last(), c);
    }
}

/// The trimmed pieces that are not empty, in order.
pub open spec fn trimmed_nonempty(pieces: Seq<Seq<char>>) -> Seq<Seq<char>>
    decreases pieces.len(),
{
    if pieces.len() == 0 {
        Seq::empty()
    } else {
        let prev = trimmed_nonempty(pieces.drop_last());
        let t = trim_seq(pieces.last());
        if t.len() > 0 {
            prev.push(t)
        } else {
            prev
        }
    }
}

/// The addresses of a comma-separated IP list: each piece trimmed, empty ones
/// dropped.
pub open spec fn ip_list(s: Seq<char>) -> Seq<Seq<char>> {
    trimmed_nonempty(split_on(s, ','))
}

/// Sequence of the views of the given strings.
pub open spec fn string_views(v: Seq<String>) -> Seq<Seq<char>> {
    v.map_values(|s: String| s@)
}

/// Splits a comma-separated IP list, trimming each address and dropping empty ones.
pub fn parse_ip_list(s: &str) -> (r: Vec<String>)
    ensures
        string_views(r@) == ip_list(s@),
{
    let cs = chars_of(s);
    let mut out: Vec<String> = Vec::new();
    let mut cur: Vec<char> = Vec::new();
    let mut i: usize = 0;
    proof {
        assert(cs@.take(0) =~= Seq::<char>::empty());
        assert(string_views(out@) =~= Seq::<Seq<char>>::empty());
    }
    while i < cs.len()
        invariant
            i <= cs@.len(),
            split_on(cs@.take(i as int), ',').len() > 0,
            string_views(out@) == trimmed_nonempty(split_on(cs@.take(i as int), ',').drop_last()),
            cur@ == split_on(cs@.take(i as int), ',').last(),
        decreases cs@.len() - i,
    {
        let ch = cs[i];
        let ghost pieces = split_on(cs@.take(i as int), ',');
        proof {
            assert(cs@.take(i + 1).drop_last() =~= cs@.take(i as int));
            assert(cs@.take(i + 1).last() == ch);
        }
        if ch == ',' {
            let t = trim_chars(&cur);
            if t.len() > 0 {
                out.push(string_of(&t));
            }
            cur = Vec::new();
            proof {
                let next = split_on(cs@.take(i + 1), ',');
                assert(next == pieces.push(Seq::<char>::empty()));
                assert(next.drop_last() =~= pieces);
                assert(pieces =~= pieces.drop_last().push(pieces.last()));
                assert(string_views(out@) =~= trimmed_nonempty(next.drop_last()));
                assert(cur@ =~= next.last());
            }
        } else {
            cur.push(ch);
            proof {
                let next = split_on(cs@.take(i + 1), ',');
                assert(next == pieces.update(pieces.len() - 1, pieces.last().push(ch)));
                assert(next.drop_last() =~= pieces.drop_last());
            }
        }
        i = i + 1;
    }
    let t = trim_chars(&cur);
    if t.len() > 0 {
        out.push(string_of(&t));
    }
    proof {
        assert(cs@.take(cs@.len() as int) =~= cs@);
        let pieces = split_on(cs@, ',');
        assert(pieces =~= pieces.drop_last().push(pieces.last()));
        assert(string_views(out@) =~= trimmed_nonempty(pieces));
    }
    out
}

/// The hash of a circuit addition that carries at least one IP address.
pub open spec fn mapped_hash_of(cmd: BakeryCommands) -> Option<i64> {
    match cmd {
        BakeryCommands::AddCircuit { circuit_hash, ip_addresses, .. } => if ip_list(ip_addresses@).len()
            > 0 {
            Some(circuit_hash)
        } else {
            None
        },
        _ => None,
    }
}

/// Whether the command adds a circuit with at least one IP address.
pub fn is_mapped_add_circuit(cmd: &BakeryCommands) -> (r: bool)
    ensures
        r == mapped_hash_of(*cmd) is Some,
{
    match cmd {
        BakeryCommands::AddCircuit { ip_addresses, .. } => {
            let ips = parse_ip_list(ip_addresses.as_str());
            ips.len() > 0
        },
        _ => false,
    }
}

/// The hash of a mapped circuit addition.
pub fn mapped_circuit_hash(cmd: &BakeryCommands) -> (r: Option<i64>)
    ensures
        r == mapped_hash_of(*cmd),
{
    match cmd {
        BakeryCommands::AddCircuit { circuit_hash, .. } => {
            if is_mapped_add_circuit(cmd) {
                Some(*circuit_hash)
            } else {
                None
            }
        },
        _ => None,
    }
}

/// Outcome of applying the mapped-circuit limit to a batch.
#[derive(Clone, Copy, Debug, PartialEq, Eq, Structural)]
pub struct MappedLimitStats {
    /// Limit that was enforced, if any.
    pub enforced_limit: Option<usize>,
    /// Distinct mapped circuits in the batch.
    pub requested_mapped: usize,
    /// Mapped circuits kept.
    pub allowed_mapped: usize,
    /// Mapped circuits dropped.
    pub dropped_mapped: usize,
}

/// The mapped-circuit limit as resolved from licensing.
#[derive(Clone, Copy, Debug, PartialEq, Eq, Structural)]
pub struct ResolvedMappedLimit {
    /// Whether a license was found.
    pub licensed: bool,
    /// Circuit allowance of the license, if any.
    pub max_circuits: Option<usize>,
    /// The limit Bakery enforces, if any.
    pub effective_limit: Option<usize>,
}

/// A limit's decimal value, or `unlimited`.
pub fn format_mapped_limit(limit: Option<usize>) -> (r: String)
    ensures
        r@ == match limit {
            Some(n) => dec_seq(n as nat),
            None => "unlimited"@,
        },
{
    match limit {
        Some(n) => dec_string(n as u64),
        None => owned("unlimited"),
    }
}

/// Distinct mapped-circuit hashes of a batch, in order of first appearance.
pub open spec fn mapped_candidates(batch: Seq<BakeryCommands>) -> Seq<i64>
    decreases batch.len(),
{
    if batch.len() == 0 {
        Seq::empty()
    } else {
        let prev = mapped_candidates(batch.drop_last());
        match mapped_hash_of(batch.last()) {
            Some(h) => if prev.contains(h) {
                prev
            } else {
                prev.push(h)
            },
            None => prev,
        }
    }
}

/// The first `n` elements, or all of them when there are fewer.
pub open spec fn prefix_upto(s: Seq<i64>, n: int) -> Seq<i64> {
    if s.len() <= n {
        s
    } else {
        s.take(n)
    }
}

/// Candidates that are already mapped circuits, kept first (up to the limit).
pub open spec fn kept_existing(cands: Seq<i64>, existing: Set<i64>, limit: nat) -> Seq<i64> {
    prefix_upto(cands.filter(|h: i64| existing.contains(h)), limit as int)
}

/// The remaining slots, filled in batch order.
pub open spec fn kept_fill(cands: Seq<i64>, existing: Set<i64>, limit: nat) -> Seq<i64> {
    let first = kept_existing(cands, existing, limit);
    prefix_upto(cands.filter(|h: i64| !first.contains(h)), limit - first.len())
}

/// Mapped circuits kept when the limit is exceeded.
pub open spec fn kept_mapped(cands: Seq<i64>, existing: Set<i64>, limit: nat) -> Set<i64> {
    kept_existing(cands, existing, limit).to_set() + kept_fill(cands, existing, limit).to_set()
}

/// The commands of a batch that survive: everything that is not a dropped
/// mapped circuit, in order.
pub open spec fn surviving(batch: Seq<BakeryCommands>, keep: Set<i64>) -> Seq<BakeryCommands>
    decreases batch.len(),
{
    if batch.len() == 0 {
        Seq::empty()
    } else {
        let prev = surviving(batch.drop_last(), keep);
        match mapped_hash_of(batch.last()) {
            Some(h) => if keep.contains(h) {
                prev.push(batch.last())
            } else {
                prev
            },
            None => prev.push(batch.last()),
        }
    }
}

/// Hashes of the existing circuits that are mapped.
pub open spec fn existing_mapped(existing: Map<i64, BakeryCommands>) -> Set<i64> {
    existing.dom().filter(|h: i64| mapped_hash_of(existing[h]) is Some)
}

/// Splitting a sequence by a predicate partitions its length.
proof fn lemma_filter_partition(s: Seq<i64>, p: spec_fn(i64) -> bool, q: spec_fn(i64) -> bool)
    requires
        forall|x: i64| #[trigger] q(x) == !p(x),
    ensures
        s.filter(p).len() + s.filter(q).len() == s.len(),
    decreases s.len(),
{
    reveal(Seq::filter);
    if s.len() > 0 {
        lemma_filter_partition(s.drop_last(), p, q);
    }
}

/// Filtering keeps a sequence duplicate-free.
proof fn lemma_filter_distinct(s: Seq<i64>, p: spec_fn(i64) -> bool)
    requires
        s.no_duplicates(),
    ensures
        s.filter(p).no_duplicates(),
    decreases s.len(),
{
    reveal(Seq::filter);
    if s.len() > 0 {
        let d = s.drop_last();
        assert(d.no_duplicates()) by {
            assert forall|a: int, b: int| 0 <= a < d.len() && 0 <= b < d.len() && a != b implies d[a] != d[b] by {
                assert(d[a] == s[a] && d[b] == s[b]);
            }
        }
        lemma_filter_distinct(d, p);
        if p(s.last()) {
            assert(!d.filter(p).contains(s.last())) by {
                if d.filter(p).contains(s.last()) {
                    d.lemma_filter_contains_rev(p, s.last());
                    let x = choose|x: int| 0 <= x < d.len() && d[x] == s.last();
                    assert(s[x] == s[s.len() - 1]);
                }
            }
            crate::summary::lemma_push_distinct(d.filter(p), s.last());
        }
    }
}

/// Leaving out the members of a distinct sub-list `f` shortens a distinct
/// sequence by exactly `f`'s length.
proof fn lemma_filter_complement_len(s: Seq<i64>, f: Seq<i64>)
    requires
        s.no_duplicates(),
        f.no_duplicates(),
        forall|x: i64| f.contains(x) ==> s.contains(x),
    ensures
        s.filter(|h: i64| !f.contains(h)).len() == s.len() - f.len(),
{
    let p = |h: i64| f.contains(h);
    let q = |h: i64| !f.contains(h);
    lemma_filter_partition(s, p, q);
    lemma_filter_distinct(s, p);
    assert(s.filter(p).to_set() =~= f.to_set()) by {
        assert forall|x: i64| #[trigger] s.filter(p).to_set().contains(x) <==> f.to_set().contains(x) by {
            if f.contains(x) {
                assert(s.contains(x));
                let i = choose|i: int| 0 <= i < s.len() && s[i] == x;
                s.lemma_filter_contains(p, i);
            }
            if s.filter(p).contains(x) {
                let i = choose|i: int| 0 <= i < s.filter(p).len() && s.filter(p)[i] == x;
                s.lemma_filter_pred(p, i);
            }
        }
    }
    s.filter(p).unique_seq_to_set();
    f.unique_seq_to_set();
    assert(s.filter(|h: i64| !f.contains(h)) == s.filter(q));
}

/// The candidates are distinct.
proof fn lemma_candidates_distinct(batch: Seq<BakeryCommands>)
    ensures
        mapped_candidates(batch).no_duplicates(),
    decreases batch.len(),
{
    if batch.len() > 0 {
        lemma_candidates_distinct(batch.drop_last());
        let prev = mapped_candidates(batch.drop_last());
        if let Some(h) = mapped_hash_of(batch.last()) {
            if !prev.contains(h) {
                crate::summary::lemma_push_distinct(prev, h);
            }
        }
    }
}

/// Applies the mapped-circuit limit to a batch.
///
/// Without a limit, or when the distinct mapped circuits fit, the batch is
/// unchanged. Otherwise exactly `limit` mapped circuits are kept: those that
/// already exist as mapped circuits first (in batch order), then the rest in
/// batch order; the other mapped circuit additions are dropped and every other
/// command is kept, in order.
pub fn filter_batch_by_mapped_circuit_limit(
    batch: Vec<BakeryCommands>,
    existing_circuits: &HashMap<i64, BakeryCommands>,
    effective_limit: Option<usize>,
) -> (r: (Vec<BakeryCommands>, MappedLimitStats))
    ensures
        ({
            let cands = mapped_candidates(batch@);
            let stats = r.1;
            &&& stats.enforced_limit == effective_limit
            &&& stats.requested_mapped == cands.len()
            &&& match effective_limit {
                Some(limit) if cands.len() > limit => {
                    &&& r.0@ == surviving(
                        batch@,
                        kept_mapped(cands, existing_mapped(existing_circuits@), limit as nat),
                    )
                    &&& stats.allowed_mapped == limit
                    &&& stats.dropped_mapped == cands.len() - limit
                },
                _ => {
                    &&& r.0@ == batch@
                    &&& stats.allowed_mapped == cands.len()
                    &&& stats.dropped_mapped == 0
                },
            }
        }),
{
    let ghost b = batch@;
    let mut candidates: Vec<i64> = Vec::new();
    let mut seen: HashSet<i64> = HashSet::new();
    let mut i: usize = 0;
    while i < batch.len()
        invariant
            b == batch@,
            i <= b.len(),
            candidates@ == mapped_candidates(b.take(i as int)),
            seen@ == candidates@.to_set(),
            candidates@.len() <= i,
        decreases b.len() - i,
    {
        proof {
            assert(b.take(i + 1).drop_last() =~= b.take(i as int));
            assert(b.take(i + 1).last() == b[i as int]);
        }
        match mapped_circuit_hash(&batch[i]) {
            Some(h) => {
                if !seen.contains(&h) {
                    seen.insert(h);
                    candidates.push(h);
                    proof {
                        assert forall|x: i64| #[trigger] candidates@.to_set().contains(x)
                            <==> seen@.contains(x) by {
                            crate::summary::lemma_push_contains(candidates@.drop_last(), h, x);
                            assert(candidates@.drop_last() =~= mapped_candidates(b.take(i as int)));
                        }
                        assert(candidates@.to_set() =~= seen@);
                    }
                } else {
                    assert(candidates@.to_set().contains(h));
                }
            },
            None => {},
        }
        i = i + 1;
    }
    assert(b.take(b.len() as int) =~= b);
    let requested = candidates.len();
    let limit = match effective_limit {
        None => {
            return (
                batch,
                MappedLimitStats {
                    enforced_limit: None,
                    requested_mapped: requested,
                    allowed_mapped: requested,
                    dropped_mapped: 0,
                },
            );
        },
        Some(l) => l,
    };
    if requested <= limit {
        return (
            batch,
            MappedLimitStats {
                enforced_limit: Some(limit),
                requested_mapped: requested,
                allowed_mapped: requested,
                dropped_mapped: 0,
            },
        );
    }
    let ghost cands = candidates@;
    let ghost ex = existing_mapped(existing_circuits@);
    let ghost in_ex = |h: i64| ex.contains(h);
    proof {
        lemma_candidates_distinct(b);
    }
    // Existing mapped circuits first.
    let mut keep: HashSet<i64> = HashSet::new();
    let mut first: Vec<i64> = Vec::new();
    let mut j: usize = 0;
    assert(cands.take(0).filter(in_ex) =~= Seq::<i64>::empty()) by {
        reveal(Seq::filter);
    }
    assert(keep@ =~= first@.to_set());
    while j < candidates.len()
        invariant
            cands == candidates@,
            ex == existing_mapped(existing_circuits@),
            in_ex == (|h: i64| ex.contains(h)),
            cands.no_duplicates(),
            j <= cands.len(),
            first@ == prefix_upto(cands.take(j as int).filter(in_ex), limit as int),
            keep@ == first@.to_set(),
            first@.len() <= limit,
        decreases cands.len() - j,
    {
        let h = candidates[j];
        proof {
            assert(cands.take(j + 1) =~= cands.take(j as int).push(h));
            assert(cands.take(j + 1).filter(in_ex) == if in_ex(h) {
                cands.take(j as int).filter(in_ex).push(h)
            } else {
                cands.take(j as int).filter(in_ex)
            }) by {
                reveal(Seq::filter);
                assert(cands.take(j + 1).drop_last() =~= cands.take(j as int));
            }
        }
        let is_existing = match existing_circuits.get(&h) {
            Some(c) => {
                assert(*c == existing_circuits@[h]);
                is_mapped_add_circuit(c)
            },
            None => false,
        };
        assert(is_existing == in_ex(h));
        if first.len() < limit && is_existing {
            proof {
                let f = cands.take(j as int).filter(in_ex);
                assert(f.len() <= limit);
                assert(!first@.contains(h)) by {
                    if first@.contains(h) {
                        let k = choose|k: int| 0 <= k < first@.len() && first@[k] == h;
                        assert(f.contains(h));
                        assert(cands.take(j as int).contains(h)) by {
                            cands.take(j as int).lemma_filter_contains_rev(in_ex, h);
                        }
                        let x = choose|x: int| 0 <= x < j && cands.take(j as int)[x] == h;
                        assert(cands[x] == cands[j as int]);
                    }
                }
            }
            keep.insert(h);
            first.push(h);
            proof {
                assert forall|x: i64| #[trigger] first@.to_set().contains(x) <==> keep@.contains(x) by {
                    crate::summary::lemma_push_contains(first@.drop_last(), h, x);
                }
                assert(first@.to_set() =~= keep@);
            }
        } else {
            proof {
                let f = cands.take(j as int).filter(in_ex);
                if first.len() >= limit && is_existing {
                    if f.len() == limit {
                        assert(f.push(h).take(limit as int) =~= f);
                    } else {
                        assert(f.push(h).take(limit as int) =~= f.take(limit as int));
                    }
                }
            }
        }
        j = j + 1;
    }
    assert(cands.take(cands.len() as int) =~= cands);
    assert(first@ == kept_existing(cands, ex, limit as nat));
    // Then fill the remaining slots in batch order.
    let ghost not_first = |h: i64| !first@.contains(h);
    let ghost first_seq = first@;
    let mut fill: Vec<i64> = Vec::new();
    let mut k: usize = 0;
    let fill_limit: usize = limit - first.len();
    assert(cands.take(0).filter(not_first) =~= Seq::<i64>::empty()) by {
        reveal(Seq::filter);
    }
    assert(fill@.to_set() =~= Set::<i64>::empty());
    assert(keep@ =~= first_seq.to_set() + fill@.to_set());
    proof {
        let fl = cands.filter(in_ex);
        lemma_filter_distinct(cands, in_ex);
        assert forall|a: int, c: int|
            0 <= a < first_seq.len() && 0 <= c < first_seq.len() && a != c implies first_seq[a]
            != first_seq[c] by {
            assert(first_seq[a] == fl[a] && first_seq[c] == fl[c]);
        }
        assert forall|x: i64| first_seq.contains(x) implies cands.contains(x) by {
            let a = choose|a: int| 0 <= a < first_seq.len() && first_seq[a] == x;
            assert(fl[a] == x);
            assert(fl.contains(x));
            cands.lemma_filter_contains_rev(in_ex, x);
        }
        first_seq.unique_seq_to_set();
    }
    while k < candidates.len()
        invariant
            cands == candidates@,
            first_seq == first@,
            not_first == (|h: i64| !first_seq.contains(h)),
            cands.no_duplicates(),
            k <= cands.len(),
            fill_limit == limit - first_seq.len(),
            fill@ == prefix_upto(cands.take(k as int).filter(not_first), fill_limit as int),
            keep@ == first_seq.to_set() + fill@.to_set(),
            fill@.len() <= fill_limit,
            keep@.len() == first_seq.len() + fill@.len(),
            first_seq.no_duplicates(),
            fill@.no_duplicates(),
            forall|x: i64| fill@.contains(x) ==> !first_seq.contains(x),
        decreases cands.len() - k,
    {
        let h = candidates[k];
        proof {
            assert(cands.take(k + 1) =~= cands.take(k as int).push(h));
            assert(cands.take(k + 1).filter(not_first) == if not_first(h) {
                cands.take(k as int).filter(not_first).push(h)
            } else {
                cands.take(k as int).filter(not_first)
            }) by {
                reveal(Seq::filter);
                assert(cands.take(k + 1).drop_last() =~= cands.take(k as int));
            }
        }
        let was_kept = keep.contains(&h);
        if fill.len() < fill_limit && !was_kept {
            proof {
                let f = cands.take(k as int).filter(not_first);
                assert(f.len() <= fill_limit);
                assert(!fill@.contains(h)) by {
                    if fill@.contains(h) {
                        assert(keep@.contains(h));
                    }
                }
                assert(!first_seq.contains(h)) by {
                    if first_seq.contains(h) {
                        assert(keep@.contains(h));
                    }
                }
                crate::summary::lemma_push_distinct(fill@, h);
            }
            keep.insert(h);
            fill.push(h);
            proof {
                assert forall|x: i64| #[trigger] keep@.contains(x) <==> (first_seq.to_set()
                    + fill@.to_set()).contains(x) by {
                    crate::summary::lemma_push_contains(fill@.drop_last(), h, x);
                }
                assert(keep@ =~= first_seq.to_set() + fill@.to_set());
                assert forall|x: i64| fill@.contains(x) implies !first_seq.contains(x) by {
                    crate::summary::lemma_push_contains(fill@.drop_last(), h, x);
                }
            }
        } else {
            proof {
                let f = cands.take(k as int).filter(not_first);
                if fill.len() >= fill_limit {
                    if not_first(h) {
                        if f.len() == fill_limit {
                            assert(f.push(h).take(fill_limit as int) =~= f);
                        } else {
                            assert(f.push(h).take(fill_limit as int) =~= f.take(fill_limit as int));
                        }
                    }
                } else {
                    assert(was_kept);
                    if !first_seq.contains(h) {
                        assert(fill@.to_set().contains(h));
                        assert(fill@.contains(h));
                        assert(f.len() <= fill_limit);
                        assert(f.contains(h));
                        assert(cands.take(k as int).contains(h)) by {
                            cands.take(k as int).lemma_filter_contains_rev(not_first, h);
                        }
                        let x = choose|x: int| 0 <= x < k && cands.take(k as int)[x] == h;
                        assert(cands[x] == cands[k as int]);
                    }
                }
            }
        }
        k = k + 1;
    }
    assert(cands.take(cands.len() as int) =~= cands);
    assert(fill@ == kept_fill(cands, ex, limit as nat));
    assert(keep@ == kept_mapped(cands, ex, limit as nat));
    proof {
        lemma_filter_complement_len(cands, first_seq);
    }
    let allowed = keep.len();
    let ghost keep_set = keep@;
    let mut filtered: Vec<BakeryCommands> = Vec::new();
    for cmd in it: batch
        invariant
            it.seq() == b,
            keep@ == keep_set,
            filtered@ == surviving(b.take(it.index() as int), keep_set),
    {
        proof {
            assert(b.take(it.index() + 1).drop_last() =~= b.take(it.index() as int));
        }
        let keep_it = match mapped_circuit_hash(&cmd) {
            Some(h) => keep.contains(&h),
            None => true,
        };
        if keep_it {
            filtered.push(cmd);
        }
    }
    assert(b.take(b.len() as int) =~= b);
    (
        filtered,
        MappedLimitStats {
            enforced_limit: Some(limit),
            requested_mapped: requested,
            allowed_mapped: allowed,
            dropped_mapped: requested.saturating_sub(allowed),
        },
    )
}

/// The limit that follows from the license summary the bus returned
/// (`licensed`, its circuit allowance), or from none at all.
pub open spec fn resolved_limit(summary: Option<(bool, Option<u64>)>) -> ResolvedMappedLimit {
    match summary {
        None => ResolvedMappedLimit {
            licensed: false,
            max_circuits: None,
            effective_limit: Some(DEFAULT_MAPPED_CIRCUITS_LIMIT),
        },
        Some((licensed, max)) => {
            let max_circuits = match max {
                Some(n) => Some(if n > usize::MAX { usize::MAX } else { n as usize }),
                None => None,
            };
            ResolvedMappedLimit {
                licensed,
                max_circuits,
                effective_limit: if licensed {
                    max_circuits
                } else {
                    Some(DEFAULT_MAPPED_CIRCUITS_LIMIT)
                },
            }
        },
    }
}

/// Resolves the mapped-circuit limit from the Insight license summary, if one
/// was obtained: a licensed install gets its allowance (clamped to `usize`;
/// none means unlimited), anything else the default limit.
pub fn resolve_mapped_circuit_limit(summary: Option<(bool, Option<u64>)>) -> (r: ResolvedMappedLimit)
    ensures
        r == resolved_limit(summary),
{
    match summary {
        None => ResolvedMappedLimit {
            licensed: false,
            max_circuits: None,
            effective_limit: Some(DEFAULT_MAPPED_CIRCUITS_LIMIT),
        },
        Some((licensed, max)) => {
            let max_circuits: Option<usize> = match max {
                Some(n) => Some(if n > usize::MAX as u64 { usize::MAX } else { n as usize }),
                None => None,
            };
            ResolvedMappedLimit {
                licensed,
                max_circuits,
                effective_limit: if licensed {
                    max_circuits
                } else {
                    Some(DEFAULT_MAPPED_CIRCUITS_LIMIT)
                },
            }
        },
    }
}

} // verus!
