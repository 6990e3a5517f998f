//! Rendering of integer lists and sorted key sets used in operator summaries.
use vstd::prelude::*;
use crate::text::{append_str, dec_int, dec_string_i64};

verus! {

/// Elements joined by `", "` (each in decimal).
pub open spec fn join_i64(s: Seq<i64>) -> Seq<char>
    decreases s.len(),
{
    if s.len() == 0 {
        Seq::empty()
    } else if s.len() == 1 {
        dec_int(s[0] as int)
    } else {
        join_i64(s.drop_last()) + ", "@ + dec_int(s.last() as int)
    }
}

/// `Debug` rendering of a list of integers, e.g. `[20, 30]`.
pub open spec fn i64_list_seq(s: Seq<i64>) -> Seq<char> {
    "["@ + join_i64(s) + "]"@
}

/// Renders a list of integers as `[a, b, c]`.
pub fn format_i64_list(s: &Vec<i64>) -> (r: String)
    ensures
        r@ == i64_list_seq(s@),
{
    let mut out = String::new();
    append_str(&mut out, "[");
    let ghost start = out@;
    let mut i: usize = 0;
    while i < s.len()
        invariant
            i <= s@.len(),
            start == "["@,
            out@ == start + join_i64(s@.take(i as int)),
        decreases s.len() - i,
    {
        proof {
            assert(s@.take(i + 1).drop_last() =~= s@.take(i as int));
        }
        if i > 0 {
            append_str(&mut out, ", ");
        }
        let d = dec_string_i64(s[i]);
        append_str(&mut out, d.as_str());
        proof {
            if i == 0 {
                assert(s@.take(1) =~= seq![s@[0]]);
            }
            assert(out@ =~= start + join_i64(s@.take(i + 1)));
        }
        i = i + 1;
    }
    assert(s@.take(s@.len() as int) =~= s@);
    append_str(&mut out, "]");
    out
}

/// Strictly increasing.
pub open spec fn strictly_sorted(s: Seq<i64>) -> bool {
    forall|i: int, j: int| 0 <= i < j < s.len() ==> s[i] < s[j]
}

/// `s` lists the elements of `set` in increasing order, each once.
pub open spec fn sorted_listing(s: Seq<i64>, set: Set<i64>) -> bool {
    strictly_sorted(s) && s.to_set() == set
}

/// Membership in a sequence extended by one element.
pub proof fn lemma_push_contains<A>(s: Seq<A>, e: A, x: A)
    ensures
        s.push(e).contains(x) <==> (s.contains(x) || x == e),
{
    if s.push(e).contains(x) {
        let p = choose|p: int| 0 <= p < s.push(e).len() && s.push(e)[p] == x;
        if p < s.len() {
            assert(s[p] == x);
        }
    }
    if s.contains(x) {
        let p = choose|p: int| 0 <= p < s.len() && s[p] == x;
        assert(s.push(e)[p] == x);
    }
    if x == e {
        assert(s.push(e)[s.len() as int] == x);
    }
}

/// Appending an element not yet present keeps a sequence duplicate-free.
pub proof fn lemma_push_distinct<A>(prev: Seq<A>, e: A)
    requires
        prev.no_duplicates(),
        !prev.contains(e),
    ensures
        prev.push(e).no_duplicates(),
{
    let s = prev.push(e);
    assert forall|a: int, b: int| 0 <= a < s.len() && 0 <= b < s.len() && a != b implies s[a]
        != s[b] by {
        if a == prev.len() {
            assert(prev[b] == s[b]);
        } else if b == prev.len() {
            assert(prev[a] == s[a]);
        } else {
            assert(prev[a] == s[a]);
            assert(prev[b] == s[b]);
        }
    }
}

/// A sorted listing has exactly as many entries as the set it lists.
pub proof fn lemma_listing_len(s: Seq<i64>, set: Set<i64>)
    requires
        sorted_listing(s, set),
    ensures
        s.len() == set.len(),
{
    lemma_sorted_no_dups(s);
    s.unique_seq_to_set();
}

pub proof fn lemma_sorted_no_dups(s: Seq<i64>)
    requires
        strictly_sorted(s),
    ensures
        s.no_duplicates(),
{
    assert forall|i: int, j: int| 0 <= i < s.len() && 0 <= j < s.len() && i != j implies s[i] != s[j] by {
        if i < j {
        } else {
        }
    }
}

/// Inserts `x` into a strictly increasing vector that does not hold it.
pub fn sorted_insert(v: &mut Vec<i64>, x: i64)
    requires
        strictly_sorted(old(v)@),
        !old(v)@.contains(x),
    ensures
        strictly_sorted(final(v)@),
        final(v)@.to_set() == old(v)@.to_set().insert(x),
        final(v)@.len() == old(v)@.len() + 1,
{
    let mut idx: usize = 0;
    while idx < v.len() && v[idx] < x
        invariant
            idx <= v@.len(),
            forall|k: int| 0 <= k < idx ==> v@[k] < x,
        decreases v.len() - idx,
    {
        idx = idx + 1;
    }
    let ghost before = v@;
    proof {
        if idx < before.len() {
            assert(before[idx as int] != x);
        }
    }
    v.insert(idx, x);
    proof {
        assert(v@ =~= before.subrange(0, idx as int).push(x) + before.subrange(idx as int, before.len() as int));
        assert forall|i: int, j: int| 0 <= i < j < v@.len() implies v@[i] < v@[j] by {
            if j < idx {
            } else if j == idx {
            } else if i <= idx {
                assert(v@[j] == before[j - 1]);
                assert(before[idx as int] > x);
                assert(before[j - 1] >= before[idx as int]);
            } else {
                assert(v@[i] == before[i - 1]);
                assert(v@[j] == before[j - 1]);
            }
        }
        assert forall|y: i64| v@.contains(y) <==> before.to_set().insert(x).contains(y) by {
            if v@.contains(y) {
                let k = choose|k: int| 0 <= k < v@.len() && v@[k] == y;
                if k < idx {
                    assert(before[k] == y);
                } else if k > idx {
                    assert(before[k - 1] == y);
                }
            }
            if before.contains(y) {
                let k = choose|k: int| 0 <= k < before.len() && before[k] == y;
                if k < idx {
                    assert(v@[k] == y);
                } else {
                    assert(v@[k + 1] == y);
                }
            }
            if y == x {
                assert(v@[idx as int] == x);
            }
        }
        assert(v@.to_set() =~= before.to_set().insert(x));
    }
}

} // verus!
