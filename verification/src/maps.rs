//! Key listing for hash maps whose keys obey the hashing model.
use vstd::prelude::*;
use vstd::std_specs::hash::spec_keys_iter;
use vstd::std_specs::iter::IteratorSpec;
use std::collections::HashMap;

verus! {

broadcast use vstd::std_specs::hash::group_hash_axioms;

/// The keys of a map, each exactly once, in the map's iteration order.
pub fn map_keys<K: Copy, V>(m: &HashMap<K, V>) -> (r: Vec<K>)
    requires
        vstd::std_specs::hash::obeys_key_model::<K>(),
    ensures
        r@.no_duplicates(),
        r@.to_set() == m@.dom(),
        r@.len() == m@.dom().len(),
{
    let ghost all = spec_keys_iter(m).remaining().unref();
    let mut out: Vec<K> = Vec::new();
    for k in it: m.keys()
        invariant
            it.seq().unref() == all,
            out@ == all.take(it.index() as int),
    {
        out.push(*k);
        assert(out@ =~= all.take(it.index() + 1));
    }
    assert(out@ =~= all);
    out
}

/// Counting along distinct keys: the keys among the first `i + 1` that satisfy
/// `q` are those among the first `i`, plus the next key when it satisfies `q`.
pub proof fn lemma_filter_prefix_step<K>(keys: Seq<K>, i: int, q: spec_fn(K) -> bool)
    requires
        keys.no_duplicates(),
        0 <= i < keys.len(),
    ensures
        keys.take(i).to_set().filter(q).finite(),
        keys.take(i + 1).to_set().filter(q).len() == keys.take(i).to_set().filter(q).len() + if q(
            keys[i],
        ) {
            1int
        } else {
            0int
        },
{
    let prev = keys.take(i).to_set();
    let k = keys[i];
    assert(keys.take(i + 1) =~= keys.take(i).push(k));
    assert(keys.take(i + 1).to_set() =~= prev.insert(k)) by {
        assert forall|x: K| #[trigger] keys.take(i + 1).to_set().contains(x) <==> prev.insert(k).contains(x) by {
            if keys.take(i + 1).to_set().contains(x) {
                assert(keys.take(i + 1).contains(x));
                let j = choose|j: int| 0 <= j < i + 1 && #[trigger] keys.take(i + 1)[j] == x;
                if j < i {
                    assert(keys.take(i)[j] == x);
                    assert(keys.take(i).contains(x));
                }
            }
            if prev.insert(k).contains(x) {
                if x == k {
                    assert(keys.take(i + 1)[i] == k);
                    assert(keys.take(i + 1).contains(x));
                } else {
                    assert(keys.take(i).contains(x));
                    let j = choose|j: int| 0 <= j < i && #[trigger] keys.take(i)[j] == x;
                    assert(keys.take(i + 1)[j] == x);
                    assert(keys.take(i + 1).contains(x));
                }
            }
        }
    }
    assert(!prev.contains(k)) by {
        if keys.take(i).contains(k) {
            let j = choose|j: int| 0 <= j < i && #[trigger] keys.take(i)[j] == k;
            assert(keys[j] == keys[i]);
        }
    }
    vstd::seq_lib::seq_to_set_is_finite(keys.take(i));
    assert(prev.filter(q).finite());
    if q(k) {
        assert(prev.insert(k).filter(q) =~= prev.filter(q).insert(k));
        assert(!prev.filter(q).contains(k));
    } else {
        assert(prev.insert(k).filter(q) =~= prev.filter(q));
    }
}

/// The empty prefix has no keys satisfying `q`, and the whole sequence's keys
/// form its set.
pub proof fn lemma_filter_prefix_ends<K>(keys: Seq<K>, q: spec_fn(K) -> bool)
    ensures
        keys.take(0).to_set().filter(q).len() == 0,
        keys.take(keys.len() as int) == keys,
{
    assert(keys.take(0).to_set().filter(q) =~= Set::<K>::empty());
    assert(keys.take(keys.len() as int) =~= keys);
}

/// Some element of a sequence satisfies `p` exactly when some member of its set does.
pub proof fn lemma_seq_exists_to_set<A>(s: Seq<A>, p: spec_fn(A) -> bool)
    ensures
        (exists|j: int| 0 <= j < s.len() && #[trigger] p(s[j])) <==> (exists|v: A|
            s.to_set().contains(v) && #[trigger] p(v)),
{
    if exists|j: int| 0 <= j < s.len() && #[trigger] p(s[j]) {
        let j = choose|j: int| 0 <= j < s.len() && #[trigger] p(s[j]);
        assert(s.contains(s[j]));
        assert(s.to_set().contains(s[j]));
    }
    if exists|v: A| s.to_set().contains(v) && #[trigger] p(v) {
        let v = choose|v: A| s.to_set().contains(v) && #[trigger] p(v);
        assert(s.contains(v));
        let j = choose|j: int| 0 <= j < s.len() && s[j] == v;
        assert(p(s[j]));
    }
}

} // verus!
