//! Sequences of key/value entries used as insertion-ordered maps.

use vstd::prelude::*;

verus! {

/// No two entries share a key.
pub open spec fn keys_unique<K, V>(es: Seq<(K, V)>) -> bool {
    forall|i: int, j: int| 0 <= i < j < es.len() ==> es[i].0 != es[j].0
}

/// Some entry has key `k`.
pub open spec fn has_key<K, V>(es: Seq<(K, V)>, k: K) -> bool {
    exists|i: int| 0 <= i < es.len() && es[i].0 == k
}

/// `es` with the value under `k` set to `v`: the entry keeps its place when the
/// key is present, and a new entry goes to the end otherwise.
pub open spec fn with_entry<K, V>(es: Seq<(K, V)>, k: K, v: V) -> Seq<(K, V)> {
    if has_key(es, k) {
        let i = choose|i: int| 0 <= i < es.len() && es[i].0 == k;
        es.update(i, (k, v))
    } else {
        es.push((k, v))
    }
}

/// The entries of `es` whose key `keep` accepts, in their order.
pub open spec fn retained<K, V>(es: Seq<(K, V)>, keep: spec_fn(K) -> bool) -> Seq<(K, V)>
    decreases es.len(),
{
    if es.len() == 0 {
        es
    } else if keep(es.last().0) {
        retained(es.drop_last(), keep).push(es.last())
    } else {
        retained(es.drop_last(), keep)
    }
}

/// `es` without the entry under `k`, the others in their order.
pub open spec fn without_key<K, V>(es: Seq<(K, V)>, k: K) -> Seq<(K, V)> {
    retained(es, |x: K| x != k)
}

/// With unique keys, `with_entry` overwrites the one entry found at `i`.
pub proof fn lemma_with_entry_at<K, V>(es: Seq<(K, V)>, k: K, v: V, i: int)
    requires
        keys_unique(es),
        0 <= i < es.len(),
        es[i].0 == k,
    ensures
        with_entry(es, k, v) == es.update(i, (k, v)),
{
    let j = choose|j: int| 0 <= j < es.len() && es[j].0 == k;
    assert(j == i);
}

/// `with_entry` keeps keys unique and holds `v` under `k`.
pub proof fn lemma_with_entry_unique<K, V>(es: Seq<(K, V)>, k: K, v: V)
    requires
        keys_unique(es),
    ensures
        keys_unique(with_entry(es, k, v)),
        exists|i: int|
            0 <= i < with_entry(es, k, v).len() && #[trigger] with_entry(es, k, v)[i] == (k, v),
{
    let r = with_entry(es, k, v);
    if has_key(es, k) {
        let i = choose|i: int| 0 <= i < es.len() && es[i].0 == k;
        assert(r[i] == (k, v));
    } else {
        assert(r[es.len() as int] == (k, v));
    }
}

/// Every entry that `retained` keeps is an entry of `es` whose key is accepted.
pub proof fn lemma_retained_from<K, V>(es: Seq<(K, V)>, keep: spec_fn(K) -> bool)
    ensures
        forall|j: int|
            #![trigger retained(es, keep)[j]]
            0 <= j < retained(es, keep).len() ==> keep(retained(es, keep)[j].0) && es.contains(
                retained(es, keep)[j],
            ),
    decreases es.len(),
{
    if es.len() > 0 {
        lemma_retained_from(es.drop_last(), keep);
        let r = retained(es, keep);
        let p = retained(es.drop_last(), keep);
        assert forall|j: int| 0 <= j < r.len() implies keep(#[trigger] r[j].0) && es.contains(
            r[j],
        ) by {
            if j < p.len() {
                assert(es.drop_last().contains(p[j]));
                let t = choose|t: int| 0 <= t < es.drop_last().len() && es.drop_last()[t] == p[j];
                assert(es[t] == r[j]);
            } else {
                assert(es[es.len() - 1] == r[j]);
            }
        }
    }
}

/// Keeping some of the entries keeps the keys unique.
pub proof fn lemma_retained_unique<K, V>(es: Seq<(K, V)>, keep: spec_fn(K) -> bool)
    requires
        keys_unique(es),
    ensures
        keys_unique(retained(es, keep)),
    decreases es.len(),
{
    if es.len() > 0 {
        let d = es.drop_last();
        assert(keys_unique(d));
        lemma_retained_unique(d, keep);
        lemma_retained_from(d, keep);
        let p = retained(d, keep);
        if keep(es.last().0) {
            let r = p.push(es.last());
            assert forall|i: int, j: int| 0 <= i < j < r.len() implies r[i].0 != r[j].0 by {
                if j == p.len() {
                    assert(d.contains(p[i]));
                    let t = choose|t: int| 0 <= t < d.len() && d[t] == p[i];
                    assert(es[t] == p[i]);
                }
            }
        }
    }
}

/// Removing a key keeps the keys unique.
pub proof fn lemma_without_key_unique<K, V>(es: Seq<(K, V)>, k: K)
    requires
        keys_unique(es),
    ensures
        keys_unique(without_key(es, k)),
{
    lemma_retained_unique(es, |x: K| x != k);
}

/// When every key is accepted, nothing is dropped.
pub proof fn lemma_retained_all<K, V>(es: Seq<(K, V)>, keep: spec_fn(K) -> bool)
    requires
        forall|i: int| 0 <= i < es.len() ==> keep(#[trigger] es[i].0),
    ensures
        retained(es, keep) == es,
    decreases es.len(),
{
    if es.len() > 0 {
        lemma_retained_all(es.drop_last(), keep);
        assert(es.drop_last().push(es.last()) =~= es);
    }
}

} // verus!
