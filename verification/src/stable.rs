//! Facts about keeping the items of each key in their order while inserting
//! one item into a list: what the stable sorts of the library rest on.
use vstd::prelude::*;

verus! {

/// A list with no item that passes keeps nothing.
pub proof fn lemma_filter_none<A>(b: Seq<A>, p: spec_fn(A) -> bool)
    requires
        forall|k: int| 0 <= k < b.len() ==> !p(#[trigger] b[k]),
    ensures
        b.filter(p) == Seq::<A>::empty(),
    decreases b.len(),
{
    if b.len() > 0 {
        let d = b.drop_last();
        assert forall|k: int| 0 <= k < d.len() implies !p(#[trigger] d[k]) by {
            assert(d[k] == b[k]);
        }
        lemma_filter_none(d, p);
        d.lemma_filter_push(b.last(), p);
        assert(d.push(b.last()) =~= b);
    }
}

/// Inserting an item that does not pass leaves what passes unchanged.
pub proof fn lemma_filter_insert_unmatched<A>(s: Seq<A>, i: int, x: A, p: spec_fn(A) -> bool)
    requires
        0 <= i <= s.len(),
        !p(x),
    ensures
        s.insert(i, x).filter(p) == s.filter(p),
{
    let a = s.take(i);
    let b = s.skip(i);
    assert(s =~= a + b);
    assert(s.insert(i, x) =~= a.push(x) + b);
    Seq::filter_distributes_over_add(a.push(x), b, p);
    Seq::filter_distributes_over_add(a, b, p);
    a.lemma_filter_push(x, p);
}

/// Inserting a passing item after every other passing item puts it last
/// among them.
pub proof fn lemma_filter_insert_after_matches<A>(s: Seq<A>, i: int, x: A, p: spec_fn(A) -> bool)
    requires
        0 <= i <= s.len(),
        p(x),
        forall|k: int| i <= k < s.len() ==> !p(#[trigger] s[k]),
    ensures
        s.insert(i, x).filter(p) == s.filter(p).push(x),
{
    let a = s.take(i);
    let b = s.skip(i);
    assert(s =~= a + b);
    assert(s.insert(i, x) =~= a.push(x) + b);
    assert forall|k: int| 0 <= k < b.len() implies !p(#[trigger] b[k]) by {
        assert(b[k] == s[i + k]);
    }
    lemma_filter_none(b, p);
    Seq::filter_distributes_over_add(a.push(x), b, p);
    Seq::filter_distributes_over_add(a, b, p);
    a.lemma_filter_push(x, p);
    assert(a.filter(p) + Seq::<A>::empty() =~= a.filter(p));
    assert(a.filter(p).push(x) + Seq::<A>::empty() =~= a.filter(p).push(x));
}

} // verus!
