//! Facts about `Seq::filter` and `Seq::filter_map` that the filter's laws
//! rest on.

use vstd::prelude::*;

verus! {

/// Number of elements among the first `i` that `f` keeps: the place at
/// which the image of element `i` lands in `s.filter_map(f)`, if it is kept.
pub open spec fn kept_before<A, B>(s: Seq<A>, f: spec_fn(A) -> Option<B>, i: int) -> nat {
    s.take(i).filter_map(f).len()
}

/// Filtering a sequence whose elements all satisfy the predicate changes
/// nothing.
pub proof fn lemma_filter_all<A>(s: Seq<A>, pred: spec_fn(A) -> bool)
    requires
        forall|i: int| 0 <= i < s.len() ==> pred(#[trigger] s[i]),
    ensures
        s.filter(pred) == s,
    decreases s.len(),
{
    reveal(Seq::filter);
    if s.len() > 0 {
        let rest = s.drop_last();
        assert forall|i: int| 0 <= i < rest.len() implies pred(#[trigger] rest[i]) by {
            assert(rest[i] == s[i]);
        }
        lemma_filter_all(rest, pred);
        assert(pred(s[s.len() - 1]));
        assert(rest.push(s.last()) =~= s);
    }
}

/// A `filter_map` that maps every element of a sequence to itself changes
/// nothing.
pub proof fn lemma_filter_map_fixed<A>(s: Seq<A>, f: spec_fn(A) -> Option<A>)
    requires
        forall|i: int| 0 <= i < s.len() ==> f(#[trigger] s[i]) == Some(s[i]),
    ensures
        s.filter_map(f) == s,
    decreases s.len(),
{
    if s.len() > 0 {
        let rest = s.drop_last();
        assert forall|i: int| 0 <= i < rest.len() implies f(#[trigger] rest[i]) == Some(
            rest[i],
        ) by {
            assert(rest[i] == s[i]);
        }
        lemma_filter_map_fixed(rest, f);
        assert(f(s[s.len() - 1]) == Some(s.last()));
        assert(rest + seq![s.last()] =~= s);
    } else {
        assert(s.filter_map(f) =~= s);
    }
}

/// The image of a kept element stands in the output at the place given by
/// the number of kept elements before it.
pub proof fn lemma_filter_map_place<A, B>(s: Seq<A>, f: spec_fn(A) -> Option<B>, i: int)
    requires
        0 <= i < s.len(),
        f(s[i]) is Some,
    ensures
        kept_before(s, f, i) < s.filter_map(f).len(),
        s.filter_map(f)[kept_before(s, f, i) as int] == f(s[i])->0,
    decreases s.len(),
{
    let rest = s.drop_last();
    if i == s.len() - 1 {
        assert(s.take(i) =~= rest);
    } else {
        lemma_filter_map_place(rest, f, i);
        assert(rest.take(i) =~= s.take(i));
        assert(rest[i] == s[i]);
    }
}

/// The number of kept elements before a place grows with the place, and
/// grows strictly past a kept element.
pub proof fn lemma_kept_before_monotone<A, B>(
    s: Seq<A>,
    f: spec_fn(A) -> Option<B>,
    i: int,
    j: int,
)
    requires
        0 <= i <= j <= s.len(),
    ensures
        kept_before(s, f, i) <= kept_before(s, f, j),
        i < j && f(s[i]) is Some ==> kept_before(s, f, i) < kept_before(s, f, j),
    decreases j - i,
{
    if i < j {
        lemma_kept_before_monotone(s, f, i, j - 1);
        s.lemma_filter_map_take_succ(f, j - 1);
        if i == j - 1 && f(s[i]) is Some {
            assert(s.take(j).filter_map(f).len() == s.take(i).filter_map(f).len() + 1);
        }
    }
}

/// Every element of the output is the image of a kept element, and stands
/// at the place given by the number of kept elements before that one.
pub proof fn lemma_filter_map_origin<A, B>(s: Seq<A>, f: spec_fn(A) -> Option<B>, j: int) -> (i:
    int)
    requires
        0 <= j < s.filter_map(f).len(),
    ensures
        0 <= i < s.len(),
        f(s[i]) == Some(s.filter_map(f)[j]),
        kept_before(s, f, i) == j,
    decreases s.len(),
{
    let rest = s.drop_last();
    assert(s.take(s.len() - 1) =~= rest);
    if f(s.last()) is Some && j == rest.filter_map(f).len() {
        s.len() - 1
    } else {
        let i = lemma_filter_map_origin(rest, f, j);
        assert(rest.take(i) =~= s.take(i));
        assert(rest[i] == s[i]);
        i
    }
}

} // verus!
