//! Lemmas on sequences: what a filter keeps, and where the first element
//! that meets a condition stands.

use crate::state::first_where;
use vstd::prelude::*;

verus! {

/// One more element of a sequence, seen through a filter.
pub proof fn lemma_filter_step<A>(s: Seq<A>, i: int, p: spec_fn(A) -> bool)
    requires
        0 <= i < s.len(),
    ensures
        s.take(i + 1).filter(p) == if p(s[i]) {
            s.take(i).filter(p).push(s[i])
        } else {
            s.take(i).filter(p)
        },
{
    reveal(Seq::filter);
    assert(s.take(i + 1).drop_last() =~= s.take(i));
}

/// A filter that every element passes changes nothing.
pub proof fn lemma_filter_keeps_all<A>(s: Seq<A>, p: spec_fn(A) -> bool)
    requires
        forall|i: int| 0 <= i < s.len() ==> p(#[trigger] s[i]),
    ensures
        s.filter(p) == s,
    decreases s.len(),
{
    reveal(Seq::filter);
    if s.len() > 0 {
        let front = s.drop_last();
        assert forall|i: int| 0 <= i < front.len() implies p(#[trigger] front[i]) by {
            assert(front[i] == s[i]);
        }
        lemma_filter_keeps_all(front, p);
        assert(front.push(s.last()) =~= s);
    }
}

/// Where no element meets `p`, the filter by `p` leaves nothing.
pub proof fn lemma_filter_of_none<A>(s: Seq<A>, p: spec_fn(A) -> bool)
    requires
        forall|i: int| 0 <= i < s.len() ==> !p(#[trigger] s[i]),
    ensures
        s.filter(p).len() == 0,
    decreases s.len(),
{
    reveal(Seq::filter);
    if s.len() > 0 {
        let front = s.drop_last();
        assert forall|i: int| 0 <= i < front.len() implies !p(#[trigger] front[i]) by {
            assert(front[i] == s[i]);
        }
        lemma_filter_of_none(front, p);
    }
}

/// The filter by `p` begins with the first element that meets `p`.
pub proof fn lemma_filter_begins_with_first<A>(s: Seq<A>, p: spec_fn(A) -> bool, i: int)
    requires
        0 <= i < s.len(),
        p(s[i]),
        forall|j: int| 0 <= j < i ==> !p(#[trigger] s[j]),
    ensures
        s.filter(p).len() > 0,
        s.filter(p)[0] == s[i],
    decreases s.len(),
{
    reveal(Seq::filter);
    let front = s.drop_last();
    if i == s.len() - 1 {
        assert forall|j: int| 0 <= j < front.len() implies !p(#[trigger] front[j]) by {
            assert(front[j] == s[j]);
        }
        lemma_filter_of_none(front, p);
    } else {
        assert(front[i] == s[i]);
        assert forall|j: int| 0 <= j < i implies !p(#[trigger] front[j]) by {
            assert(front[j] == s[j]);
        }
        lemma_filter_begins_with_first(front, p, i);
    }
}

/// A change of the elements that `p` does not see can be made before or
/// after filtering by `p`.
pub proof fn lemma_filter_of_changed<A>(s: Seq<A>, f: spec_fn(A) -> A, p: spec_fn(A) -> bool)
    requires
        forall|x: A| #[trigger] p(f(x)) == p(x),
    ensures
        s.map_values(f).filter(p) == s.filter(p).map_values(f),
    decreases s.len(),
{
    reveal(Seq::filter);
    if s.len() > 0 {
        lemma_filter_of_changed(s.drop_last(), f, p);
        assert(s.map_values(f).drop_last() =~= s.drop_last().map_values(f));
        assert(s.map_values(f).last() == f(s.last()));
        if p(s.last()) {
            assert(s.drop_last().filter(p).push(s.last()).map_values(f) =~= s.drop_last().filter(
                p,
            ).map_values(f).push(f(s.last())));
        }
    } else {
        assert(s.map_values(f) =~= s);
        assert(s.filter(p).map_values(f) =~= s.filter(p));
    }
}

/// Where some element meets `p`, there is a first one.
pub proof fn lemma_first_where_exists<A>(s: Seq<A>, p: spec_fn(A) -> bool, i: int)
    requires
        0 <= i < s.len(),
        p(s[i]),
    ensures
        first_where(s, p) is Some,
    decreases s.len(),
{
    if !p(s[0]) {
        assert(s.drop_first()[i - 1] == s[i]);
        lemma_first_where_exists(s.drop_first(), p, i - 1);
    }
}

/// Some element of `s` meets `p`: then there is a first.
pub proof fn lemma_first_index<A>(s: Seq<A>, p: spec_fn(A) -> bool, i: int) -> (first: int)
    requires
        0 <= i < s.len(),
        p(s[i]),
    ensures
        0 <= first <= i,
        p(s[first]),
        forall|j: int| 0 <= j < first ==> !p(#[trigger] s[j]),
    decreases i,
{
    if exists|j: int| 0 <= j < i && p(#[trigger] s[j]) {
        let j = choose|j: int| 0 <= j < i && p(#[trigger] s[j]);
        lemma_first_index(s, p, j)
    } else {
        i
    }
}

/// The first element that meets `p` is the one that `first_where` finds,
/// also under another predicate that agrees with `p` on the sequence.
pub proof fn lemma_first_where_finds_first<A>(
    s: Seq<A>,
    p: spec_fn(A) -> bool,
    q: spec_fn(A) -> bool,
    i: int,
)
    requires
        0 <= i < s.len(),
        p(s[i]),
        forall|j: int| 0 <= j < i ==> !p(#[trigger] s[j]),
        forall|j: int| 0 <= j < s.len() ==> p(#[trigger] s[j]) == q(s[j]),
    ensures
        first_where(s, q) == Some(s[i]),
    decreases s.len(),
{
    if i > 0 {
        let rest = s.drop_first();
        assert(!p(s[0]));
        assert(rest[i - 1] == s[i]);
        assert forall|j: int| 0 <= j < i - 1 implies !p(#[trigger] rest[j]) by {
            assert(rest[j] == s[j + 1]);
        }
        assert forall|j: int| 0 <= j < rest.len() implies p(#[trigger] rest[j]) == q(rest[j]) by {
            assert(rest[j] == s[j + 1]);
        }
        lemma_first_where_finds_first(rest, p, q, i - 1);
    }
}

} // verus!
