//! Facts about filtered sequences that the shell's proofs share.

use vstd::prelude::*;

verus! {

/// A filtered sequence holds exactly the members that satisfy the predicate.
pub proof fn lemma_filter_members<A>(s: Seq<A>, pred: spec_fn(A) -> bool)
    ensures
        forall|x: A| #[trigger] s.filter(pred).contains(x) <==> s.contains(x) && pred(x),
    decreases s.len(),
{
    if s.len() == 0 {
        reveal(Seq::filter);
        assert(s.filter(pred) =~= Seq::<A>::empty());
    } else {
        let t = s.drop_last();
        let last = s.last();
        assert(s =~= t.push(last));
        t.lemma_filter_push(last, pred);
        lemma_filter_members(t, pred);
        assert forall|x: A| #[trigger] s.filter(pred).contains(x) <==> s.contains(x) && pred(
            x,
        ) by {
            if s.filter(pred).contains(x) {
                if pred(last) {
                    let i = choose|i: int|
                        0 <= i < s.filter(pred).len() && s.filter(pred)[i] == x;
                    if i < t.filter(pred).len() {
                        assert(t.filter(pred)[i] == x);
                        assert(t.filter(pred).contains(x));
                    }
                }
                if x != last {
                    assert(t.filter(pred).contains(x));
                    let j = choose|j: int| 0 <= j < t.len() && t[j] == x;
                    assert(s[j] == x);
                } else {
                    assert(s[s.len() - 1] == x);
                }
            }
            if s.contains(x) && pred(x) {
                let j = choose|j: int| 0 <= j < s.len() && s[j] == x;
                if j < t.len() {
                    assert(t[j] == x);
                    assert(t.filter(pred).contains(x));
                    let i = choose|i: int|
                        0 <= i < t.filter(pred).len() && t.filter(pred)[i] == x;
                    assert(s.filter(pred)[i] == x);
                } else {
                    assert(x == last);
                    assert(s.filter(pred)[t.filter(pred).len() as int] == x);
                }
            }
        }
    }
}

/// Filtering a sequence without duplicates leaves no duplicates.
pub proof fn lemma_filter_no_duplicates<A>(s: Seq<A>, pred: spec_fn(A) -> bool)
    requires
        s.no_duplicates(),
    ensures
        s.filter(pred).no_duplicates(),
    decreases s.len(),
{
    if s.len() == 0 {
        reveal(Seq::filter);
        assert(s.filter(pred) =~= Seq::<A>::empty());
    } else {
        let t = s.drop_last();
        let last = s.last();
        assert(s =~= t.push(last));
        t.lemma_filter_push(last, pred);
        lemma_filter_no_duplicates(t, pred);
        lemma_filter_members(t, pred);
        if pred(last) {
            if t.contains(last) {
                let j = choose|j: int| 0 <= j < t.len() && t[j] == last;
                assert(s[j] == s[s.len() - 1]);
            }
            assert(!t.filter(pred).contains(last));
        }
    }
}

/// A sequence without `x` is left as it is by the filter that drops `x`.
pub proof fn lemma_filter_absent<A>(s: Seq<A>, pred: spec_fn(A) -> bool)
    requires
        forall|i: int| 0 <= i < s.len() ==> pred(#[trigger] s[i]),
    ensures
        s.filter(pred) == s,
    decreases s.len(),
{
    if s.len() == 0 {
        reveal(Seq::filter);
        assert(s.filter(pred) =~= s);
    } else {
        let t = s.drop_last();
        assert(s =~= t.push(s.last()));
        t.lemma_filter_push(s.last(), pred);
        lemma_filter_absent(t, pred);
    }
}

/// The first position of `s` whose item satisfies `pred`, if there is one.
pub open spec fn first_index<A>(s: Seq<A>, pred: spec_fn(A) -> bool) -> Option<int>
    decreases s.len(),
{
    if s.len() == 0 {
        None
    } else {
        match first_index(s.drop_last(), pred) {
            Some(i) => Some(i),
            None => if pred(s.last()) {
                Some(s.len() - 1)
            } else {
                None
            },
        }
    }
}

/// `first_index` gives a position that satisfies the predicate and before
/// which none does; it gives none only where no item satisfies it.
pub proof fn lemma_first_index<A>(s: Seq<A>, pred: spec_fn(A) -> bool)
    ensures
        match first_index(s, pred) {
            Some(i) => 0 <= i < s.len() && pred(s[i]) && forall|j: int|
                0 <= j < i ==> !pred(#[trigger] s[j]),
            None => forall|j: int| 0 <= j < s.len() ==> !pred(#[trigger] s[j]),
        },
    decreases s.len(),
{
    if s.len() > 0 {
        let t = s.drop_last();
        lemma_first_index(t, pred);
        match first_index(t, pred) {
            Some(i) => {
                assert(t[i] == s[i]);
                assert forall|j: int| 0 <= j < i implies !pred(#[trigger] s[j]) by {
                    assert(t[j] == s[j]);
                }
            },
            None => {
                assert forall|j: int| 0 <= j < t.len() implies !pred(#[trigger] s[j]) by {
                    assert(t[j] == s[j]);
                }
            },
        }
    }
}

/// A position that satisfies the predicate and before which none does is
/// the one that `first_index` gives.
pub proof fn lemma_first_index_found<A>(s: Seq<A>, pred: spec_fn(A) -> bool, i: int)
    requires
        0 <= i < s.len(),
        pred(s[i]),
        forall|j: int| 0 <= j < i ==> !pred(#[trigger] s[j]),
    ensures
        first_index(s, pred) == Some(i),
{
    lemma_first_index(s, pred);
}

/// Where no item satisfies the predicate, `first_index` gives none.
pub proof fn lemma_first_index_absent<A>(s: Seq<A>, pred: spec_fn(A) -> bool)
    requires
        forall|j: int| 0 <= j < s.len() ==> !pred(#[trigger] s[j]),
    ensures
        first_index(s, pred) is None,
{
    lemma_first_index(s, pred);
}

} // verus!
