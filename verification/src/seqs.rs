//! Two small tools on sequences: finding the first element with a property
//! and keeping the elements with a property.

use vstd::prelude::*;

verus! {

/// The index of the first element that `p` holds of, or -1.
pub open spec fn first_match<T>(s: Seq<T>, p: spec_fn(T) -> bool) -> int
    decreases s.len(),
{
    if s.len() == 0 {
        -1
    } else {
        let f = first_match(s.drop_last(), p);
        if f >= 0 {
            f
        } else if p(s.last()) {
            s.len() - 1
        } else {
            -1
        }
    }
}

/// `first_match` finds the first element that `p` holds of, and is
/// negative exactly when there is none.
pub proof fn lemma_first_match<T>(s: Seq<T>, p: spec_fn(T) -> bool)
    ensures
        -1 <= first_match(s, p) < s.len(),
        first_match(s, p) >= 0 ==> p(s[first_match(s, p)]),
        forall|i: int| 0 <= i < s.len() && (first_match(s, p) < 0 || i < first_match(s, p)) ==> !p(
            #[trigger] s[i],
        ),
    decreases s.len(),
{
    if s.len() > 0 {
        lemma_first_match(s.drop_last(), p);
        assert forall|i: int|
            0 <= i < s.len() && (first_match(s, p) < 0 || i < first_match(s, p)) implies !p(
            #[trigger] s[i],
        ) by {
            if i < s.len() - 1 {
                assert(s[i] == s.drop_last()[i]);
            }
        }
    }
}

/// An index at which `p` holds, with `p` false before it, is the first
/// match.
pub proof fn lemma_first_match_is<T>(s: Seq<T>, p: spec_fn(T) -> bool, k: int)
    requires
        0 <= k < s.len(),
        p(s[k]),
        forall|i: int| 0 <= i < k ==> !p(#[trigger] s[i]),
    ensures
        first_match(s, p) == k,
{
    lemma_first_match(s, p);
    let f = first_match(s, p);
    if f < 0 || k < f {
        assert(!p(s[k]));
    } else if f < k {
        assert(!p(s[f]));
    }
}

/// The elements of a list that `p` holds of, in the same order.
pub open spec fn keep<T>(s: Seq<T>, p: spec_fn(T) -> bool) -> Seq<T>
    decreases s.len(),
{
    if s.len() == 0 {
        s
    } else if p(s.last()) {
        keep(s.drop_last(), p).push(s.last())
    } else {
        keep(s.drop_last(), p)
    }
}

/// What `keep` leaves was in the list and `p` holds of it; and what `p`
/// holds of in the list is left.
pub proof fn lemma_keep<T>(s: Seq<T>, p: spec_fn(T) -> bool)
    ensures
        keep(s, p).len() <= s.len(),
        forall|k: int|
            0 <= k < keep(s, p).len() ==> p(#[trigger] keep(s, p)[k]) && s.contains(keep(s, p)[k]),
        forall|j: int| 0 <= j < s.len() && p(#[trigger] s[j]) ==> keep(s, p).contains(s[j]),
    decreases s.len(),
{
    if s.len() > 0 {
        let head = s.drop_last();
        lemma_keep(head, p);
        assert forall|k: int| 0 <= k < keep(s, p).len() implies p(#[trigger] keep(s, p)[k])
            && s.contains(keep(s, p)[k]) by {
            if k < keep(head, p).len() {
                let x = keep(head, p)[k];
                assert(head.contains(x));
                let j = choose|j: int| 0 <= j < head.len() && head[j] == x;
                assert(s[j] == x);
            } else {
                assert(s[s.len() - 1] == s.last());
            }
        }
        assert forall|j: int| 0 <= j < s.len() && p(#[trigger] s[j]) implies keep(s, p).contains(
            s[j],
        ) by {
            if j < head.len() {
                assert(head[j] == s[j]);
                assert(keep(head, p).contains(s[j]));
                let k = choose|k: int| 0 <= k < keep(head, p).len() && keep(head, p)[k] == s[j];
                assert(keep(s, p)[k] == s[j]);
            } else {
                assert(keep(s, p)[keep(s, p).len() - 1] == s[j]);
            }
        }
    }
}

/// The least of two numbers.
pub open spec fn least(a: int, b: int) -> int {
    if a < b {
        a
    } else {
        b
    }
}

} // verus!
