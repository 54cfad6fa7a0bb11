//! Searching, counting and thinning a sequence by a predicate, each defined
//! from the front of the sequence, with the facts the history needs of them.

use vstd::prelude::*;

verus! {

/// Index of the first element that satisfies `p`, or the length of `s` where
/// none does.
pub open spec fn first_where<A>(s: Seq<A>, p: spec_fn(A) -> bool) -> int
    decreases s.len(),
{
    if s.len() == 0 {
        0
    } else if p(s[0]) {
        0
    } else {
        1 + first_where(s.skip(1), p)
    }
}

/// Number of elements that satisfy `p`.
pub open spec fn count_where<A>(s: Seq<A>, p: spec_fn(A) -> bool) -> nat
    decreases s.len(),
{
    if s.len() == 0 {
        0
    } else if p(s[0]) {
        1 + count_where(s.skip(1), p)
    } else {
        count_where(s.skip(1), p)
    }
}

/// The elements that satisfy `p`, in their order.
pub open spec fn select<A>(s: Seq<A>, p: spec_fn(A) -> bool) -> Seq<A>
    decreases s.len(),
{
    if s.len() == 0 {
        Seq::empty()
    } else if p(s[0]) {
        seq![s[0]] + select(s.skip(1), p)
    } else {
        select(s.skip(1), p)
    }
}

/// Every element that does not satisfy `p`, and of those that do the first
/// `cap`, in their order.
pub open spec fn retain_first<A>(s: Seq<A>, p: spec_fn(A) -> bool, cap: nat) -> Seq<A>
    decreases s.len(),
{
    if s.len() == 0 {
        Seq::empty()
    } else if !p(s[0]) {
        seq![s[0]] + retain_first(s.skip(1), p, cap)
    } else if cap > 0 {
        seq![s[0]] + retain_first(s.skip(1), p, (cap - 1) as nat)
    } else {
        retain_first(s.skip(1), p, 0)
    }
}

/// The smaller of two numbers.
pub open spec fn min_nat(a: nat, b: nat) -> nat {
    if a <= b {
        a
    } else {
        b
    }
}

/// `first_where` gives an index within the sequence or its length; no
/// earlier element satisfies `p`, and the element there does.
pub proof fn lemma_first_where<A>(s: Seq<A>, p: spec_fn(A) -> bool)
    ensures
        0 <= first_where(s, p) <= s.len(),
        forall|j: int| 0 <= j < first_where(s, p) ==> !p(#[trigger] s[j]),
        first_where(s, p) < s.len() ==> p(s[first_where(s, p)]),
    decreases s.len(),
{
    if s.len() > 0 && !p(s[0]) {
        let t = s.skip(1);
        lemma_first_where(t, p);
        assert forall|j: int| 0 <= j < first_where(s, p) implies !p(#[trigger] s[j]) by {
            if j > 0 {
                assert(s[j] == t[j - 1]);
            }
        }
    }
}

/// An index is the one `first_where` gives when no earlier element
/// satisfies `p` and the element there does, or the sequence ends there.
pub proof fn lemma_first_where_is<A>(s: Seq<A>, p: spec_fn(A) -> bool, i: int)
    requires
        0 <= i <= s.len(),
        forall|j: int| 0 <= j < i ==> !p(#[trigger] s[j]),
        i < s.len() ==> p(s[i]),
    ensures
        first_where(s, p) == i,
    decreases i,
{
    if i > 0 {
        let t = s.skip(1);
        assert(!p(s[0]));
        assert forall|j: int| 0 <= j < i - 1 implies !p(#[trigger] t[j]) by {
            assert(t[j] == s[j + 1]);
        }
        lemma_first_where_is(t, p, i - 1);
    }
}

/// No more elements are counted than there are, and none exactly when
/// `first_where` finds none.
pub proof fn lemma_count_where<A>(s: Seq<A>, p: spec_fn(A) -> bool)
    ensures
        count_where(s, p) <= s.len(),
        count_where(s, p) == 0 <==> first_where(s, p) == s.len(),
    decreases s.len(),
{
    if s.len() > 0 {
        lemma_count_where(s.skip(1), p);
        lemma_first_where(s.skip(1), p);
    }
}

/// Removing an element, seen from the second element on.
pub proof fn lemma_skip_remove<A>(s: Seq<A>, j: int)
    requires
        0 <= j < s.len(),
    ensures
        j == 0 ==> s.remove(j) == s.skip(1),
        j > 0 ==> s.remove(j).skip(1) == s.skip(1).remove(j - 1),
        j > 0 ==> s.remove(j)[0] == s[0],
        j > 0 ==> s.skip(1)[j - 1] == s[j],
{
    if j == 0 {
        assert(s.remove(j) =~= s.skip(1));
    } else {
        assert(s.remove(j).skip(1) =~= s.skip(1).remove(j - 1));
    }
}

/// Inserting an element, seen from the second element on.
pub proof fn lemma_skip_insert<A>(s: Seq<A>, i: int, x: A)
    requires
        0 <= i <= s.len(),
    ensures
        s.insert(i, x).len() == s.len() + 1,
        i == 0 ==> s.insert(i, x).skip(1) == s && s.insert(i, x)[0] == x,
        i > 0 ==> s.insert(i, x).skip(1) == s.skip(1).insert(i - 1, x),
        i > 0 ==> s.insert(i, x)[0] == s[0],
{
    if i == 0 {
        assert(s.insert(i, x).skip(1) =~= s);
    } else {
        assert(s.insert(i, x).skip(1) =~= s.skip(1).insert(i - 1, x));
    }
}

/// Removing an element takes it out of the count where it satisfies `p`.
pub proof fn lemma_count_remove<A>(s: Seq<A>, p: spec_fn(A) -> bool, j: int)
    requires
        0 <= j < s.len(),
    ensures
        count_where(s, p) == count_where(s.remove(j), p) + if p(s[j]) {
            1nat
        } else {
            0nat
        },
    decreases s.len(),
{
    lemma_skip_remove(s, j);
    if j > 0 {
        lemma_count_remove(s.skip(1), p, j - 1);
    }
}

/// Inserting an element adds it to the count where it satisfies `p`.
pub proof fn lemma_count_insert<A>(s: Seq<A>, p: spec_fn(A) -> bool, i: int, x: A)
    requires
        0 <= i <= s.len(),
    ensures
        count_where(s.insert(i, x), p) == count_where(s, p) + if p(x) {
            1nat
        } else {
            0nat
        },
    decreases s.len(),
{
    lemma_skip_insert(s, i, x);
    if i > 0 {
        lemma_count_insert(s.skip(1), p, i - 1, x);
    }
}

/// A sequence with an element put in front of it.
pub proof fn lemma_cons<A>(x: A, t: Seq<A>)
    ensures
        (seq![x] + t).len() == t.len() + 1,
        (seq![x] + t)[0] == x,
        (seq![x] + t).skip(1) == t,
{
    assert((seq![x] + t).skip(1) =~= t);
}

/// Where no more than `cap` elements satisfy `p`, nothing is dropped.
pub proof fn lemma_retain_all<A>(s: Seq<A>, p: spec_fn(A) -> bool, cap: nat)
    requires
        count_where(s, p) <= cap,
    ensures
        retain_first(s, p, cap) == s,
    decreases s.len(),
{
    if s.len() == 0 {
        assert(s =~= Seq::<A>::empty());
    } else {
        let t = s.skip(1);
        if !p(s[0]) {
            lemma_retain_all(t, p, cap);
        } else {
            lemma_retain_all(t, p, (cap - 1) as nat);
        }
        assert(seq![s[0]] + t =~= s);
    }
}

/// Dropping the last element that satisfies `p`, while more than `cap` do,
/// does not change what `retain_first` keeps.
pub proof fn lemma_retain_remove_last<A>(s: Seq<A>, p: spec_fn(A) -> bool, cap: nat, j: int)
    requires
        0 <= j < s.len(),
        p(s[j]),
        forall|k: int| j < k < s.len() ==> !p(#[trigger] s[k]),
        count_where(s, p) > cap,
    ensures
        retain_first(s.remove(j), p, cap) == retain_first(s, p, cap),
    decreases s.len(),
{
    let t = s.skip(1);
    lemma_skip_remove(s, j);
    if j == 0 {
        // every later element fails `p`, so exactly one element satisfies it
        assert forall|k: int| 0 <= k < t.len() implies !p(#[trigger] t[k]) by {
            assert(t[k] == s[k + 1]);
        }
        lemma_first_where_is(t, p, t.len() as int);
        lemma_count_where(t, p);
        assert(count_where(s, p) == 1);
        assert(cap == 0);
    } else {
        assert forall|k: int| j - 1 < k < t.len() implies !p(#[trigger] t[k]) by {
            assert(t[k] == s[k + 1]);
        }
        if !p(s[0]) {
            lemma_retain_remove_last(t, p, cap, j - 1);
        } else if cap > 0 {
            lemma_retain_remove_last(t, p, (cap - 1) as nat, j - 1);
        } else {
            lemma_count_remove(t, p, j - 1);
            lemma_retain_remove_last(t, p, 0, j - 1);
        }
    }
}

/// What `retain_first` keeps: its length, and how many of its elements
/// satisfy `p`.
pub proof fn lemma_retain_count<A>(s: Seq<A>, p: spec_fn(A) -> bool, cap: nat)
    ensures
        count_where(retain_first(s, p, cap), p) == min_nat(count_where(s, p), cap),
        retain_first(s, p, cap).len() + count_where(s, p) == s.len() + min_nat(
            count_where(s, p),
            cap,
        ),
    decreases s.len(),
{
    if s.len() > 0 {
        let t = s.skip(1);
        if !p(s[0]) {
            lemma_retain_count(t, p, cap);
            lemma_cons(s[0], retain_first(t, p, cap));
        } else if cap > 0 {
            lemma_retain_count(t, p, (cap - 1) as nat);
            lemma_cons(s[0], retain_first(t, p, (cap - 1) as nat));
        } else {
            lemma_retain_count(t, p, 0);
        }
    }
}

/// `retain_first` drops only elements that satisfy `p`: a selection by a
/// predicate that excludes `p` is left as it was.
pub proof fn lemma_retain_select<A>(
    s: Seq<A>,
    p: spec_fn(A) -> bool,
    q: spec_fn(A) -> bool,
    cap: nat,
)
    requires
        forall|x: A| #[trigger] q(x) ==> !p(x),
    ensures
        select(retain_first(s, p, cap), q) == select(s, q),
    decreases s.len(),
{
    if s.len() > 0 {
        let t = s.skip(1);
        if !p(s[0]) {
            lemma_retain_select(t, p, q, cap);
            lemma_cons(s[0], retain_first(t, p, cap));
        } else if cap > 0 {
            lemma_retain_select(t, p, q, (cap - 1) as nat);
            lemma_cons(s[0], retain_first(t, p, (cap - 1) as nat));
            assert(!q(s[0]));
        } else {
            lemma_retain_select(t, p, q, 0);
            assert(!q(s[0]));
        }
    }
}

/// With room for at least one, `retain_first` leaves the sequence as it is
/// up to and including the first element that satisfies `p`.
pub proof fn lemma_retain_first_where<A>(s: Seq<A>, p: spec_fn(A) -> bool, cap: nat)
    requires
        cap > 0,
    ensures
        first_where(retain_first(s, p, cap), p) == first_where(s, p),
        first_where(s, p) < s.len() ==> first_where(s, p) < retain_first(s, p, cap).len()
            && retain_first(s, p, cap)[first_where(s, p)] == s[first_where(s, p)],
        first_where(s, p) <= retain_first(s, p, cap).len(),
        forall|i: int|
            0 <= i < first_where(s, p) ==> #[trigger] retain_first(s, p, cap)[i] == s[i],
    decreases s.len(),
{
    if s.len() > 0 {
        let t = s.skip(1);
        if !p(s[0]) {
            lemma_retain_first_where(t, p, cap);
            let rest = retain_first(t, p, cap);
            lemma_cons(s[0], rest);
            lemma_first_where(t, p);
            assert forall|i: int| 0 <= i < first_where(s, p) implies #[trigger] retain_first(
                s,
                p,
                cap,
            )[i] == s[i] by {
                if i > 0 {
                    assert(retain_first(s, p, cap)[i] == rest[i - 1]);
                    assert(t[i - 1] == s[i]);
                }
            }
        } else {
            lemma_cons(s[0], retain_first(t, p, (cap - 1) as nat));
        }
    }
}

/// Inserting an element that fails `q` leaves the selection by `q` as it is.
pub proof fn lemma_select_insert<A>(s: Seq<A>, q: spec_fn(A) -> bool, i: int, x: A)
    requires
        0 <= i <= s.len(),
        !q(x),
    ensures
        select(s.insert(i, x), q) == select(s, q),
    decreases s.len(),
{
    lemma_skip_insert(s, i, x);
    if i > 0 {
        lemma_select_insert(s.skip(1), q, i - 1, x);
    }
}

/// Removing an element that fails `q` leaves the selection by `q` as it is.
pub proof fn lemma_select_remove<A>(s: Seq<A>, q: spec_fn(A) -> bool, j: int)
    requires
        0 <= j < s.len(),
        !q(s[j]),
    ensures
        select(s.remove(j), q) == select(s, q),
    decreases s.len(),
{
    lemma_skip_remove(s, j);
    if j > 0 {
        lemma_select_remove(s.skip(1), q, j - 1);
    }
}

/// A selection holds only elements of the sequence that satisfy the
/// predicate, and as many as `count_where` counts.
pub proof fn lemma_select<A>(s: Seq<A>, q: spec_fn(A) -> bool)
    ensures
        select(s, q).len() == count_where(s, q),
        forall|i: int| 0 <= i < select(s, q).len() ==> q(#[trigger] select(s, q)[i]),
        forall|i: int|
            0 <= i < select(s, q).len() ==> s.contains(#[trigger] select(s, q)[i]),
    decreases s.len(),
{
    if s.len() > 0 {
        let t = s.skip(1);
        lemma_select(t, q);
        let r = select(s, q);
        assert forall|i: int| 0 <= i < r.len() implies q(#[trigger] r[i]) && s.contains(r[i]) by {
            if q(s[0]) {
                lemma_cons(s[0], select(t, q));
                if i == 0 {
                    assert(s[0] == r[0]);
                } else {
                    assert(r[i] == select(t, q)[i - 1]);
                    let k = choose|k: int| 0 <= k < t.len() && t[k] == select(t, q)[i - 1];
                    assert(s[k + 1] == r[i]);
                }
            } else {
                let k = choose|k: int| 0 <= k < t.len() && t[k] == r[i];
                assert(s[k + 1] == r[i]);
            }
        }
    }
}

/// Every pair of elements, the earlier one first, stands in the relation.
pub open spec fn pairwise<A>(s: Seq<A>, related: spec_fn(A, A) -> bool) -> bool {
    forall|i: int, j: int| 0 <= i < j < s.len() ==> related(#[trigger] s[i], #[trigger] s[j])
}

/// What `retain_first` keeps are elements of the sequence.
pub proof fn lemma_retain_members<A>(s: Seq<A>, p: spec_fn(A) -> bool, cap: nat)
    ensures
        forall|k: int|
            0 <= k < retain_first(s, p, cap).len() ==> s.contains(
                #[trigger] retain_first(s, p, cap)[k],
            ),
    decreases s.len(),
{
    if s.len() > 0 {
        let t = s.skip(1);
        let next: nat = if p(s[0]) && cap > 0 {
            (cap - 1) as nat
        } else {
            cap
        };
        lemma_retain_members(t, p, next);
        let kept = retain_first(s, p, cap);
        let rest = retain_first(t, p, next);
        assert forall|k: int| 0 <= k < kept.len() implies s.contains(#[trigger] kept[k]) by {
            if !p(s[0]) || cap > 0 {
                lemma_cons(s[0], rest);
                if k == 0 {
                    assert(s[0] == kept[0]);
                } else {
                    assert(kept[k] == rest[k - 1]);
                    let m = choose|m: int| 0 <= m < t.len() && t[m] == rest[k - 1];
                    assert(s[m + 1] == kept[k]);
                }
            } else {
                let m = choose|m: int| 0 <= m < t.len() && t[m] == kept[k];
                assert(s[m + 1] == kept[k]);
            }
        }
    }
}

/// A relation that holds of every pair of the sequence holds of every pair
/// of what `retain_first` keeps.
pub proof fn lemma_retain_pairwise<A>(
    s: Seq<A>,
    p: spec_fn(A) -> bool,
    cap: nat,
    related: spec_fn(A, A) -> bool,
)
    requires
        pairwise(s, related),
    ensures
        pairwise(retain_first(s, p, cap), related),
    decreases s.len(),
{
    if s.len() > 0 {
        let t = s.skip(1);
        let next: nat = if p(s[0]) && cap > 0 {
            (cap - 1) as nat
        } else {
            cap
        };
        assert(pairwise(t, related)) by {
            assert forall|i: int, j: int| 0 <= i < j < t.len() implies related(
                #[trigger] t[i],
                #[trigger] t[j],
            ) by {
                assert(t[i] == s[i + 1] && t[j] == s[j + 1]);
            }
        }
        lemma_retain_pairwise(t, p, next, related);
        lemma_retain_members(t, p, next);
        let kept = retain_first(s, p, cap);
        let rest = retain_first(t, p, next);
        if !p(s[0]) || cap > 0 {
            lemma_cons(s[0], rest);
            assert forall|i: int, j: int| 0 <= i < j < kept.len() implies related(
                #[trigger] kept[i],
                #[trigger] kept[j],
            ) by {
                assert(kept[j] == rest[j - 1]);
                if i == 0 {
                    let m = choose|m: int| 0 <= m < t.len() && t[m] == rest[j - 1];
                    assert(s[m + 1] == kept[j]);
                    assert(related(s[0], s[m + 1]));
                } else {
                    assert(kept[i] == rest[i - 1]);
                }
            }
        }
    }
}

/// A relation that holds of every pair of the sequence holds of every pair
/// of a selection from it.
pub proof fn lemma_select_pairwise<A>(
    s: Seq<A>,
    q: spec_fn(A) -> bool,
    related: spec_fn(A, A) -> bool,
)
    requires
        pairwise(s, related),
    ensures
        pairwise(select(s, q), related),
    decreases s.len(),
{
    if s.len() > 0 {
        let t = s.skip(1);
        assert(pairwise(t, related)) by {
            assert forall|i: int, j: int| 0 <= i < j < t.len() implies related(
                #[trigger] t[i],
                #[trigger] t[j],
            ) by {
                assert(t[i] == s[i + 1] && t[j] == s[j + 1]);
            }
        }
        lemma_select_pairwise(t, q, related);
        lemma_select(t, q);
        let kept = select(s, q);
        let rest = select(t, q);
        if q(s[0]) {
            lemma_cons(s[0], rest);
            assert forall|i: int, j: int| 0 <= i < j < kept.len() implies related(
                #[trigger] kept[i],
                #[trigger] kept[j],
            ) by {
                assert(kept[j] == rest[j - 1]);
                if i == 0 {
                    let m = choose|m: int| 0 <= m < t.len() && t[m] == rest[j - 1];
                    assert(s[m + 1] == kept[j]);
                    assert(related(s[0], s[m + 1]));
                } else {
                    assert(kept[i] == rest[i - 1]);
                }
            }
        }
    }
}

/// A selection holds no more elements that satisfy `p` than the sequence.
pub proof fn lemma_select_count<A>(s: Seq<A>, q: spec_fn(A) -> bool, p: spec_fn(A) -> bool)
    ensures
        count_where(select(s, q), p) <= count_where(s, p),
    decreases s.len(),
{
    if s.len() > 0 {
        let t = s.skip(1);
        lemma_select_count(t, q, p);
        if q(s[0]) {
            lemma_cons(s[0], select(t, q));
        }
    }
}

/// Where one element satisfies `p` and no other does, one is counted.
pub proof fn lemma_count_one<A>(s: Seq<A>, p: spec_fn(A) -> bool, k: int)
    requires
        0 <= k < s.len(),
        p(s[k]),
        forall|j: int| 0 <= j < s.len() && j != k ==> !p(#[trigger] s[j]),
    ensures
        count_where(s, p) == 1,
    decreases s.len(),
{
    let t = s.skip(1);
    if k == 0 {
        assert forall|j: int| 0 <= j < t.len() implies !p(#[trigger] t[j]) by {
            assert(t[j] == s[j + 1]);
        }
        lemma_first_where_is(t, p, t.len() as int);
        lemma_count_where(t, p);
    } else {
        assert(!p(s[0]));
        assert forall|j: int| 0 <= j < t.len() && j != k - 1 implies !p(#[trigger] t[j]) by {
            assert(t[j] == s[j + 1]);
        }
        assert(t[k - 1] == s[k]);
        lemma_count_one(t, p, k - 1);
    }
}

} // verus!
