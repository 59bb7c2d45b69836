//! The best-hand selector and the outcome comparator.
//!
//! Both take a seven-card pool, sort it by rank descending, and walk all 21
//! five-card subsets, scoring each with the five-card encoder.  The selector
//! returns the maximum score; the comparator relates the pool's best score
//! to a reference score without materializing the maximum first.

use vstd::prelude::*;
use vstd::seq_lib::group_to_multiset_ensures;

use crate::card::{rank, rank_of, Card};
use crate::score::{eval5, score5, sorted_desc};

verus! {

/// Outcome code: no five-card hand beats or matches the reference score.
pub const WIN: u8 = 2;

/// Outcome code: the reference score is matched but never beaten.
pub const DRAW: u8 = 1;

/// Outcome code: some five-card hand beats the reference score.
pub const LOSS: u8 = 0;

/// Swapping two positions of a sequence leaves its multiset unchanged.
proof fn lemma_swap_preserves_multiset(s: Seq<Card>, i: int, j: int)
    requires
        0 <= i < s.len(),
        0 <= j < s.len(),
        i != j,
    ensures
        s.update(i, s[j]).update(j, s[i]).to_multiset() =~= s.to_multiset(),
{
    broadcast use group_to_multiset_ensures;

}

/// Sort seven cards by rank descending, in place, by insertion sort.
fn sort_cards_desc(cards: &mut [Card; 7])
    ensures
        sorted_desc(final(cards)@),
        final(cards)@.to_multiset() == old(cards)@.to_multiset(),
{
    let ghost orig = cards@;
    for i in 1..7
        invariant
            cards@.len() == 7,
            sorted_desc(cards@.subrange(0, i as int)),
            cards@.to_multiset() == orig.to_multiset(),
    {
        let mut j: usize = i;
        proof {
            assert forall|a: int, b: int| 0 <= a < b <= i && b != i implies rank_of(cards@[a])
                >= rank_of(cards@[b]) by {
                assert(cards@.subrange(0, i as int)[a] == cards@[a]);
                assert(cards@.subrange(0, i as int)[b] == cards@[b]);
            }
        }
        while j > 0 && rank(&cards[j - 1]) < rank(&cards[j])
            invariant
                0 <= j <= i < 7,
                cards@.len() == 7,
                cards@.to_multiset() == orig.to_multiset(),
                forall|a: int, b: int|
                    0 <= a < b <= i && b != j ==> rank_of(cards@[a]) >= rank_of(cards@[b]),
                forall|b: int| j < b <= i ==> rank_of(cards@[j as int]) >= rank_of(cards@[b]),
            decreases j,
        {
            let ghost pre = cards@;
            let tmp = cards[j - 1];
            cards[j - 1] = cards[j];
            cards[j] = tmp;
            proof {
                lemma_swap_preserves_multiset(pre, j - 1, j as int);
            }
            j = j - 1;
        }
        proof {
            assert forall|a: int, b: int| 0 <= a < b <= i implies rank_of(cards@[a]) >= rank_of(
                cards@[b],
            ) by {
                if b == j {
                    if a < j {
                        assert(rank_of(cards@[j - 1]) >= rank_of(cards@[j as int]));
                    }
                }
            }
            assert(sorted_desc(cards@.subrange(0, i + 1)));
        }
    }
    assert(cards@.subrange(0, 7) =~= cards@);
}

/// The five-card subset of a seven-card pool that omits positions `i` and
/// `j` (with `i < j`), keeping the remaining cards in their order.
pub open spec fn combo(s: Seq<Card>, i: int, j: int) -> Seq<Card> {
    s.subrange(0, i) + s.subrange(i + 1, j) + s.subrange(j + 1, 7)
}

/// The score of the five-card subset omitting positions `i` and `j`.
#[verifier::opaque]
pub open spec fn combo_score(s: Seq<Card>, i: int, j: int) -> int {
    score5(combo(s, i, j))
}

/// `v` is the maximum of the five-card scores over all 21 subsets of the
/// seven-card pool: some subset achieves it and none exceeds it.
pub open spec fn is_best_score(s: Seq<Card>, v: int) -> bool {
    &&& exists|i: int, j: int| 0 <= i < j < 7 && combo_score(s, i, j) == v
    &&& forall|i: int, j: int| 0 <= i < j < 7 ==> combo_score(s, i, j) <= v
}

/// The source position in the pool that a subset position comes from.
pub open spec fn combo_src(i: int, j: int, k: int) -> int {
    if k < i {
        k
    } else if k + 1 < j {
        k + 1
    } else {
        k + 2
    }
}

/// Each subset position holds the pool card at its source position, so a
/// subset of a rank-descending pool is itself rank-descending.
proof fn lemma_combo_sorted(s: Seq<Card>, i: int, j: int)
    requires
        s.len() == 7,
        sorted_desc(s),
        0 <= i < j < 7,
    ensures
        combo(s, i, j).len() == 5,
        forall|k: int| 0 <= k < 5 ==> combo(s, i, j)[k] == s[combo_src(i, j, k)],
        sorted_desc(combo(s, i, j)),
{
    let c = combo(s, i, j);
    assert forall|k: int| 0 <= k < 5 implies c[k] == s[combo_src(i, j, k)] by {
        if k < i {
            assert(c[k] == s.subrange(0, i)[k]);
        } else if k + 1 < j {
            assert(c[k] == s.subrange(i + 1, j)[k - i]);
        } else {
            assert(c[k] == s.subrange(j + 1, 7)[k - (j - 1)]);
        }
    }
    assert forall|a: int, b: int| 0 <= a < b < 5 implies rank_of(c[a]) >= rank_of(c[b]) by {
        assert(combo_src(i, j, a) < combo_src(i, j, b));
        assert(rank_of(s[combo_src(i, j, a)]) >= rank_of(s[combo_src(i, j, b)]));
    }
}

/// Score the five-card subset of a sorted pool that omits positions `i`
/// and `j`.
fn combo_eval(cards: &[Card; 7], i: usize, j: usize) -> (v: i64)
    requires
        i < j < 7,
        sorted_desc(cards@),
    ensures
        v == combo_score(cards@, i as int, j as int),
{
    let mut five: Vec<Card> = Vec::new();
    let mut k: usize = 0;
    while k < i
        invariant
            k <= i < j < 7,
            cards@.len() == 7,
            five@ == cards@.subrange(0, k as int),
        decreases i - k,
    {
        five.push(cards[k]);
        assert(five@ =~= cards@.subrange(0, k + 1));
        k = k + 1;
    }
    k = i + 1;
    while k < j
        invariant
            i < k <= j < 7,
            cards@.len() == 7,
            five@ == cards@.subrange(0, i as int) + cards@.subrange(i + 1, k as int),
        decreases j - k,
    {
        five.push(cards[k]);
        assert(five@ =~= cards@.subrange(0, i as int) + cards@.subrange(i + 1, k + 1));
        k = k + 1;
    }
    k = j + 1;
    while k < 7
        invariant
            j < k <= 7,
            i < j,
            cards@.len() == 7,
            five@ == cards@.subrange(0, i as int) + cards@.subrange(i + 1, j as int)
                + cards@.subrange(j + 1, k as int),
        decreases 7 - k,
    {
        five.push(cards[k]);
        assert(five@ =~= cards@.subrange(0, i as int) + cards@.subrange(i + 1, j as int)
            + cards@.subrange(j + 1, k + 1));
        k = k + 1;
    }
    assert(five@ =~= cards@.subrange(0, i as int) + cards@.subrange(i + 1, j as int)
        + cards@.subrange(j + 1, 7));
    proof {
        lemma_combo_sorted(cards@, i as int, j as int);
        reveal(combo_score);
    }
    eval5(&five)
}

/// Sort the seven-card pool by rank descending and return the maximum
/// five-card score among its 21 subsets.  With exactly seven cards this
/// always succeeds.
pub fn eval(cards: &mut [Card; 7]) -> (best: Option<i64>)
    ensures
        sorted_desc(final(cards)@),
        final(cards)@.to_multiset() == old(cards)@.to_multiset(),
        best matches Some(v) && is_best_score(final(cards)@, v as int),
{
    sort_cards_desc(cards);
    let ghost sorted = cards@;
    let mut best: i64 = combo_eval(cards, 0, 1);
    for i in 0..7usize
        invariant
            cards@ == sorted,
            cards@.to_multiset() == old(cards)@.to_multiset(),
            sorted.len() == 7,
            sorted_desc(sorted),
            exists|a: int, b: int| 0 <= a < b < 7 && combo_score(sorted, a, b) == best,
            forall|a: int, b: int|
                0 <= a < b < 7 && a < i ==> combo_score(sorted, a, b) <= best,
    {
        for j in (i + 1)..7usize
            invariant
                i < 7,
                i + 1 <= j <= 7,
                cards@ == sorted,
                cards@.to_multiset() == old(cards)@.to_multiset(),
                sorted.len() == 7,
                sorted_desc(sorted),
                exists|a: int, b: int| 0 <= a < b < 7 && combo_score(sorted, a, b) == best,
                forall|a: int, b: int|
                    0 <= a < b < 7 && a < i ==> combo_score(sorted, a, b) <= best,
                forall|b: int| i < b < j ==> combo_score(sorted, i as int, b) <= best,
        {
            let v: i64 = combo_eval(cards, i, j);
            if v > best {
                best = v;
            }
        }
    }
    Some(best)
}

/// Sort the seven-card pool and relate its best five-card score to a
/// reference score without materializing the maximum: `LOSS` as soon as a
/// subset beats the reference, else `DRAW` if a subset matches it, else
/// `WIN`.
pub fn comp(cards: &mut [Card; 7], score: i64) -> (r: u8)
    ensures
        sorted_desc(final(cards)@),
        final(cards)@.to_multiset() == old(cards)@.to_multiset(),
        (r == LOSS <==> exists|a: int, b: int|
            0 <= a < b < 7 && combo_score(final(cards)@, a, b) > score),
        (r == DRAW <==> (forall|a: int, b: int|
            0 <= a < b < 7 ==> combo_score(final(cards)@, a, b) <= score) && (exists|a: int, b: int|
            0 <= a < b < 7 && combo_score(final(cards)@, a, b) == score)),
        (r == WIN <==> forall|a: int, b: int|
            0 <= a < b < 7 ==> combo_score(final(cards)@, a, b) < score),
{
    sort_cards_desc(cards);
    let ghost sorted = cards@;
    let mut result: u8 = WIN;
    for i in 0..7usize
        invariant
            cards@ == sorted,
            cards@.to_multiset() == old(cards)@.to_multiset(),
            sorted.len() == 7,
            sorted_desc(sorted),
            result == WIN || result == DRAW,
            forall|a: int, b: int|
                0 <= a < b < 7 && a < i ==> combo_score(sorted, a, b) <= score,
            result == DRAW <==> exists|a: int, b: int|
                0 <= a < b < 7 && a < i && combo_score(sorted, a, b) == score,
    {
        for j in (i + 1)..7usize
            invariant
                i < 7,
                i + 1 <= j <= 7,
                cards@ == sorted,
                cards@.to_multiset() == old(cards)@.to_multiset(),
                sorted.len() == 7,
                sorted_desc(sorted),
                result == WIN || result == DRAW,
                forall|a: int, b: int|
                    0 <= a < b < 7 && a < i ==> combo_score(sorted, a, b) <= score,
                forall|b: int| i < b < j ==> combo_score(sorted, i as int, b) <= score,
                result == DRAW <==> (exists|a: int, b: int|
                    0 <= a < b < 7 && a < i && combo_score(sorted, a, b) == score) || (exists|
                    b: int,
                |
                    i < b < j && combo_score(sorted, i as int, b) == score),
        {
            let v: i64 = combo_eval(cards, i, j);
            if v > score {
                return LOSS;
            }
            if v == score {
                result = DRAW;
            }
        }
    }
    result
}

/// Comparator consistency: against the maximum subset score `v` of a pool,
/// `v` exceeds, matches, or stays below a reference score exactly when some
/// subset exceeds it, no subset exceeds it but one matches it, or every
/// subset stays below it.
pub proof fn lemma_comparator_consistency(s: Seq<Card>, v: int, reference: int)
    requires
        is_best_score(s, v),
    ensures
        (v > reference) <==> (exists|a: int, b: int|
            0 <= a < b < 7 && combo_score(s, a, b) > reference),
        (v == reference) <==> ((forall|a: int, b: int|
            0 <= a < b < 7 ==> combo_score(s, a, b) <= reference) && (exists|a: int, b: int|
            0 <= a < b < 7 && combo_score(s, a, b) == reference)),
        (v < reference) <==> (forall|a: int, b: int|
            0 <= a < b < 7 ==> combo_score(s, a, b) < reference),
{
    let (wi, wj) = choose|a: int, b: int| 0 <= a < b < 7 && combo_score(s, a, b) == v;
    assert(combo_score(s, wi, wj) == v);
    if v > reference {
        assert(combo_score(s, wi, wj) > reference);
    }
    if v == reference {
        assert(combo_score(s, wi, wj) == reference);
    }
}

} // verus!
