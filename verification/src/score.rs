//! The five-card hand encoder.
//!
//! A five-card hand, pre-sorted by rank descending, is classified into one
//! of the nine poker categories and packed into a single `i64` score.  All
//! fields occupy disjoint bit ranges, ordered so that the category dominates
//! numeric comparison: any score in a higher category is greater than any
//! score in a lower one, and within a category numeric order matches the
//! poker tie-break order.

use vstd::prelude::*;

use crate::card::{lemma_card_ord_bounds, rank, rank_of, suit, suit_of, Card};

verus! {

/// Multiplier placing the straight-flush representative rank at bits 42..46.
pub const SFLUSH_UNIT: i64 = 4398046511104;

/// Multiplier placing the four-of-a-kind rank (plus one) at bits 38..42.
pub const FOAK_UNIT: i64 = 274877906944;

/// Flag bit (bit 37) marking a full house.
pub const FULL_BIT: i64 = 137438953472;

/// Flag bit (bit 36) marking a flush.
pub const FLUSH_BIT: i64 = 68719476736;

/// Multiplier placing the straight representative rank at bits 32..36.
pub const STRAIGHT_UNIT: i64 = 4294967296;

/// Multiplier placing the three-of-a-kind rank (plus one) at bits 28..32.
pub const TOAK_UNIT: i64 = 268435456;

/// Multiplier placing the higher pair rank (plus one) at bits 24..28.
pub const PAIR2_UNIT: i64 = 16777216;

/// Multiplier placing the lower pair rank (plus one) at bits 20..24.
pub const PAIR1_UNIT: i64 = 1048576;

/// The cards' ranks are non-increasing.
pub open spec fn sorted_desc(s: Seq<Card>) -> bool {
    forall|i: int, j: int| 0 <= i < j < s.len() ==> rank_of(s[i]) >= rank_of(s[j])
}

/// All cards share the suit of the first card.
pub open spec fn is_flush(s: Seq<Card>) -> bool {
    forall|i: int| 0 <= i < s.len() ==> #[trigger] suit_of(s[i]) == suit_of(s[0])
}

/// The low straight A,5,4,3,2 in rank-descending order.
pub open spec fn is_wheel(s: Seq<Card>) -> bool {
    rank_of(s[0]) == 12 && rank_of(s[1]) == 3 && rank_of(s[2]) == 2 && rank_of(s[3]) == 1
        && rank_of(s[4]) == 0
}

/// Five consecutive ranks in descending order, with the wheel as the one
/// exception to the adjacent-difference rule.
pub open spec fn is_straight(s: Seq<Card>) -> bool {
    is_wheel(s) || (forall|i: int| 1 <= i < 5 ==> rank_of(s[i - 1]) == #[trigger] rank_of(s[i]) + 1)
}

/// The rank that represents a straight: the top card's rank, except for the
/// wheel, which counts as Five-high (rank 3).
pub open spec fn straight_rank(s: Seq<Card>) -> int {
    if is_wheel(s) {
        3
    } else {
        rank_of(s[0])
    }
}

/// The tie-break payload: each card's rank in its own 4-bit lane, the first
/// card highest.
pub open spec fn kicker_word(s: Seq<Card>) -> int {
    65536 * rank_of(s[0]) + 4096 * rank_of(s[1]) + 256 * rank_of(s[2]) + 16 * rank_of(s[3])
        + rank_of(s[4])
}

/// Four cards of one rank.  In a sorted hand the four are adjacent, so they
/// cover positions 0..=3 or 1..=4.
pub open spec fn has_quads(s: Seq<Card>) -> bool {
    rank_of(s[0]) == rank_of(s[3]) || rank_of(s[1]) == rank_of(s[4])
}

/// The rank of the four of a kind: position 1 lies inside either run.
pub open spec fn quads_rank(s: Seq<Card>) -> int {
    rank_of(s[1])
}

/// At least three cards of one rank.  In a sorted hand they are adjacent,
/// so they cover positions 0..=2, 1..=3 or 2..=4.
pub open spec fn has_trips(s: Seq<Card>) -> bool {
    rank_of(s[0]) == rank_of(s[2]) || rank_of(s[1]) == rank_of(s[3]) || rank_of(s[2]) == rank_of(
        s[4],
    )
}

/// The rank of the three of a kind: position 2 lies inside every run.
pub open spec fn trips_rank(s: Seq<Card>) -> int {
    rank_of(s[2])
}

/// Three cards of one rank and two of another: trips on top with the pair
/// below, or the pair on top with trips below.
pub open spec fn is_full_house(s: Seq<Card>) -> bool {
    (rank_of(s[0]) == rank_of(s[2]) && rank_of(s[3]) == rank_of(s[4])) || (rank_of(s[0]) == rank_of(
        s[1],
    ) && rank_of(s[2]) == rank_of(s[4]))
}

/// The rank of the pair inside a full house.
pub open spec fn full_pair_rank(s: Seq<Card>) -> int {
    if rank_of(s[0]) == rank_of(s[2]) {
        rank_of(s[3])
    } else {
        rank_of(s[0])
    }
}

/// Two pairs of distinct ranks (and no trips): two disjoint adjacent runs
/// of two.
pub open spec fn is_two_pair(s: Seq<Card>) -> bool {
    (rank_of(s[0]) == rank_of(s[1]) && rank_of(s[2]) == rank_of(s[3])) || (rank_of(s[0]) == rank_of(
        s[1],
    ) && rank_of(s[3]) == rank_of(s[4])) || (rank_of(s[1]) == rank_of(s[2]) && rank_of(s[3])
        == rank_of(s[4]))
}

/// The rank of the higher pair: position 1 lies inside it.
pub open spec fn high_pair_rank(s: Seq<Card>) -> int {
    rank_of(s[1])
}

/// The rank of the lower pair: position 3 lies inside it.
pub open spec fn low_pair_rank(s: Seq<Card>) -> int {
    rank_of(s[3])
}

/// Some two adjacent cards share a rank.
pub open spec fn is_one_pair(s: Seq<Card>) -> bool {
    rank_of(s[0]) == rank_of(s[1]) || rank_of(s[1]) == rank_of(s[2]) || rank_of(s[2]) == rank_of(
        s[3],
    ) || rank_of(s[3]) == rank_of(s[4])
}

/// The rank of the only pair in a one-pair hand.
pub open spec fn pair_rank(s: Seq<Card>) -> int {
    if rank_of(s[0]) == rank_of(s[1]) {
        rank_of(s[0])
    } else if rank_of(s[1]) == rank_of(s[2]) {
        rank_of(s[1])
    } else if rank_of(s[2]) == rank_of(s[3]) {
        rank_of(s[2])
    } else {
        rank_of(s[3])
    }
}

/// The hand's category, 0 (high card) up to 8 (straight flush), in the
/// standard poker order: straight flush, four of a kind, full house, flush,
/// straight, three of a kind, two pair, one pair, high card.
pub open spec fn category(s: Seq<Card>) -> int {
    if is_straight(s) {
        if is_flush(s) {
            8
        } else {
            4
        }
    } else if is_flush(s) {
        5
    } else if has_quads(s) {
        7
    } else if is_full_house(s) {
        6
    } else if has_trips(s) {
        3
    } else if is_two_pair(s) {
        2
    } else if is_one_pair(s) {
        1
    } else {
        0
    }
}

/// The packed score of a five-card hand sorted by rank descending.
pub open spec fn score5(s: Seq<Card>) -> int {
    if is_straight(s) {
        if is_flush(s) {
            straight_rank(s) * SFLUSH_UNIT
        } else {
            straight_rank(s) * STRAIGHT_UNIT
        }
    } else if is_flush(s) {
        FLUSH_BIT + kicker_word(s)
    } else if has_quads(s) {
        (quads_rank(s) + 1) * FOAK_UNIT + kicker_word(s)
    } else if is_full_house(s) {
        FULL_BIT + (trips_rank(s) + 1) * TOAK_UNIT + (full_pair_rank(s) + 1) * PAIR2_UNIT
    } else if has_trips(s) {
        (trips_rank(s) + 1) * TOAK_UNIT + kicker_word(s)
    } else if is_two_pair(s) {
        (high_pair_rank(s) + 1) * PAIR2_UNIT + (low_pair_rank(s) + 1) * PAIR1_UNIT + kicker_word(s)
    } else if is_one_pair(s) {
        (pair_rank(s) + 1) * PAIR1_UNIT + kicker_word(s)
    } else {
        kicker_word(s)
    }
}

/// Score a five-card hand.  The cards must be sorted by rank descending;
/// handing the encoder anything but five cards is a caller bug, so the
/// count is a precondition rather than a recoverable error.
#[verifier::rlimit(60)]
pub fn eval5(cs: &Vec<Card>) -> (score: i64)
    requires
        cs@.len() == 5,
        sorted_desc(cs@),
    ensures
        score == score5(cs@),
{
    let c0 = cs[0];
    let c1 = cs[1];
    let c2 = cs[2];
    let c3 = cs[3];
    let c4 = cs[4];
    let r0 = rank(&c0);
    let r1 = rank(&c1);
    let r2 = rank(&c2);
    let r3 = rank(&c3);
    let r4 = rank(&c4);
    let s0 = suit(&c0);
    let s1 = suit(&c1);
    let s2 = suit(&c2);
    let s3 = suit(&c3);
    let s4 = suit(&c4);
    let kw: i64 = 65536 * (r0 as i64) + 4096 * (r1 as i64) + 256 * (r2 as i64) + 16 * (r3 as i64)
        + (r4 as i64);
    assert(kw == kicker_word(cs@));
    let flush = s1 == s0 && s2 == s0 && s3 == s0 && s4 == s0;
    proof {
        if flush {
            assert forall|i: int| 0 <= i < 5 implies #[trigger] suit_of(cs@[i]) == suit_of(cs@[0]) by {
                if i == 1 {
                } else if i == 2 {
                } else if i == 3 {
                } else if i == 4 {
                }
            }
        }
        assert(flush == is_flush(cs@));
    }
    let wheel = r0 == 12 && r1 == 3 && r2 == 2 && r3 == 1 && r4 == 0;
    let straight = wheel || (r0 == r1 + 1 && r1 == r2 + 1 && r2 == r3 + 1 && r3 == r4 + 1);
    proof {
        assert(wheel == is_wheel(cs@));
        if straight && !wheel {
            assert forall|i: int| 1 <= i < 5 implies rank_of(cs@[i - 1]) == #[trigger] rank_of(cs@[i])
                + 1 by {
                if i == 1 {
                } else if i == 2 {
                } else if i == 3 {
                } else if i == 4 {
                }
            }
        }
        if !straight && is_straight(cs@) {
            assert(rank_of(cs@[0]) == rank_of(cs@[1]) + 1);
            assert(rank_of(cs@[1]) == rank_of(cs@[2]) + 1);
            assert(rank_of(cs@[2]) == rank_of(cs@[3]) + 1);
            assert(rank_of(cs@[3]) == rank_of(cs@[4]) + 1);
        }
        assert(straight == is_straight(cs@));
    }
    if straight {
        let rep: u8 = if wheel {
            3
        } else {
            r0
        };
        assert(rep == straight_rank(cs@));
        if flush {
            return (rep as i64) * SFLUSH_UNIT;
        }
        return (rep as i64) * STRAIGHT_UNIT;
    }
    if flush {
        return FLUSH_BIT + kw;
    }
    if r0 == r3 || r1 == r4 {
        return ((r1 as i64) + 1) * FOAK_UNIT + kw;
    }
    if (r0 == r2 && r3 == r4) || (r0 == r1 && r2 == r4) {
        let pr: u8 = if r0 == r2 {
            r3
        } else {
            r0
        };
        return FULL_BIT + ((r2 as i64) + 1) * TOAK_UNIT + ((pr as i64) + 1) * PAIR2_UNIT;
    }
    if r0 == r2 || r1 == r3 || r2 == r4 {
        return ((r2 as i64) + 1) * TOAK_UNIT + kw;
    }
    if (r0 == r1 && r2 == r3) || (r0 == r1 && r3 == r4) || (r1 == r2 && r3 == r4) {
        return ((r1 as i64) + 1) * PAIR2_UNIT + ((r3 as i64) + 1) * PAIR1_UNIT + kw;
    }
    if r0 == r1 {
        return ((r0 as i64) + 1) * PAIR1_UNIT + kw;
    }
    if r1 == r2 {
        return ((r1 as i64) + 1) * PAIR1_UNIT + kw;
    }
    if r2 == r3 {
        return ((r2 as i64) + 1) * PAIR1_UNIT + kw;
    }
    if r3 == r4 {
        return ((r3 as i64) + 1) * PAIR1_UNIT + kw;
    }
    kw
}

/// The kicker word of five cards stays below the smallest one-pair score.
pub proof fn lemma_kicker_word_bounds(s: Seq<Card>)
    requires
        s.len() == 5,
    ensures
        0 <= kicker_word(s) <= 838860,
{
    lemma_card_ord_bounds(s[0]);
    lemma_card_ord_bounds(s[1]);
    lemma_card_ord_bounds(s[2]);
    lemma_card_ord_bounds(s[3]);
    lemma_card_ord_bounds(s[4]);
}

/// The smallest score a hand of the given category can take.
pub open spec fn cat_floor(c: int) -> int {
    if c == 0 {
        0
    } else if c == 1 {
        1048576
    } else if c == 2 {
        34603008
    } else if c == 3 {
        268435456
    } else if c == 4 {
        12884901888
    } else if c == 5 {
        68719476736
    } else if c == 6 {
        137438953472
    } else if c == 7 {
        274877906944
    } else {
        13194139533312
    }
}

/// A strict upper bound on the scores of the given category, no larger than
/// the floor of the next category up.
pub open spec fn cat_ceil(c: int) -> int {
    if c == 0 {
        1048576
    } else if c == 1 {
        14680064
    } else if c == 2 {
        232783872
    } else if c == 3 {
        3490709504
    } else if c == 4 {
        51539607553
    } else if c == 5 {
        68720525312
    } else if c == 6 {
        141146718209
    } else if c == 7 {
        3573413838849
    } else {
        52776558133249
    }
}

/// Every score lies inside its category's band.
pub proof fn lemma_score_in_range(s: Seq<Card>)
    requires
        s.len() == 5,
        sorted_desc(s),
    ensures
        cat_floor(category(s)) <= score5(s) < cat_ceil(category(s)),
{
    lemma_kicker_word_bounds(s);
    lemma_card_ord_bounds(s[0]);
    lemma_card_ord_bounds(s[1]);
    lemma_card_ord_bounds(s[2]);
    lemma_card_ord_bounds(s[3]);
    lemma_card_ord_bounds(s[4]);
    assert(rank_of(s[0]) >= rank_of(s[1]));
    assert(rank_of(s[1]) >= rank_of(s[2]));
    assert(rank_of(s[2]) >= rank_of(s[3]));
    assert(rank_of(s[3]) >= rank_of(s[4]));
    if is_straight(s) {
        if !is_wheel(s) {
            assert(rank_of(s[0]) == rank_of(s[1]) + 1);
            assert(rank_of(s[1]) == rank_of(s[2]) + 1);
            assert(rank_of(s[2]) == rank_of(s[3]) + 1);
            assert(rank_of(s[3]) == rank_of(s[4]) + 1);
            assert(rank_of(s[0]) >= 4);
        }
        assert(3 <= straight_rank(s) <= 12);
    } else if is_flush(s) {
    } else if has_quads(s) {
    } else if is_full_house(s) {
    } else if has_trips(s) {
    } else if is_two_pair(s) {
        // The two pairs have distinct ranks: were positions 1 and 3 equal,
        // positions 1..=3 would all be equal and the hand would hold trips.
        assert(rank_of(s[1]) > rank_of(s[3]));
        assert(high_pair_rank(s) >= 1);
    }
}

/// Categories are bands: the ceiling of each category is no higher than the
/// floor of any category above it.
pub proof fn lemma_cat_bands_ordered(lo: int, hi: int)
    requires
        0 <= lo < hi <= 8,
    ensures
        cat_ceil(lo) <= cat_floor(hi),
{
}

/// Category dominance: a hand of a strictly higher category always scores
/// strictly higher, whatever the kickers.
pub proof fn lemma_category_dominance(a: Seq<Card>, b: Seq<Card>)
    requires
        a.len() == 5,
        sorted_desc(a),
        b.len() == 5,
        sorted_desc(b),
        category(a) > category(b),
    ensures
        score5(a) > score5(b),
{
    lemma_score_in_range(a);
    lemma_score_in_range(b);
    lemma_cat_bands_ordered(category(b), category(a));
}

/// Any straight flush beats any hand that is not a straight flush.
pub proof fn lemma_straight_flush_dominates(a: Seq<Card>, b: Seq<Card>)
    requires
        a.len() == 5,
        sorted_desc(a),
        is_straight(a),
        is_flush(a),
        b.len() == 5,
        sorted_desc(b),
        !(is_straight(b) && is_flush(b)),
    ensures
        score5(a) > score5(b),
{
    lemma_category_dominance(a, b);
}

/// The wheel A,5,4,3,2 (non-flush) is a valid straight that counts as
/// Five-high: its score is exactly three straight units.
pub proof fn lemma_wheel_is_five_high_straight(w: Seq<Card>)
    requires
        w.len() == 5,
        is_wheel(w),
        !is_flush(w),
    ensures
        sorted_desc(w),
        is_straight(w),
        straight_rank(w) == 3,
        score5(w) == 3 * STRAIGHT_UNIT,
{
    assert forall|i: int, j: int| 0 <= i < j < 5 implies rank_of(w[i]) >= rank_of(w[j]) by {
        if i == 0 {
        } else if i == 1 {
        } else if i == 2 {
        } else if i == 3 {
        }
    }
}

/// The wheel scores strictly below any higher straight.
pub proof fn lemma_wheel_below_higher_straight(w: Seq<Card>, t: Seq<Card>)
    requires
        w.len() == 5,
        is_wheel(w),
        !is_flush(w),
        t.len() == 5,
        sorted_desc(t),
        is_straight(t),
        !is_flush(t),
        straight_rank(t) > 3,
    ensures
        score5(w) < score5(t),
{
    lemma_wheel_is_five_high_straight(w);
}

/// The wheel (non-flush) scores strictly above every hand of a category
/// below the straights: three of a kind, two pair, one pair, high card.
pub proof fn lemma_wheel_above_lower_categories(w: Seq<Card>, b: Seq<Card>)
    requires
        w.len() == 5,
        is_wheel(w),
        !is_flush(w),
        b.len() == 5,
        sorted_desc(b),
        category(b) < 4,
    ensures
        score5(w) > score5(b),
{
    lemma_wheel_is_five_high_straight(w);
    lemma_category_dominance(w, b);
}

/// A straight flush beats a plain straight, even one of the same height.
pub proof fn lemma_straight_flush_beats_straight(a: Seq<Card>, b: Seq<Card>)
    requires
        a.len() == 5,
        sorted_desc(a),
        is_straight(a),
        is_flush(a),
        b.len() == 5,
        sorted_desc(b),
        is_straight(b),
        !is_flush(b),
    ensures
        score5(a) > score5(b),
{
    lemma_category_dominance(a, b);
}

/// How many of the five cards have the given rank.
pub open spec fn count_rank(s: Seq<Card>, r: int) -> int
    recommends
        s.len() == 5,
{
    (if rank_of(s[0]) == r {
        1int
    } else {
        0int
    }) + (if rank_of(s[1]) == r {
        1int
    } else {
        0int
    }) + (if rank_of(s[2]) == r {
        1int
    } else {
        0int
    }) + (if rank_of(s[3]) == r {
        1int
    } else {
        0int
    }) + (if rank_of(s[4]) == r {
        1int
    } else {
        0int
    })
}

/// In a rank-sorted hand, the positional four-of-a-kind test agrees with
/// rank multiplicities, and the recorded rank is the quadrupled one.
pub proof fn lemma_quads_counts(s: Seq<Card>)
    requires
        s.len() == 5,
        sorted_desc(s),
    ensures
        has_quads(s) <==> exists|r: int| count_rank(s, r) >= 4,
        has_quads(s) ==> count_rank(s, quads_rank(s)) >= 4,
{
    assert(rank_of(s[0]) >= rank_of(s[1]));
    assert(rank_of(s[1]) >= rank_of(s[2]));
    assert(rank_of(s[2]) >= rank_of(s[3]));
    assert(rank_of(s[3]) >= rank_of(s[4]));
    if has_quads(s) {
        assert(count_rank(s, quads_rank(s)) >= 4);
    }
}

/// In a rank-sorted hand, the positional three-of-a-kind test agrees with
/// rank multiplicities, and the recorded rank is the tripled one.
pub proof fn lemma_trips_counts(s: Seq<Card>)
    requires
        s.len() == 5,
        sorted_desc(s),
    ensures
        has_trips(s) <==> exists|r: int| count_rank(s, r) >= 3,
        has_trips(s) ==> count_rank(s, trips_rank(s)) >= 3,
{
    assert(rank_of(s[0]) >= rank_of(s[1]));
    assert(rank_of(s[1]) >= rank_of(s[2]));
    assert(rank_of(s[2]) >= rank_of(s[3]));
    assert(rank_of(s[3]) >= rank_of(s[4]));
    if has_trips(s) {
        assert(count_rank(s, trips_rank(s)) >= 3);
    }
}

/// In a rank-sorted hand without four of a kind, the positional full-house
/// test agrees with rank multiplicities: a tripled rank beside a different
/// paired rank.
pub proof fn lemma_full_house_counts(s: Seq<Card>)
    requires
        s.len() == 5,
        sorted_desc(s),
        !has_quads(s),
    ensures
        is_full_house(s) <==> exists|r1: int, r2: int|
            r1 != r2 && count_rank(s, r1) >= 3 && count_rank(s, r2) >= 2,
        is_full_house(s) ==> trips_rank(s) != full_pair_rank(s) && count_rank(s, trips_rank(s)) >= 3
            && count_rank(s, full_pair_rank(s)) >= 2,
{
    assert(rank_of(s[0]) >= rank_of(s[1]));
    assert(rank_of(s[1]) >= rank_of(s[2]));
    assert(rank_of(s[2]) >= rank_of(s[3]));
    assert(rank_of(s[3]) >= rank_of(s[4]));
    if is_full_house(s) {
        assert(count_rank(s, trips_rank(s)) >= 3);
        assert(count_rank(s, full_pair_rank(s)) >= 2);
    }
}

/// In a rank-sorted hand without four of a kind, the positional two-pair
/// test agrees with rank multiplicities: two distinct paired ranks, the
/// recorded high one above the recorded low one.
pub proof fn lemma_two_pair_counts(s: Seq<Card>)
    requires
        s.len() == 5,
        sorted_desc(s),
        !has_quads(s),
    ensures
        is_two_pair(s) <==> exists|r1: int, r2: int|
            r1 != r2 && count_rank(s, r1) >= 2 && count_rank(s, r2) >= 2,
        is_two_pair(s) ==> high_pair_rank(s) > low_pair_rank(s) && count_rank(
            s,
            high_pair_rank(s),
        ) >= 2 && count_rank(s, low_pair_rank(s)) >= 2,
{
    assert(rank_of(s[0]) >= rank_of(s[1]));
    assert(rank_of(s[1]) >= rank_of(s[2]));
    assert(rank_of(s[2]) >= rank_of(s[3]));
    assert(rank_of(s[3]) >= rank_of(s[4]));
    if is_two_pair(s) {
        assert(count_rank(s, high_pair_rank(s)) >= 2);
        assert(count_rank(s, low_pair_rank(s)) >= 2);
    }
}

/// In a rank-sorted hand, the positional pair test agrees with rank
/// multiplicities, and the recorded rank is a paired one.
pub proof fn lemma_one_pair_counts(s: Seq<Card>)
    requires
        s.len() == 5,
        sorted_desc(s),
    ensures
        is_one_pair(s) <==> exists|r: int| count_rank(s, r) >= 2,
        is_one_pair(s) ==> count_rank(s, pair_rank(s)) >= 2,
{
    assert(rank_of(s[0]) >= rank_of(s[1]));
    assert(rank_of(s[1]) >= rank_of(s[2]));
    assert(rank_of(s[2]) >= rank_of(s[3]));
    assert(rank_of(s[3]) >= rank_of(s[4]));
    if is_one_pair(s) {
        assert(count_rank(s, pair_rank(s)) >= 2);
    }
}

} // verus!
