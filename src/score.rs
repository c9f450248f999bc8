use vstd::prelude::*;
use crate::card::Card;

verus! {

/// Points a non-ace card adds to the base total. Aces (rank 1) are counted
/// separately; a rank outside 1..=13 adds nothing.
pub open spec fn card_points(v: i32) -> int {
    if 2 <= v <= 10 {
        v as int
    } else if 11 <= v <= 13 {
        10
    } else {
        0
    }
}

/// Sum of the points of the hand's non-ace cards.
pub open spec fn base_total(s: Seq<Card>) -> int
    decreases s.len(),
{
    if s.len() == 0 {
        0
    } else {
        base_total(s.drop_last()) + card_points(s.last().value)
    }
}

/// Number of aces in the hand.
pub open spec fn ace_count(s: Seq<Card>) -> nat
    decreases s.len(),
{
    if s.len() == 0 {
        0
    } else {
        ace_count(s.drop_last()) + if s.last().value == 1 {
            1nat
        } else {
            0nat
        }
    }
}

/// Adds `aces` aces to `total`, one at a time: each counts 11 while the
/// running total is at most 10, and 1 otherwise.
pub open spec fn with_aces(total: int, aces: nat) -> int
    decreases aces,
{
    if aces == 0 {
        total
    } else {
        with_aces(
            if total <= 10 {
                total + 11
            } else {
                total + 1
            },
            (aces - 1) as nat,
        )
    }
}

/// The value of a hand.
pub open spec fn hand_value(s: Seq<Card>) -> int {
    with_aces(base_total(s), ace_count(s))
}

/// A hand is busted when its value is over 21.
pub open spec fn is_busted(s: Seq<Card>) -> bool {
    hand_value(s) > 21
}

/// Largest hand that `score` accepts: its value then fits in an `i32`.
pub const MAX_HAND: usize = 100_000_000;

/// Computes a hand's value and whether it is busted. Aces are added after the
/// other cards, each as 11 while the running total is at most 10, else as 1.
pub fn score(hand: &[Card]) -> (r: (i32, bool))
    requires
        hand@.len() <= MAX_HAND,
    ensures
        r.0 == hand_value(hand@),
        r.1 == is_busted(hand@),
{
    let n = hand.len();
    let mut total: i32 = 0;
    let mut aces: i32 = 0;
    let mut i: usize = 0;
    while i < n
        invariant
            n == hand@.len(),
            n <= MAX_HAND,
            i <= n,
            total == base_total(hand@.take(i as int)),
            aces == ace_count(hand@.take(i as int)),
            0 <= total <= 10 * i,
            0 <= aces <= i,
        decreases n - i,
    {
        let c = hand[i];
        assert(hand@.take(i + 1).drop_last() =~= hand@.take(i as int));
        if c.value == 1 {
            aces = aces + 1;
        } else if 2 <= c.value && c.value <= 10 {
            total = total + c.value;
        } else if 11 <= c.value && c.value <= 13 {
            total = total + 10;
        }
        i = i + 1;
    }
    assert(hand@.take(n as int) =~= hand@);
    let ghost base = total as int;
    let ghost all_aces = aces as nat;
    let mut k: i32 = 0;
    while k < aces
        invariant
            0 <= k <= aces,
            aces == all_aces,
            all_aces <= n,
            base <= 10 * n,
            n <= MAX_HAND,
            0 <= base,
            with_aces(total as int, (aces - k) as nat) == with_aces(base, all_aces),
            total <= base + 11 * k,
        decreases aces - k,
    {
        if total <= 10 {
            total = total + 11;
        } else {
            total = total + 1;
        }
        k = k + 1;
    }
    (total, total > 21)
}

/// Scoring depends on the hand's cards alone: two hands holding the same
/// cards in the same order get the same value and the same bust flag, so
/// scoring an unchanged hand again gives the same result.
pub proof fn lemma_score_deterministic(a: Seq<Card>, b: Seq<Card>)
    requires
        a == b,
    ensures
        hand_value(a) == hand_value(b),
        is_busted(a) == is_busted(b),
{
}

} // verus!
