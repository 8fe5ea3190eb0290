//! Blackjack hand totals with the single soft-ace adjustment.

use vstd::prelude::*;

verus! {

/// Totals above this are bust.
pub const BLACKJACK_VALUE: u8 = 21;

/// The dealer keeps drawing while below this total.
pub const DEALER_STAND_VALUE: u8 = 17;

/// Points of one card: rank `c % 13`; rank 0 is an ace (11), ranks above 10
/// are face cards (10), other ranks count their own value.
pub open spec fn card_points(c: u8) -> nat {
    let rank = c % 13;
    if rank == 0 {
        11
    } else if rank > 10 {
        10
    } else {
        rank as nat
    }
}

/// Sum of the points of the first `n` slots of `s`.
pub open spec fn points_sum(s: Seq<u8>, n: nat) -> nat
    decreases n,
{
    if n == 0 {
        0
    } else {
        points_sum(s, (n - 1) as nat) + card_points(s[n - 1])
    }
}

/// One of the first `n` slots of `s` holds an ace.
pub open spec fn has_ace(s: Seq<u8>, n: nat) -> bool {
    exists|i: int| 0 <= i < n && #[trigger] s[i] % 13 == 0
}

/// The number of slots counted for a hand of `len` cards held in 11 slots.
pub open spec fn counted_slots(len: nat) -> nat {
    if len < 11 {
        len
    } else {
        11
    }
}

/// Total of the first `n` cards of `s`: the sum of their points, less 10
/// once if that sum is over 21 and an ace is among them.
pub open spec fn hand_total(s: Seq<u8>, n: nat) -> nat {
    let sum = points_sum(s, n);
    if sum > 21 && has_ace(s, n) {
        (sum - 10) as nat
    } else {
        sum
    }
}

/// A total over 21.
pub open spec fn is_bust_total(total: nat) -> bool {
    total > BLACKJACK_VALUE
}

proof fn lemma_points_sum_bound(s: Seq<u8>, n: nat)
    ensures
        points_sum(s, n) <= 11 * n,
    decreases n,
{
    if n > 0 {
        lemma_points_sum_bound(s, (n - 1) as nat);
    }
}

/// Total of the first `hand_length` cards of `hand` (all 11 slots where
/// `hand_length` is larger).
pub fn calculate_hand_value(hand: &[u8; 11], hand_length: u8) -> (r: u8)
    ensures
        r as nat == hand_total(hand@, counted_slots(hand_length as nat)),
{
    let mut value: u8 = 0;
    let mut has_an_ace = false;
    let ghost counted = counted_slots(hand_length as nat);
    let mut i: usize = 0;
    while i < 11
        invariant
            i <= 11,
            counted == counted_slots(hand_length as nat),
            value as nat == points_sum(hand@, if i < counted { i as nat } else { counted }),
            has_an_ace == has_ace(hand@, if i < counted { i as nat } else { counted }),
            value <= 11 * i,
        decreases 11 - i,
    {
        if i < hand_length as usize {
            let rank = hand[i] % 13;
            proof {
                lemma_points_sum_bound(hand@, i as nat);
                assert(has_ace(hand@, (i + 1) as nat) == (has_ace(hand@, i as nat) || hand@[i as int]
                    % 13 == 0));
            }
            if rank == 0 {
                value += 11;
                has_an_ace = true;
            } else if rank > 10 {
                value += 10;
            } else {
                value += rank;
            }
        }
        i += 1;
    }
    if value > BLACKJACK_VALUE && has_an_ace {
        value -= 10;
    }
    value
}

} // verus!
