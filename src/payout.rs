//! Stake multiples of outcome codes and the house-edge scaling, in integer
//! fixed-point arithmetic so that every replay of a settlement pays the same.

use vstd::prelude::*;
use crate::circuits::{OUTCOME_PLAYER_BUST, OUTCOME_DEALER_HIGHER};

verus! {

/// Denominator of a basis-points ratio.
pub const BPS_DENOMINATOR: u64 = 10000;

/// Amount owed before the house edge: nothing when the player is bust or the
/// dealer is higher, the stake otherwise (dealer bust, player higher, push).
pub open spec fn base_payout_spec(result: u8, bet_amount: u64) -> nat {
    if result == OUTCOME_PLAYER_BUST || result == OUTCOME_DEALER_HIGHER {
        0
    } else {
        bet_amount as nat
    }
}

/// `amount * bps / 10000`, rounded down, capped at the largest `u64`.
pub open spec fn scaled_amount(amount: nat, bps: nat) -> nat {
    let v = amount * bps / 10000;
    if v > u64::MAX {
        u64::MAX as nat
    } else {
        v
    }
}

/// Amount owed before the house edge for outcome code `result`.
pub fn base_payout(result: u8, bet_amount: u64) -> (r: u64)
    ensures
        r as nat == base_payout_spec(result, bet_amount),
{
    match result {
        0 => 0u64,
        1 => bet_amount,
        2 => bet_amount,
        3 => 0u64,
        _ => bet_amount,
    }
}

/// Scales `amount` by `rtp_bps / 10000`.
pub fn apply_rtp(amount: u64, rtp_bps: u16) -> (r: u64)
    ensures
        r as nat == scaled_amount(amount as nat, rtp_bps as nat),
{
    proof {
        assert(amount as nat * rtp_bps as nat <= u64::MAX as nat * 65535) by (nonlinear_arith)
            requires
                amount <= u64::MAX,
                rtp_bps <= 65535,
        ;
    }
    let product: u128 = amount as u128 * rtp_bps as u128;
    let v: u128 = product / BPS_DENOMINATOR as u128;
    if v > u64::MAX as u128 {
        u64::MAX
    } else {
        v as u64
    }
}

/// Amount paid for outcome code `result` on a stake of `bet_amount` with a
/// return-to-player ratio of `rtp_bps` basis points.
pub fn final_payout(result: u8, bet_amount: u64, rtp_bps: u16) -> (r: u64)
    ensures
        r as nat == scaled_amount(base_payout_spec(result, bet_amount), rtp_bps as nat),
{
    apply_rtp(base_payout(result, bet_amount), rtp_bps)
}

} // verus!
