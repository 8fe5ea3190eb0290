//! A blackjack engine whose secret-dependent steps run in a confidential
//! computation service: packed card codec, hand evaluator, the operations the
//! service performs on plaintext cards, and the session state machine that
//! issues requests and applies their settlements.

pub mod codec;
pub mod evaluator;
pub mod circuits;
pub mod payout;
pub mod protocol;
pub mod blackjack;
