//! The request/settlement boundary with the confidential computation service:
//! request arguments, the records handed to the settlement, and the payload
//! shapes each step settles with.

use vstd::prelude::*;

verus! {

/// One argument of a request.
#[derive(Clone, Copy, PartialEq, Eq, Debug)]
pub enum Argument {
    PlaintextU8(u8),
    PlaintextU128(u128),
    /// A recipient's public encryption key.
    ArcisPubkey([u8; 32]),
    /// A reference to stored ciphertext: record key, byte offset, byte length.
    Account([u8; 32], u32, u32),
}

/// A record handed to the settlement.
#[derive(Clone, Copy, PartialEq, Eq, Debug)]
pub struct CallbackAccount {
    pub pubkey: [u8; 32],
    pub is_writable: bool,
}

/// The steps of a game, each one request and one settlement.
#[derive(Clone, Copy, PartialEq, Eq, Structural, Debug)]
pub enum Step {
    Deal,
    Hit,
    DoubleDown,
    Stand,
    DealerPlay,
    Resolve,
}

/// A request ready for dispatch.
pub struct ComputationRequest {
    pub step: Step,
    /// The handle its settlement must carry.
    pub computation_offset: u64,
    pub args: Vec<Argument>,
    pub callback_accounts: Vec<CallbackAccount>,
}

/// How a settlement arrives: with a payload, or aborted with none.
pub enum ComputationOutputs<O> {
    Success(O),
    Aborted,
}

/// A value encrypted for a client: its key, nonce and ciphertext.
#[derive(Clone, Copy, PartialEq, Eq, Debug)]
pub struct SharedEncrypted {
    pub encryption_key: [u8; 32],
    pub nonce: u128,
    pub ciphertext: [u8; 32],
}

/// A value encrypted for the service alone.
#[derive(Clone, Copy, PartialEq, Eq, Debug)]
pub struct MxeEncrypted {
    pub nonce: u128,
    pub ciphertext: [u8; 32],
}

/// A packed deck encrypted for the service alone, one ciphertext per word.
#[derive(Clone, Copy, PartialEq, Eq, Debug)]
pub struct MxeEncryptedDeck {
    pub nonce: u128,
    pub ciphertexts: [[u8; 32]; 3],
}

/// Payload of the deal step.
#[derive(Clone, Copy, PartialEq, Eq, Debug)]
pub struct ShuffleAndDealCardsOutput {
    pub deck: MxeEncryptedDeck,
    pub dealer_hand: MxeEncrypted,
    pub player_hand: SharedEncrypted,
    pub dealer_face_up_card: SharedEncrypted,
}

/// Payload of the hit step.
#[derive(Clone, Copy, PartialEq, Eq, Debug)]
pub struct PlayerHitOutput {
    pub player_hand: SharedEncrypted,
    pub is_bust: bool,
}

/// Payload of the double-down step.
#[derive(Clone, Copy, PartialEq, Eq, Debug)]
pub struct PlayerDoubleDownOutput {
    pub player_hand: SharedEncrypted,
    pub is_bust: bool,
}

/// Payload of the stand step.
#[derive(Clone, Copy, PartialEq, Eq, Debug)]
pub struct PlayerStandOutput {
    pub is_bust: bool,
}

/// Payload of the dealer's play: the hand for the service, a copy for the
/// player, and the new size.
#[derive(Clone, Copy, PartialEq, Eq, Debug)]
pub struct DealerPlayOutput {
    pub dealer_hand: MxeEncrypted,
    pub dealer_client_hand: SharedEncrypted,
    pub dealer_hand_size: u8,
}

/// Payload of the resolve step.
#[derive(Clone, Copy, PartialEq, Eq, Debug)]
pub struct ResolveGameOutput {
    pub result: u8,
}

/// A payload of any step.
#[derive(Clone, Copy, PartialEq, Eq, Debug)]
pub enum StepOutput {
    Deal(ShuffleAndDealCardsOutput),
    Hit(PlayerHitOutput),
    DoubleDown(PlayerDoubleDownOutput),
    Stand(PlayerStandOutput),
    DealerPlay(DealerPlayOutput),
    Resolve(ResolveGameOutput),
}

impl StepOutput {
    /// The step a payload belongs to.
    pub open spec fn step_spec(self) -> Step {
        match self {
            StepOutput::Deal(_) => Step::Deal,
            StepOutput::Hit(_) => Step::Hit,
            StepOutput::DoubleDown(_) => Step::DoubleDown,
            StepOutput::Stand(_) => Step::Stand,
            StepOutput::DealerPlay(_) => Step::DealerPlay,
            StepOutput::Resolve(_) => Step::Resolve,
        }
    }

    /// The step this payload belongs to.
    pub fn step(&self) -> (r: Step)
        ensures
            r == self.step_spec(),
    {
        match self {
            StepOutput::Deal(_) => Step::Deal,
            StepOutput::Hit(_) => Step::Hit,
            StepOutput::DoubleDown(_) => Step::DoubleDown,
            StepOutput::Stand(_) => Step::Stand,
            StepOutput::DealerPlay(_) => Step::DealerPlay,
            StepOutput::Resolve(_) => Step::Resolve,
        }
    }
}

} // verus!
