//! The game session and its steps. Each step is a request, which checks the
//! session's state and records the step as pending, and a settlement, which
//! the service delivers later and which applies the step's whole effect at
//! once or nothing at all.

use vstd::prelude::*;
use crate::payout::{base_payout_spec, final_payout, scaled_amount};
use crate::protocol::{
    Argument, CallbackAccount, ComputationOutputs, ComputationRequest, DealerPlayOutput,
    PlayerDoubleDownOutput, PlayerHitOutput, PlayerStandOutput, ResolveGameOutput,
    ShuffleAndDealCardsOutput, Step, StepOutput,
};

verus! {

/// Byte offset of the encrypted deck in the stored session.
pub const DECK_OFFSET: u32 = 8;

/// Byte length of the encrypted deck.
pub const DECK_LENGTH: u32 = 96;

/// Byte offset of the player's encrypted hand.
pub const PLAYER_HAND_OFFSET: u32 = 104;

/// Byte offset of the dealer's encrypted hand.
pub const DEALER_HAND_OFFSET: u32 = 136;

/// Byte length of an encrypted hand.
pub const HAND_LENGTH: u32 = 32;

/// Cards a hand can hold.
pub const MAX_HAND_CARDS: u8 = 11;

/// Cards the dealer's play may add.
pub const MAX_DEALER_DRAWS: u8 = 7;

/// Where a session stands; it only moves forward through this order.
#[derive(Clone, Copy, PartialEq, Eq, Structural, Debug)]
pub enum BlackjackGameState {
    Initial,
    PlayerTurn,
    DealerTurn,
    Resolving,
    Resolved,
}

/// The step a session waits on, with the handle its settlement must carry.
#[derive(Clone, Copy, PartialEq, Eq, Structural, Debug)]
pub struct PendingComputation {
    pub step: Step,
    pub computation_offset: u64,
}

/// Why a request or a settlement was refused. A refusal changes nothing.
#[derive(Clone, Copy, PartialEq, Eq, Structural, Debug)]
pub enum CasinoError {
    /// The session is not in the state the step needs.
    InvalidGameState,
    /// The player has stood, or the hand has no free slot.
    InvalidMove,
    /// The deal's player hand or shown dealer card is encrypted for another
    /// key than the player's.
    InvalidDealerClientPubkey,
    /// A later step's player-readable field is encrypted for another key than
    /// the player's.
    InvalidPlayerEncryptionKey,
    /// The service reported failure.
    AbortedComputation,
    /// Another step is already waiting for its settlement.
    ComputationPending,
    /// The settlement is not the one the session waits for.
    UnexpectedSettlement,
    /// The payload reports a dealer hand size the dealer's play cannot give.
    InvalidSettlementPayload,
}

/// One game of one player.
#[derive(Clone, Copy, PartialEq, Eq, Debug)]
pub struct BlackjackGame {
    /// The shuffled deck, packed and encrypted for the service, in 3 chunks.
    pub deck: [[u8; 32]; 3],
    /// The player's packed hand, encrypted for the player.
    pub player_hand: [u8; 32],
    /// The dealer's packed hand, encrypted for the service.
    pub dealer_hand: [u8; 32],
    pub deck_nonce: u128,
    pub client_nonce: u128,
    pub dealer_nonce: u128,
    pub game_id: u64,
    /// The player's account.
    pub player_pubkey: [u8; 32],
    /// The player's public encryption key.
    pub player_enc_pubkey: [u8; 32],
    /// Address seed of the stored session.
    pub bump: u8,
    pub game_state: BlackjackGameState,
    pub player_hand_size: u8,
    pub dealer_hand_size: u8,
    /// Set once the player stands or doubles down; never cleared.
    pub player_has_stood: bool,
    /// Outcome code, set when the game is resolved.
    pub game_result: u8,
    pub bet_amount: u64,
    /// The step dispatched and not yet settled.
    pub pending: Option<PendingComputation>,
}

/// Event of the deal settlement.
#[derive(Clone, Copy, PartialEq, Eq, Debug)]
pub struct CardsShuffledAndDealtEvent {
    pub player_hand: [u8; 32],
    pub dealer_face_up_card: [u8; 32],
    pub client_nonce: u128,
    pub dealer_client_nonce: u128,
    pub game_id: u64,
}

/// Event of a hit that drew a card.
#[derive(Clone, Copy, PartialEq, Eq, Debug)]
pub struct PlayerHitEvent {
    pub player_hand: [u8; 32],
    pub client_nonce: u128,
    pub game_id: u64,
}

/// Event of a double-down that drew a card.
#[derive(Clone, Copy, PartialEq, Eq, Debug)]
pub struct PlayerDoubleDownEvent {
    pub player_hand: [u8; 32],
    pub client_nonce: u128,
    pub game_id: u64,
}

/// Event of a stand that was not bust.
#[derive(Clone, Copy, PartialEq, Eq, Debug)]
pub struct PlayerStandEvent {
    pub is_bust: bool,
    pub game_id: u64,
}

/// Event of a step that found the player bust.
#[derive(Clone, Copy, PartialEq, Eq, Debug)]
pub struct PlayerBustEvent {
    pub client_nonce: u128,
    pub game_id: u64,
}

/// Event of the dealer's play, with the dealer's hand encrypted for the player.
#[derive(Clone, Copy, PartialEq, Eq, Debug)]
pub struct DealerPlayEvent {
    pub dealer_hand: [u8; 32],
    pub dealer_hand_size: u8,
    pub client_nonce: u128,
    pub game_id: u64,
}

/// Event of the resolution.
#[derive(Clone, Copy, PartialEq, Eq, Debug)]
pub struct BlackjackResultEvent {
    pub result_code: u8,
    pub game_id: u64,
}

/// What a settlement announces.
#[derive(Clone, Copy, PartialEq, Eq, Debug)]
pub enum GameEvent {
    CardsShuffledAndDealt(CardsShuffledAndDealtEvent),
    PlayerHit(PlayerHitEvent),
    PlayerDoubleDown(PlayerDoubleDownEvent),
    PlayerStand(PlayerStandEvent),
    PlayerBust(PlayerBustEvent),
    DealerPlay(DealerPlayEvent),
    BlackjackResult(BlackjackResultEvent),
}

/// Position of a state in the forward order.
pub open spec fn state_rank(s: BlackjackGameState) -> nat {
    match s {
        BlackjackGameState::Initial => 0,
        BlackjackGameState::PlayerTurn => 1,
        BlackjackGameState::DealerTurn => 2,
        BlackjackGameState::Resolving => 3,
        BlackjackGameState::Resolved => 4,
    }
}

impl BlackjackGame {
    /// The session's invariant: hand sizes fit the deck and the state, and a
    /// pending step is one the state allows.
    pub open spec fn wf(self) -> bool {
        let p = self.player_hand_size;
        let d = self.dealer_hand_size;
        &&& p + d <= 52
        &&& match self.game_state {
            BlackjackGameState::Initial => {
                &&& p == 0
                &&& d == 0
                &&& !self.player_has_stood
                &&& self.pending is Some ==> self.pending->Some_0.step == Step::Deal
            },
            BlackjackGameState::PlayerTurn => {
                &&& d == 2
                &&& 2 <= p <= MAX_HAND_CARDS
                &&& self.pending is Some ==> {
                    let s = self.pending->Some_0.step;
                    &&& !self.player_has_stood
                    &&& (s == Step::Stand || ((s == Step::Hit || s == Step::DoubleDown) && p
                        < MAX_HAND_CARDS))
                }
            },
            BlackjackGameState::DealerTurn => {
                &&& d == 2
                &&& 2 <= p <= MAX_HAND_CARDS
                &&& self.pending is Some ==> self.pending->Some_0.step == Step::DealerPlay
            },
            BlackjackGameState::Resolving => {
                &&& 2 <= p <= MAX_HAND_CARDS
                &&& 2 <= d <= 2 + MAX_DEALER_DRAWS
                &&& self.pending is Some ==> self.pending->Some_0.step == Step::Resolve
            },
            BlackjackGameState::Resolved => {
                &&& 2 <= p <= MAX_HAND_CARDS
                &&& 2 <= d <= 2 + MAX_DEALER_DRAWS
                &&& self.pending is None
            },
        }
    }
}

impl BlackjackGame {
    /// Whether the session meets its invariant; a session read back from
    /// storage is checked with this before any step is applied to it.
    pub fn is_well_formed(&self) -> (r: bool)
        ensures
            r == self.wf(),
    {
        let p = self.player_hand_size;
        let d = self.dealer_hand_size;
        if p as u16 + d as u16 > 52 {
            return false;
        }
        match self.game_state {
            BlackjackGameState::Initial => {
                p == 0 && d == 0 && !self.player_has_stood && match self.pending {
                    Some(pc) => pc.step == Step::Deal,
                    None => true,
                }
            },
            BlackjackGameState::PlayerTurn => {
                d == 2 && 2 <= p && p <= MAX_HAND_CARDS && match self.pending {
                    Some(pc) => !self.player_has_stood && (pc.step == Step::Stand || ((pc.step
                        == Step::Hit || pc.step == Step::DoubleDown) && p < MAX_HAND_CARDS)),
                    None => true,
                }
            },
            BlackjackGameState::DealerTurn => {
                d == 2 && 2 <= p && p <= MAX_HAND_CARDS && match self.pending {
                    Some(pc) => pc.step == Step::DealerPlay,
                    None => true,
                }
            },
            BlackjackGameState::Resolving => {
                2 <= p && p <= MAX_HAND_CARDS && 2 <= d && d <= 2 + MAX_DEALER_DRAWS
                    && match self.pending {
                    Some(pc) => pc.step == Step::Resolve,
                    None => true,
                }
            },
            BlackjackGameState::Resolved => {
                2 <= p && p <= MAX_HAND_CARDS && 2 <= d && d <= 2 + MAX_DEALER_DRAWS
                    && self.pending.is_none()
            },
        }
    }
}

/// `g` waiting on `step` under handle `offset`, and otherwise unchanged.
pub open spec fn with_pending(g: BlackjackGame, step: Step, offset: u64) -> BlackjackGame {
    BlackjackGame { pending: Some(PendingComputation { step, computation_offset: offset }), ..g }
}

/// A request for `step` with these arguments, settled into record `game_key`.
pub open spec fn is_request(
    r: ComputationRequest,
    step: Step,
    offset: u64,
    args: Seq<Argument>,
    game_key: [u8; 32],
) -> bool {
    &&& r.step == step
    &&& r.computation_offset == offset
    &&& r.args@ == args
    &&& r.callback_accounts@ == seq![CallbackAccount { pubkey: game_key, is_writable: true }]
}

fn make_request(step: Step, computation_offset: u64, args: Vec<Argument>, game_key: [u8; 32]) -> (r:
    ComputationRequest)
    ensures
        is_request(r, step, computation_offset, args@, game_key),
{
    let mut callback_accounts: Vec<CallbackAccount> = Vec::new();
    callback_accounts.push(CallbackAccount { pubkey: game_key, is_writable: true });
    proof {
        assert(callback_accounts@ =~= seq![CallbackAccount { pubkey: game_key, is_writable: true }]);
    }
    ComputationRequest { step, computation_offset, args, callback_accounts }
}


/// Arguments of the deal request: two nonces for the service's outputs, then
/// the player's key with a nonce for each of the two player-readable outputs.
pub open spec fn deal_args(
    mxe_nonce: u128,
    mxe_again_nonce: u128,
    client_pubkey: [u8; 32],
    client_nonce: u128,
    client_again_nonce: u128,
) -> Seq<Argument> {
    seq![
        Argument::PlaintextU128(mxe_nonce),
        Argument::PlaintextU128(mxe_again_nonce),
        Argument::ArcisPubkey(client_pubkey),
        Argument::PlaintextU128(client_nonce),
        Argument::ArcisPubkey(client_pubkey),
        Argument::PlaintextU128(client_again_nonce),
    ]
}

/// Arguments of the hit and double-down requests: the deck, the player's
/// hand, and both hand sizes.
pub open spec fn draw_args(g: BlackjackGame, game_key: [u8; 32]) -> Seq<Argument> {
    seq![
        Argument::PlaintextU128(g.deck_nonce),
        Argument::Account(game_key, DECK_OFFSET, DECK_LENGTH),
        Argument::ArcisPubkey(g.player_enc_pubkey),
        Argument::PlaintextU128(g.client_nonce),
        Argument::Account(game_key, PLAYER_HAND_OFFSET, HAND_LENGTH),
        Argument::PlaintextU8(g.player_hand_size),
        Argument::PlaintextU8(g.dealer_hand_size),
    ]
}

/// Arguments of the stand request: the player's hand and its size.
pub open spec fn stand_args(g: BlackjackGame, game_key: [u8; 32]) -> Seq<Argument> {
    seq![
        Argument::ArcisPubkey(g.player_enc_pubkey),
        Argument::PlaintextU128(g.client_nonce),
        Argument::Account(game_key, PLAYER_HAND_OFFSET, HAND_LENGTH),
        Argument::PlaintextU8(g.player_hand_size),
    ]
}

/// Arguments of the dealer's play: the deck, the dealer's hand, the player's
/// key with a fresh nonce for the player's copy, and both hand sizes.
pub open spec fn dealer_play_args(g: BlackjackGame, game_key: [u8; 32], client_nonce: u128) -> Seq<
    Argument,
> {
    seq![
        Argument::PlaintextU128(g.deck_nonce),
        Argument::Account(game_key, DECK_OFFSET, DECK_LENGTH),
        Argument::PlaintextU128(g.dealer_nonce),
        Argument::Account(game_key, DEALER_HAND_OFFSET, HAND_LENGTH),
        Argument::ArcisPubkey(g.player_enc_pubkey),
        Argument::PlaintextU128(client_nonce),
        Argument::PlaintextU8(g.player_hand_size),
        Argument::PlaintextU8(g.dealer_hand_size),
    ]
}

/// Arguments of the resolve request: both hands and both sizes.
pub open spec fn resolve_args(g: BlackjackGame, game_key: [u8; 32]) -> Seq<Argument> {
    seq![
        Argument::ArcisPubkey(g.player_enc_pubkey),
        Argument::PlaintextU128(g.client_nonce),
        Argument::Account(game_key, PLAYER_HAND_OFFSET, HAND_LENGTH),
        Argument::PlaintextU128(g.dealer_nonce),
        Argument::Account(game_key, DEALER_HAND_OFFSET, HAND_LENGTH),
        Argument::PlaintextU8(g.player_hand_size),
        Argument::PlaintextU8(g.dealer_hand_size),
    ]
}

/// Why a hit or double-down request is refused, if it is.
pub open spec fn draw_refusal(g: BlackjackGame) -> Option<CasinoError> {
    if g.game_state != BlackjackGameState::PlayerTurn {
        Some(CasinoError::InvalidGameState)
    } else if g.player_has_stood || g.player_hand_size >= MAX_HAND_CARDS {
        Some(CasinoError::InvalidMove)
    } else if g.pending is Some {
        Some(CasinoError::ComputationPending)
    } else {
        None
    }
}

/// Why a stand request is refused, if it is.
pub open spec fn stand_refusal(g: BlackjackGame) -> Option<CasinoError> {
    if g.game_state != BlackjackGameState::PlayerTurn {
        Some(CasinoError::InvalidGameState)
    } else if g.player_has_stood {
        Some(CasinoError::InvalidMove)
    } else if g.pending is Some {
        Some(CasinoError::ComputationPending)
    } else {
        None
    }
}

/// Why a request that needs state `s` is refused, if it is.
pub open spec fn state_refusal(g: BlackjackGame, s: BlackjackGameState) -> Option<CasinoError> {
    if g.game_state != s {
        Some(CasinoError::InvalidGameState)
    } else if g.pending is Some {
        Some(CasinoError::ComputationPending)
    } else {
        None
    }
}

/// What a request did: refused with the error and nothing changed, or the
/// session waits on the step and nothing else changed.
pub open spec fn request_outcome(
    old_game: BlackjackGame,
    new_game: BlackjackGame,
    r: Result<ComputationRequest, CasinoError>,
    refusal: Option<CasinoError>,
    step: Step,
    offset: u64,
    args: Seq<Argument>,
    game_key: [u8; 32],
) -> bool {
    match refusal {
        Some(e) => r == Err::<ComputationRequest, CasinoError>(e) && new_game == old_game,
        None => {
            &&& r is Ok
            &&& is_request(r->Ok_0, step, offset, args, game_key)
            &&& new_game == with_pending(old_game, step, offset)
        },
    }
}

/// Starts a game: a session in state `Initial` that waits on the deal, and
/// the deal request.
pub fn initialize_blackjack_game(
    game_key: [u8; 32],
    player_pubkey: [u8; 32],
    bump: u8,
    computation_offset: u64,
    game_id: u64,
    mxe_nonce: u128,
    mxe_again_nonce: u128,
    client_pubkey: [u8; 32],
    client_nonce: u128,
    client_again_nonce: u128,
    bet_amount: u64,
) -> (r: (BlackjackGame, ComputationRequest))
    ensures
        r.0.wf(),
        forall|i: int| 0 <= i < 3 ==> (#[trigger] r.0.deck@[i])@ == Seq::new(32, |_j: int| 0u8),
        r.0.player_hand@ == Seq::new(32, |_j: int| 0u8),
        r.0.dealer_hand@ == Seq::new(32, |_j: int| 0u8),
        r.0 == (BlackjackGame {
            deck: r.0.deck,
            player_hand: r.0.player_hand,
            dealer_hand: r.0.dealer_hand,
            deck_nonce: 0,
            client_nonce: 0,
            dealer_nonce: 0,
            game_id,
            player_pubkey,
            player_enc_pubkey: client_pubkey,
            bump,
            game_state: BlackjackGameState::Initial,
            player_hand_size: 0,
            dealer_hand_size: 0,
            player_has_stood: false,
            game_result: 0,
            bet_amount,
            pending: Some(PendingComputation { step: Step::Deal, computation_offset }),
        }),
        is_request(
            r.1,
            Step::Deal,
            computation_offset,
            deal_args(mxe_nonce, mxe_again_nonce, client_pubkey, client_nonce, client_again_nonce),
            game_key,
        ),
{
    let game = BlackjackGame {
        deck: [[0u8; 32]; 3],
        player_hand: [0u8; 32],
        dealer_hand: [0u8; 32],
        deck_nonce: 0,
        client_nonce: 0,
        dealer_nonce: 0,
        game_id,
        player_pubkey,
        player_enc_pubkey: client_pubkey,
        bump,
        game_state: BlackjackGameState::Initial,
        player_hand_size: 0,
        dealer_hand_size: 0,
        player_has_stood: false,
        game_result: 0,
        bet_amount,
        pending: Some(PendingComputation { step: Step::Deal, computation_offset }),
    };
    let mut args: Vec<Argument> = Vec::new();
    args.push(Argument::PlaintextU128(mxe_nonce));
    args.push(Argument::PlaintextU128(mxe_again_nonce));
    args.push(Argument::ArcisPubkey(client_pubkey));
    args.push(Argument::PlaintextU128(client_nonce));
    args.push(Argument::ArcisPubkey(client_pubkey));
    args.push(Argument::PlaintextU128(client_again_nonce));
    proof {
        assert(args@ =~= deal_args(
            mxe_nonce,
            mxe_again_nonce,
            client_pubkey,
            client_nonce,
            client_again_nonce,
        ));
    }
    (game, make_request(Step::Deal, computation_offset, args, game_key))
}

fn draw_request(game: &mut BlackjackGame, step: Step, game_key: [u8; 32], computation_offset: u64) -> (r:
    Result<ComputationRequest, CasinoError>)
    requires
        old(game).wf(),
        step == Step::Hit || step == Step::DoubleDown,
    ensures
        final(game).wf(),
        request_outcome(
            *old(game),
            *final(game),
            r,
            draw_refusal(*old(game)),
            step,
            computation_offset,
            draw_args(*old(game), game_key),
            game_key,
        ),
{
    if game.game_state != BlackjackGameState::PlayerTurn {
        return Err(CasinoError::InvalidGameState);
    }
    if game.player_has_stood || game.player_hand_size >= MAX_HAND_CARDS {
        return Err(CasinoError::InvalidMove);
    }
    if game.pending.is_some() {
        return Err(CasinoError::ComputationPending);
    }
    let mut args: Vec<Argument> = Vec::new();
    args.push(Argument::PlaintextU128(game.deck_nonce));
    args.push(Argument::Account(game_key, DECK_OFFSET, DECK_LENGTH));
    args.push(Argument::ArcisPubkey(game.player_enc_pubkey));
    args.push(Argument::PlaintextU128(game.client_nonce));
    args.push(Argument::Account(game_key, PLAYER_HAND_OFFSET, HAND_LENGTH));
    args.push(Argument::PlaintextU8(game.player_hand_size));
    args.push(Argument::PlaintextU8(game.dealer_hand_size));
    proof {
        assert(args@ =~= draw_args(*game, game_key));
    }
    game.pending = Some(PendingComputation { step, computation_offset });
    Ok(make_request(step, computation_offset, args, game_key))
}

/// Requests a hit: accepted only on the player's turn, before the player has
/// stood, with a free slot in the hand and no step pending.
pub fn player_hit(game: &mut BlackjackGame, game_key: [u8; 32], computation_offset: u64) -> (r:
    Result<ComputationRequest, CasinoError>)
    requires
        old(game).wf(),
    ensures
        final(game).wf(),
        request_outcome(
            *old(game),
            *final(game),
            r,
            draw_refusal(*old(game)),
            Step::Hit,
            computation_offset,
            draw_args(*old(game), game_key),
            game_key,
        ),
{
    draw_request(game, Step::Hit, game_key, computation_offset)
}

/// Requests a double-down, accepted as a hit is.
pub fn player_double_down(game: &mut BlackjackGame, game_key: [u8; 32], computation_offset: u64) -> (r:
    Result<ComputationRequest, CasinoError>)
    requires
        old(game).wf(),
    ensures
        final(game).wf(),
        request_outcome(
            *old(game),
            *final(game),
            r,
            draw_refusal(*old(game)),
            Step::DoubleDown,
            computation_offset,
            draw_args(*old(game), game_key),
            game_key,
        ),
{
    draw_request(game, Step::DoubleDown, game_key, computation_offset)
}

/// Requests a stand: accepted only on the player's turn, before the player
/// has stood, with no step pending.
pub fn player_stand(game: &mut BlackjackGame, game_key: [u8; 32], computation_offset: u64) -> (r:
    Result<ComputationRequest, CasinoError>)
    requires
        old(game).wf(),
    ensures
        final(game).wf(),
        request_outcome(
            *old(game),
            *final(game),
            r,
            stand_refusal(*old(game)),
            Step::Stand,
            computation_offset,
            stand_args(*old(game), game_key),
            game_key,
        ),
{
    if game.game_state != BlackjackGameState::PlayerTurn {
        return Err(CasinoError::InvalidGameState);
    }
    if game.player_has_stood {
        return Err(CasinoError::InvalidMove);
    }
    if game.pending.is_some() {
        return Err(CasinoError::ComputationPending);
    }
    let mut args: Vec<Argument> = Vec::new();
    args.push(Argument::ArcisPubkey(game.player_enc_pubkey));
    args.push(Argument::PlaintextU128(game.client_nonce));
    args.push(Argument::Account(game_key, PLAYER_HAND_OFFSET, HAND_LENGTH));
    args.push(Argument::PlaintextU8(game.player_hand_size));
    proof {
        assert(args@ =~= stand_args(*game, game_key));
    }
    game.pending = Some(PendingComputation { step: Step::Stand, computation_offset });
    Ok(make_request(Step::Stand, computation_offset, args, game_key))
}

/// Requests the dealer's play: accepted only on the dealer's turn with no
/// step pending. `client_nonce` encrypts the player's copy of the result.
pub fn dealer_play(
    game: &mut BlackjackGame,
    game_key: [u8; 32],
    computation_offset: u64,
    client_nonce: u128,
) -> (r: Result<ComputationRequest, CasinoError>)
    requires
        old(game).wf(),
    ensures
        final(game).wf(),
        request_outcome(
            *old(game),
            *final(game),
            r,
            state_refusal(*old(game), BlackjackGameState::DealerTurn),
            Step::DealerPlay,
            computation_offset,
            dealer_play_args(*old(game), game_key, client_nonce),
            game_key,
        ),
{
    if game.game_state != BlackjackGameState::DealerTurn {
        return Err(CasinoError::InvalidGameState);
    }
    if game.pending.is_some() {
        return Err(CasinoError::ComputationPending);
    }
    let mut args: Vec<Argument> = Vec::new();
    args.push(Argument::PlaintextU128(game.deck_nonce));
    args.push(Argument::Account(game_key, DECK_OFFSET, DECK_LENGTH));
    args.push(Argument::PlaintextU128(game.dealer_nonce));
    args.push(Argument::Account(game_key, DEALER_HAND_OFFSET, HAND_LENGTH));
    args.push(Argument::ArcisPubkey(game.player_enc_pubkey));
    args.push(Argument::PlaintextU128(client_nonce));
    args.push(Argument::PlaintextU8(game.player_hand_size));
    args.push(Argument::PlaintextU8(game.dealer_hand_size));
    proof {
        assert(args@ =~= dealer_play_args(*game, game_key, client_nonce));
    }
    game.pending = Some(PendingComputation { step: Step::DealerPlay, computation_offset });
    Ok(make_request(Step::DealerPlay, computation_offset, args, game_key))
}

/// Requests the resolution: accepted only in state `Resolving` with no step
/// pending.
pub fn resolve_game(game: &mut BlackjackGame, game_key: [u8; 32], computation_offset: u64) -> (r:
    Result<ComputationRequest, CasinoError>)
    requires
        old(game).wf(),
    ensures
        final(game).wf(),
        request_outcome(
            *old(game),
            *final(game),
            r,
            state_refusal(*old(game), BlackjackGameState::Resolving),
            Step::Resolve,
            computation_offset,
            resolve_args(*old(game), game_key),
            game_key,
        ),
{
    if game.game_state != BlackjackGameState::Resolving {
        return Err(CasinoError::InvalidGameState);
    }
    if game.pending.is_some() {
        return Err(CasinoError::ComputationPending);
    }
    let mut args: Vec<Argument> = Vec::new();
    args.push(Argument::ArcisPubkey(game.player_enc_pubkey));
    args.push(Argument::PlaintextU128(game.client_nonce));
    args.push(Argument::Account(game_key, PLAYER_HAND_OFFSET, HAND_LENGTH));
    args.push(Argument::PlaintextU128(game.dealer_nonce));
    args.push(Argument::Account(game_key, DEALER_HAND_OFFSET, HAND_LENGTH));
    args.push(Argument::PlaintextU8(game.player_hand_size));
    args.push(Argument::PlaintextU8(game.dealer_hand_size));
    proof {
        assert(args@ =~= resolve_args(*game, game_key));
    }
    game.pending = Some(PendingComputation { step: Step::Resolve, computation_offset });
    Ok(make_request(Step::Resolve, computation_offset, args, game_key))
}


/// The session after a settled step: nothing is pending any more.
pub open spec fn settled(g: BlackjackGame) -> BlackjackGame {
    BlackjackGame { pending: None, ..g }
}

/// Effect of a payload on a session that waits on the payload's step: the
/// new session and the event, or the refusal.
pub open spec fn apply_output(g: BlackjackGame, o: StepOutput) -> Result<
    (BlackjackGame, GameEvent),
    CasinoError,
> {
    let done = settled(g);
    match o {
        StepOutput::Deal(out) => {
            if out.player_hand.encryption_key@ != g.player_enc_pubkey@
                || out.dealer_face_up_card.encryption_key@ != g.player_enc_pubkey@ {
                Err(CasinoError::InvalidDealerClientPubkey)
            } else {
                Ok(
                    (
                        BlackjackGame {
                            deck: out.deck.ciphertexts,
                            deck_nonce: out.deck.nonce,
                            client_nonce: out.player_hand.nonce,
                            dealer_nonce: out.dealer_hand.nonce,
                            game_state: BlackjackGameState::PlayerTurn,
                            player_hand: out.player_hand.ciphertext,
                            dealer_hand: out.dealer_hand.ciphertext,
                            player_hand_size: 2,
                            dealer_hand_size: 2,
                            ..done
                        },
                        GameEvent::CardsShuffledAndDealt(
                            CardsShuffledAndDealtEvent {
                                player_hand: out.player_hand.ciphertext,
                                dealer_face_up_card: out.dealer_face_up_card.ciphertext,
                                client_nonce: out.player_hand.nonce,
                                dealer_client_nonce: out.dealer_face_up_card.nonce,
                                game_id: g.game_id,
                            },
                        ),
                    ),
                )
            }
        },
        StepOutput::Hit(out) => {
            if out.player_hand.encryption_key@ != g.player_enc_pubkey@ {
                Err(CasinoError::InvalidPlayerEncryptionKey)
            } else {
                let hand = out.player_hand.ciphertext;
                let nonce = out.player_hand.nonce;
                if out.is_bust {
                    Ok(
                        (
                            BlackjackGame {
                                player_hand: hand,
                                client_nonce: nonce,
                                game_state: BlackjackGameState::DealerTurn,
                                ..done
                            },
                            GameEvent::PlayerBust(
                                PlayerBustEvent { client_nonce: nonce, game_id: g.game_id },
                            ),
                        ),
                    )
                } else {
                    Ok(
                        (
                            BlackjackGame {
                                player_hand: hand,
                                client_nonce: nonce,
                                player_hand_size: (g.player_hand_size + 1) as u8,
                                ..done
                            },
                            GameEvent::PlayerHit(
                                PlayerHitEvent {
                                    player_hand: hand,
                                    client_nonce: nonce,
                                    game_id: g.game_id,
                                },
                            ),
                        ),
                    )
                }
            }
        },
        StepOutput::DoubleDown(out) => {
            if out.player_hand.encryption_key@ != g.player_enc_pubkey@ {
                Err(CasinoError::InvalidPlayerEncryptionKey)
            } else {
                let hand = out.player_hand.ciphertext;
                let nonce = out.player_hand.nonce;
                let next = BlackjackGame {
                    player_hand: hand,
                    client_nonce: nonce,
                    player_has_stood: true,
                    game_state: BlackjackGameState::DealerTurn,
                    ..done
                };
                if out.is_bust {
                    Ok(
                        (
                            next,
                            GameEvent::PlayerBust(
                                PlayerBustEvent { client_nonce: nonce, game_id: g.game_id },
                            ),
                        ),
                    )
                } else {
                    Ok(
                        (
                            BlackjackGame {
                                player_hand_size: (g.player_hand_size + 1) as u8,
                                ..next
                            },
                            GameEvent::PlayerDoubleDown(
                                PlayerDoubleDownEvent {
                                    player_hand: hand,
                                    client_nonce: nonce,
                                    game_id: g.game_id,
                                },
                            ),
                        ),
                    )
                }
            }
        },
        StepOutput::Stand(out) => {
            if out.is_bust {
                Ok(
                    (
                        BlackjackGame { player_has_stood: true, ..done },
                        GameEvent::PlayerBust(
                            PlayerBustEvent { client_nonce: g.client_nonce, game_id: g.game_id },
                        ),
                    ),
                )
            } else {
                Ok(
                    (
                        BlackjackGame {
                            player_has_stood: true,
                            game_state: BlackjackGameState::DealerTurn,
                            ..done
                        },
                        GameEvent::PlayerStand(PlayerStandEvent { is_bust: false, game_id: g.game_id }),
                    ),
                )
            }
        },
        StepOutput::DealerPlay(out) => {
            if out.dealer_client_hand.encryption_key@ != g.player_enc_pubkey@ {
                Err(CasinoError::InvalidPlayerEncryptionKey)
            } else if out.dealer_hand_size < g.dealer_hand_size || out.dealer_hand_size
                > g.dealer_hand_size + MAX_DEALER_DRAWS {
                Err(CasinoError::InvalidSettlementPayload)
            } else {
                Ok(
                    (
                        BlackjackGame {
                            dealer_hand: out.dealer_hand.ciphertext,
                            dealer_nonce: out.dealer_hand.nonce,
                            dealer_hand_size: out.dealer_hand_size,
                            game_state: BlackjackGameState::Resolving,
                            ..done
                        },
                        GameEvent::DealerPlay(
                            DealerPlayEvent {
                                dealer_hand: out.dealer_client_hand.ciphertext,
                                dealer_hand_size: out.dealer_hand_size,
                                client_nonce: out.dealer_client_hand.nonce,
                                game_id: g.game_id,
                            },
                        ),
                    ),
                )
            }
        },
        StepOutput::Resolve(out) => {
            Ok(
                (
                    BlackjackGame {
                        game_state: BlackjackGameState::Resolved,
                        game_result: out.result,
                        ..done
                    },
                    GameEvent::BlackjackResult(
                        BlackjackResultEvent { result_code: out.result, game_id: g.game_id },
                    ),
                ),
            )
        },
    }
}

/// Effect of a settlement for `step` under handle `offset`: refused unless the
/// session waits on exactly that step and handle; refused when the service
/// aborted; otherwise the payload's effect.
pub open spec fn settle_spec(
    g: BlackjackGame,
    step: Step,
    offset: u64,
    outcome: ComputationOutputs<StepOutput>,
) -> Result<(BlackjackGame, GameEvent), CasinoError> {
    if g.pending != Some(PendingComputation { step, computation_offset: offset }) {
        Err(CasinoError::UnexpectedSettlement)
    } else {
        match outcome {
            ComputationOutputs::Aborted => Err(CasinoError::AbortedComputation),
            ComputationOutputs::Success(o) => {
                if o.step_spec() != step {
                    Err(CasinoError::UnexpectedSettlement)
                } else {
                    apply_output(g, o)
                }
            },
        }
    }
}

/// The session after a settlement: the new one, or the old one where the
/// settlement was refused.
pub open spec fn after_settlement(
    g: BlackjackGame,
    step: Step,
    offset: u64,
    outcome: ComputationOutputs<StepOutput>,
) -> BlackjackGame {
    match settle_spec(g, step, offset, outcome) {
        Ok((n, _)) => n,
        Err(_) => g,
    }
}

/// A settlement's result `r` and new session `new_game` are those of
/// `settle_spec`, and a refusal leaves the session as it was.
pub open spec fn settlement_outcome(
    old_game: BlackjackGame,
    new_game: BlackjackGame,
    r: Result<GameEvent, CasinoError>,
    step: Step,
    offset: u64,
    outcome: ComputationOutputs<StepOutput>,
) -> bool {
    match settle_spec(old_game, step, offset, outcome) {
        Ok((n, e)) => r == Ok::<GameEvent, CasinoError>(e) && new_game == n,
        Err(e) => r == Err::<GameEvent, CasinoError>(e) && new_game == old_game,
    }
}

fn keys_equal(a: &[u8; 32], b: &[u8; 32]) -> (r: bool)
    ensures
        r == (a@ == b@),
{
    let mut i: usize = 0;
    while i < 32
        invariant
            i <= 32,
            forall|j: int| 0 <= j < i ==> a@[j] == b@[j],
        decreases 32 - i,
    {
        if a[i] != b[i] {
            return false;
        }
        i += 1;
    }
    proof {
        assert(a@ =~= b@);
    }
    true
}

/// Applies a settlement for `step` under handle `computation_offset`, as
/// `settle_spec` states: all of the step's effect, or a refusal that changes
/// nothing.
pub fn settle(
    game: &mut BlackjackGame,
    step: Step,
    computation_offset: u64,
    outcome: ComputationOutputs<StepOutput>,
) -> (r: Result<GameEvent, CasinoError>)
    requires
        old(game).wf(),
    ensures
        final(game).wf(),
        settlement_outcome(*old(game), *final(game), r, step, computation_offset, outcome),
{
    let awaited = match game.pending {
        Some(pc) => pc.step == step && pc.computation_offset == computation_offset,
        None => false,
    };
    if !awaited {
        return Err(CasinoError::UnexpectedSettlement);
    }
    let o = match outcome {
        ComputationOutputs::Success(o) => o,
        ComputationOutputs::Aborted => {
            return Err(CasinoError::AbortedComputation);
        },
    };
    if o.step() != step {
        return Err(CasinoError::UnexpectedSettlement);
    }
    let game_id = game.game_id;
    match o {
        StepOutput::Deal(out) => {
            if !keys_equal(&out.player_hand.encryption_key, &game.player_enc_pubkey)
                || !keys_equal(&out.dealer_face_up_card.encryption_key, &game.player_enc_pubkey) {
                return Err(CasinoError::InvalidDealerClientPubkey);
            }
            game.deck = out.deck.ciphertexts;
            game.deck_nonce = out.deck.nonce;
            game.client_nonce = out.player_hand.nonce;
            game.dealer_nonce = out.dealer_hand.nonce;
            game.game_state = BlackjackGameState::PlayerTurn;
            game.player_hand = out.player_hand.ciphertext;
            game.dealer_hand = out.dealer_hand.ciphertext;
            game.player_hand_size = 2;
            game.dealer_hand_size = 2;
            game.pending = None;
            Ok(
                GameEvent::CardsShuffledAndDealt(
                    CardsShuffledAndDealtEvent {
                        player_hand: out.player_hand.ciphertext,
                        dealer_face_up_card: out.dealer_face_up_card.ciphertext,
                        client_nonce: out.player_hand.nonce,
                        dealer_client_nonce: out.dealer_face_up_card.nonce,
                        game_id,
                    },
                ),
            )
        },
        StepOutput::Hit(out) => {
            if !keys_equal(&out.player_hand.encryption_key, &game.player_enc_pubkey) {
                return Err(CasinoError::InvalidPlayerEncryptionKey);
            }
            let hand = out.player_hand.ciphertext;
            let nonce = out.player_hand.nonce;
            game.player_hand = hand;
            game.client_nonce = nonce;
            game.pending = None;
            if out.is_bust {
                game.game_state = BlackjackGameState::DealerTurn;
                Ok(GameEvent::PlayerBust(PlayerBustEvent { client_nonce: nonce, game_id }))
            } else {
                game.player_hand_size = game.player_hand_size + 1;
                Ok(
                    GameEvent::PlayerHit(
                        PlayerHitEvent { player_hand: hand, client_nonce: nonce, game_id },
                    ),
                )
            }
        },
        StepOutput::DoubleDown(out) => {
            if !keys_equal(&out.player_hand.encryption_key, &game.player_enc_pubkey) {
                return Err(CasinoError::InvalidPlayerEncryptionKey);
            }
            let hand = out.player_hand.ciphertext;
            let nonce = out.player_hand.nonce;
            game.player_hand = hand;
            game.client_nonce = nonce;
            game.player_has_stood = true;
            game.game_state = BlackjackGameState::DealerTurn;
            game.pending = None;
            if out.is_bust {
                Ok(GameEvent::PlayerBust(PlayerBustEvent { client_nonce: nonce, game_id }))
            } else {
                game.player_hand_size = game.player_hand_size + 1;
                Ok(
                    GameEvent::PlayerDoubleDown(
                        PlayerDoubleDownEvent { player_hand: hand, client_nonce: nonce, game_id },
                    ),
                )
            }
        },
        StepOutput::Stand(out) => {
            game.player_has_stood = true;
            game.pending = None;
            if out.is_bust {
                Ok(
                    GameEvent::PlayerBust(
                        PlayerBustEvent { client_nonce: game.client_nonce, game_id },
                    ),
                )
            } else {
                game.game_state = BlackjackGameState::DealerTurn;
                Ok(GameEvent::PlayerStand(PlayerStandEvent { is_bust: false, game_id }))
            }
        },
        StepOutput::DealerPlay(out) => {
            if !keys_equal(&out.dealer_client_hand.encryption_key, &game.player_enc_pubkey) {
                return Err(CasinoError::InvalidPlayerEncryptionKey);
            }
            if out.dealer_hand_size < game.dealer_hand_size || out.dealer_hand_size
                > game.dealer_hand_size + MAX_DEALER_DRAWS {
                return Err(CasinoError::InvalidSettlementPayload);
            }
            game.dealer_hand = out.dealer_hand.ciphertext;
            game.dealer_nonce = out.dealer_hand.nonce;
            game.dealer_hand_size = out.dealer_hand_size;
            game.game_state = BlackjackGameState::Resolving;
            game.pending = None;
            Ok(
                GameEvent::DealerPlay(
                    DealerPlayEvent {
                        dealer_hand: out.dealer_client_hand.ciphertext,
                        dealer_hand_size: out.dealer_hand_size,
                        client_nonce: out.dealer_client_hand.nonce,
                        game_id,
                    },
                ),
            )
        },
        StepOutput::Resolve(out) => {
            game.game_state = BlackjackGameState::Resolved;
            game.game_result = out.result;
            game.pending = None;
            Ok(
                GameEvent::BlackjackResult(
                    BlackjackResultEvent { result_code: out.result, game_id },
                ),
            )
        },
    }
}


/// A deal payload as a payload of any step.
pub open spec fn deal_outcome(o: ComputationOutputs<ShuffleAndDealCardsOutput>) -> ComputationOutputs<
    StepOutput,
> {
    match o {
        ComputationOutputs::Success(x) => ComputationOutputs::Success(StepOutput::Deal(x)),
        ComputationOutputs::Aborted => ComputationOutputs::Aborted,
    }
}

/// A hit payload as a payload of any step.
pub open spec fn hit_outcome(o: ComputationOutputs<PlayerHitOutput>) -> ComputationOutputs<StepOutput> {
    match o {
        ComputationOutputs::Success(x) => ComputationOutputs::Success(StepOutput::Hit(x)),
        ComputationOutputs::Aborted => ComputationOutputs::Aborted,
    }
}

/// A double-down payload as a payload of any step.
pub open spec fn double_down_outcome(o: ComputationOutputs<PlayerDoubleDownOutput>) -> ComputationOutputs<
    StepOutput,
> {
    match o {
        ComputationOutputs::Success(x) => ComputationOutputs::Success(StepOutput::DoubleDown(x)),
        ComputationOutputs::Aborted => ComputationOutputs::Aborted,
    }
}

/// A stand payload as a payload of any step.
pub open spec fn stand_outcome(o: ComputationOutputs<PlayerStandOutput>) -> ComputationOutputs<
    StepOutput,
> {
    match o {
        ComputationOutputs::Success(x) => ComputationOutputs::Success(StepOutput::Stand(x)),
        ComputationOutputs::Aborted => ComputationOutputs::Aborted,
    }
}

/// A dealer's-play payload as a payload of any step.
pub open spec fn dealer_play_outcome(o: ComputationOutputs<DealerPlayOutput>) -> ComputationOutputs<
    StepOutput,
> {
    match o {
        ComputationOutputs::Success(x) => ComputationOutputs::Success(StepOutput::DealerPlay(x)),
        ComputationOutputs::Aborted => ComputationOutputs::Aborted,
    }
}

/// A resolve payload as a payload of any step.
pub open spec fn resolve_outcome(o: ComputationOutputs<ResolveGameOutput>) -> ComputationOutputs<
    StepOutput,
> {
    match o {
        ComputationOutputs::Success(x) => ComputationOutputs::Success(StepOutput::Resolve(x)),
        ComputationOutputs::Aborted => ComputationOutputs::Aborted,
    }
}

/// Settles the deal: stores the deck and both hands, sets both sizes to 2
/// and passes the turn to the player. Refused with `InvalidDealerClientPubkey`
/// where the player's hand or the shown card is not encrypted for the
/// player's key.
pub fn shuffle_and_deal_cards_callback(
    game: &mut BlackjackGame,
    computation_offset: u64,
    output: ComputationOutputs<ShuffleAndDealCardsOutput>,
) -> (r: Result<GameEvent, CasinoError>)
    requires
        old(game).wf(),
    ensures
        final(game).wf(),
        settlement_outcome(
            *old(game),
            *final(game),
            r,
            Step::Deal,
            computation_offset,
            deal_outcome(output),
        ),
{
    let outcome = match output {
        ComputationOutputs::Success(x) => ComputationOutputs::Success(StepOutput::Deal(x)),
        ComputationOutputs::Aborted => ComputationOutputs::Aborted,
    };
    settle(game, Step::Deal, computation_offset, outcome)
}

/// Settles a hit: stores the new hand; a bust hand passes the turn to the
/// dealer with its size unchanged, otherwise the size grows by one.
pub fn player_hit_callback(
    game: &mut BlackjackGame,
    computation_offset: u64,
    output: ComputationOutputs<PlayerHitOutput>,
) -> (r: Result<GameEvent, CasinoError>)
    requires
        old(game).wf(),
    ensures
        final(game).wf(),
        settlement_outcome(
            *old(game),
            *final(game),
            r,
            Step::Hit,
            computation_offset,
            hit_outcome(output),
        ),
{
    let outcome = match output {
        ComputationOutputs::Success(x) => ComputationOutputs::Success(StepOutput::Hit(x)),
        ComputationOutputs::Aborted => ComputationOutputs::Aborted,
    };
    settle(game, Step::Hit, computation_offset, outcome)
}

/// Settles a double-down: stores the new hand, marks the player as stood and
/// passes the turn to the dealer, bust or not; a drawn card grows the size.
pub fn player_double_down_callback(
    game: &mut BlackjackGame,
    computation_offset: u64,
    output: ComputationOutputs<PlayerDoubleDownOutput>,
) -> (r: Result<GameEvent, CasinoError>)
    requires
        old(game).wf(),
    ensures
        final(game).wf(),
        settlement_outcome(
            *old(game),
            *final(game),
            r,
            Step::DoubleDown,
            computation_offset,
            double_down_outcome(output),
        ),
{
    let outcome = match output {
        ComputationOutputs::Success(x) => ComputationOutputs::Success(StepOutput::DoubleDown(x)),
        ComputationOutputs::Aborted => ComputationOutputs::Aborted,
    };
    settle(game, Step::DoubleDown, computation_offset, outcome)
}

/// Settles a stand: marks the player as stood; a hand that is not bust
/// passes the turn to the dealer, a bust one stays on the player's turn.
pub fn player_stand_callback(
    game: &mut BlackjackGame,
    computation_offset: u64,
    output: ComputationOutputs<PlayerStandOutput>,
) -> (r: Result<GameEvent, CasinoError>)
    requires
        old(game).wf(),
    ensures
        final(game).wf(),
        settlement_outcome(
            *old(game),
            *final(game),
            r,
            Step::Stand,
            computation_offset,
            stand_outcome(output),
        ),
{
    let outcome = match output {
        ComputationOutputs::Success(x) => ComputationOutputs::Success(StepOutput::Stand(x)),
        ComputationOutputs::Aborted => ComputationOutputs::Aborted,
    };
    settle(game, Step::Stand, computation_offset, outcome)
}

/// Settles the dealer's play: stores the dealer's hand and size and moves to
/// `Resolving`. Refused where the size is not within seven cards above the
/// current one.
pub fn dealer_play_callback(
    game: &mut BlackjackGame,
    computation_offset: u64,
    output: ComputationOutputs<DealerPlayOutput>,
) -> (r: Result<GameEvent, CasinoError>)
    requires
        old(game).wf(),
    ensures
        final(game).wf(),
        settlement_outcome(
            *old(game),
            *final(game),
            r,
            Step::DealerPlay,
            computation_offset,
            dealer_play_outcome(output),
        ),
{
    let outcome = match output {
        ComputationOutputs::Success(x) => ComputationOutputs::Success(StepOutput::DealerPlay(x)),
        ComputationOutputs::Aborted => ComputationOutputs::Aborted,
    };
    settle(game, Step::DealerPlay, computation_offset, outcome)
}

/// Settles the resolution: records the outcome code, moves to `Resolved`,
/// and gives the amount to transfer to the player, the stake's multiple for
/// that code scaled by `rtp_bps` basis points. The transfer itself is the
/// caller's; where it fails, the caller keeps the session as it was before
/// this call.
pub fn resolve_game_callback(
    game: &mut BlackjackGame,
    computation_offset: u64,
    output: ComputationOutputs<ResolveGameOutput>,
    rtp_bps: u16,
) -> (r: Result<(GameEvent, u64), CasinoError>)
    requires
        old(game).wf(),
    ensures
        final(game).wf(),
        match settle_spec(*old(game), Step::Resolve, computation_offset, resolve_outcome(output)) {
            Ok((n, e)) => {
                &&& r is Ok
                &&& r->Ok_0.0 == e
                &&& r->Ok_0.1 as nat == scaled_amount(
                    base_payout_spec(n.game_result, n.bet_amount),
                    rtp_bps as nat,
                )
                &&& *final(game) == n
            },
            Err(e) => r == Err::<(GameEvent, u64), CasinoError>(e) && *final(game) == *old(game),
        },
{
    let outcome = match output {
        ComputationOutputs::Success(x) => ComputationOutputs::Success(StepOutput::Resolve(x)),
        ComputationOutputs::Aborted => ComputationOutputs::Aborted,
    };
    match settle(game, Step::Resolve, computation_offset, outcome) {
        Ok(event) => {
            let payout = final_payout(game.game_result, game.bet_amount, rtp_bps);
            Ok((event, payout))
        },
        Err(e) => Err(e),
    }
}

/// A settlement is applied only when the session waits on exactly its step
/// and handle, and nothing is pending after it.
pub proof fn lemma_settlement_matches_dispatch(
    g: BlackjackGame,
    step: Step,
    offset: u64,
    outcome: ComputationOutputs<StepOutput>,
)
    requires
        settle_spec(g, step, offset, outcome) is Ok,
    ensures
        g.pending == Some(PendingComputation { step, computation_offset: offset }),
        settle_spec(g, step, offset, outcome)->Ok_0.0.pending is None,
{
}

/// An aborted settlement is refused, with `AbortedComputation` where the
/// session waits on that step and handle, and leaves the session as it was,
/// however often it is delivered.
pub proof fn lemma_abort_changes_nothing(g: BlackjackGame, step: Step, offset: u64)
    ensures
        settle_spec(g, step, offset, ComputationOutputs::Aborted) is Err,
        g.pending == Some(PendingComputation { step, computation_offset: offset }) ==> settle_spec(
            g,
            step,
            offset,
            ComputationOutputs::Aborted,
        ) == Err::<(BlackjackGame, GameEvent), CasinoError>(CasinoError::AbortedComputation),
        after_settlement(g, step, offset, ComputationOutputs::Aborted) == g,
        after_settlement(
            after_settlement(g, step, offset, ComputationOutputs::Aborted),
            step,
            offset,
            ComputationOutputs::Aborted,
        ) == g,
{
}

/// Delivering the same settlement twice has the effect of delivering it
/// once: the second delivery is refused and changes nothing.
pub proof fn lemma_settlement_replay(
    g: BlackjackGame,
    step: Step,
    offset: u64,
    outcome: ComputationOutputs<StepOutput>,
)
    ensures
        after_settlement(after_settlement(g, step, offset, outcome), step, offset, outcome)
            == after_settlement(g, step, offset, outcome),
{
    if settle_spec(g, step, offset, outcome) is Ok {
        lemma_settlement_matches_dispatch(g, step, offset, outcome);
    }
}

/// A settlement never moves a session back in the order of states, never
/// shrinks a hand, never clears the stood latch, and records an outcome code
/// only on the move to `Resolved`; a resolved session takes no settlement at
/// all, so its outcome code is final.
pub proof fn lemma_settlement_moves_forward(
    g: BlackjackGame,
    step: Step,
    offset: u64,
    outcome: ComputationOutputs<StepOutput>,
)
    requires
        g.wf(),
    ensures
        ({
            let n = after_settlement(g, step, offset, outcome);
            &&& state_rank(n.game_state) >= state_rank(g.game_state)
            &&& n.player_hand_size >= g.player_hand_size
            &&& n.dealer_hand_size >= g.dealer_hand_size
            &&& g.player_has_stood ==> n.player_has_stood
            &&& n.game_state != BlackjackGameState::Resolved ==> n.game_result == g.game_result
            &&& g.game_state == BlackjackGameState::Resolved ==> n == g
        }),
{
}


/// The deal settles on the session waiting on it: with both player-readable
/// keys the player's, the deck, both hands and their nonces are stored, both
/// sizes become 2 and the turn passes to the player, and the shown card goes
/// to the player; with either key another, it is refused and changes nothing.
pub proof fn lemma_deal_settlement(g: BlackjackGame, offset: u64, out: ShuffleAndDealCardsOutput)
    requires
        g.pending == Some(PendingComputation { step: Step::Deal, computation_offset: offset }),
    ensures
        ({
            let r = settle_spec(g, Step::Deal, offset, ComputationOutputs::Success(StepOutput::Deal(out)));
            if out.player_hand.encryption_key@ == g.player_enc_pubkey@
                && out.dealer_face_up_card.encryption_key@ == g.player_enc_pubkey@ {
                &&& r is Ok
                &&& r->Ok_0.0.game_state == BlackjackGameState::PlayerTurn
                &&& r->Ok_0.0.player_hand_size == 2
                &&& r->Ok_0.0.dealer_hand_size == 2
                &&& r->Ok_0.0.deck == out.deck.ciphertexts
                &&& r->Ok_0.0.deck_nonce == out.deck.nonce
                &&& r->Ok_0.0.player_hand == out.player_hand.ciphertext
                &&& r->Ok_0.0.client_nonce == out.player_hand.nonce
                &&& r->Ok_0.0.dealer_hand == out.dealer_hand.ciphertext
                &&& r->Ok_0.0.dealer_nonce == out.dealer_hand.nonce
                &&& r->Ok_0.0.pending is None
                &&& r->Ok_0.1 == GameEvent::CardsShuffledAndDealt(
                    CardsShuffledAndDealtEvent {
                        player_hand: out.player_hand.ciphertext,
                        dealer_face_up_card: out.dealer_face_up_card.ciphertext,
                        client_nonce: out.player_hand.nonce,
                        dealer_client_nonce: out.dealer_face_up_card.nonce,
                        game_id: g.game_id,
                    },
                )
            } else {
                r == Err::<(BlackjackGame, GameEvent), CasinoError>(
                    CasinoError::InvalidDealerClientPubkey,
                )
            }
        }),
{
}

/// A hit settles on the session waiting on it, with the hand encrypted for
/// the player: the hand and its nonce are stored; a bust hand keeps its size
/// and passes the turn to the dealer, otherwise the size grows by one and the
/// turn stays the player's. Deck, dealer's hand and the stood latch stay.
pub proof fn lemma_hit_settlement(g: BlackjackGame, offset: u64, out: PlayerHitOutput)
    requires
        g.pending == Some(PendingComputation { step: Step::Hit, computation_offset: offset }),
        g.game_state == BlackjackGameState::PlayerTurn,
        g.wf(),
        out.player_hand.encryption_key@ == g.player_enc_pubkey@,
    ensures
        ({
            let r = settle_spec(g, Step::Hit, offset, ComputationOutputs::Success(StepOutput::Hit(out)));
            &&& r is Ok
            &&& r->Ok_0.0.player_hand == out.player_hand.ciphertext
            &&& r->Ok_0.0.client_nonce == out.player_hand.nonce
            &&& r->Ok_0.0.player_hand_size == g.player_hand_size + (if out.is_bust { 0int } else { 1int })
            &&& r->Ok_0.0.dealer_hand_size == g.dealer_hand_size
            &&& r->Ok_0.0.game_state == (if out.is_bust {
                BlackjackGameState::DealerTurn
            } else {
                BlackjackGameState::PlayerTurn
            })
            &&& r->Ok_0.0.deck == g.deck
            &&& r->Ok_0.0.dealer_hand == g.dealer_hand
            &&& r->Ok_0.0.player_has_stood == g.player_has_stood
            &&& r->Ok_0.0.pending is None
        }),
{
}

/// A double-down settles on the session waiting on it, with the hand
/// encrypted for the player: the hand and its nonce are stored, the player
/// has stood and the turn passes to the dealer, bust or not; a drawn card
/// grows the size by one. Deck and dealer's hand stay.
pub proof fn lemma_double_down_settlement(g: BlackjackGame, offset: u64, out: PlayerDoubleDownOutput)
    requires
        g.pending == Some(PendingComputation { step: Step::DoubleDown, computation_offset: offset }),
        g.game_state == BlackjackGameState::PlayerTurn,
        g.wf(),
        out.player_hand.encryption_key@ == g.player_enc_pubkey@,
    ensures
        ({
            let r = settle_spec(
                g,
                Step::DoubleDown,
                offset,
                ComputationOutputs::Success(StepOutput::DoubleDown(out)),
            );
            &&& r is Ok
            &&& r->Ok_0.0.player_has_stood
            &&& r->Ok_0.0.game_state == BlackjackGameState::DealerTurn
            &&& r->Ok_0.0.player_hand == out.player_hand.ciphertext
            &&& r->Ok_0.0.client_nonce == out.player_hand.nonce
            &&& r->Ok_0.0.player_hand_size == g.player_hand_size + (if out.is_bust { 0int } else { 1int })
            &&& r->Ok_0.0.dealer_hand_size == g.dealer_hand_size
            &&& r->Ok_0.0.deck == g.deck
            &&& r->Ok_0.0.dealer_hand == g.dealer_hand
            &&& r->Ok_0.0.pending is None
        }),
{
}

/// A stand settles on the session waiting on it: the player has stood; a hand
/// that is not bust passes the turn to the dealer, a bust one stays on the
/// player's turn. Hands, deck, sizes and nonces stay.
pub proof fn lemma_stand_settlement(g: BlackjackGame, offset: u64, out: PlayerStandOutput)
    requires
        g.pending == Some(PendingComputation { step: Step::Stand, computation_offset: offset }),
    ensures
        ({
            let r = settle_spec(g, Step::Stand, offset, ComputationOutputs::Success(StepOutput::Stand(out)));
            &&& r is Ok
            &&& r->Ok_0.0 == (BlackjackGame {
                player_has_stood: true,
                game_state: if out.is_bust {
                    g.game_state
                } else {
                    BlackjackGameState::DealerTurn
                },
                pending: None,
                ..g
            })
        }),
{
}

/// The dealer's play settles on the session waiting on it, with the player's
/// copy encrypted for the player and a size within seven cards above the
/// current one: the dealer's hand, nonce and size are stored and the session
/// moves to `Resolving`; the player's side and the deck stay, and the cursor
/// neither moves back nor passes the end of the deck. A size out of that
/// range is refused and changes nothing.
pub proof fn lemma_dealer_play_settlement(g: BlackjackGame, offset: u64, out: DealerPlayOutput)
    requires
        g.pending == Some(PendingComputation { step: Step::DealerPlay, computation_offset: offset }),
        g.wf(),
        out.dealer_client_hand.encryption_key@ == g.player_enc_pubkey@,
    ensures
        ({
            let r = settle_spec(
                g,
                Step::DealerPlay,
                offset,
                ComputationOutputs::Success(StepOutput::DealerPlay(out)),
            );
            if g.dealer_hand_size <= out.dealer_hand_size <= g.dealer_hand_size + MAX_DEALER_DRAWS {
                &&& r is Ok
                &&& r->Ok_0.0.game_state == BlackjackGameState::Resolving
                &&& r->Ok_0.0.dealer_hand == out.dealer_hand.ciphertext
                &&& r->Ok_0.0.dealer_nonce == out.dealer_hand.nonce
                &&& r->Ok_0.0.dealer_hand_size == out.dealer_hand_size
                &&& r->Ok_0.0.player_hand == g.player_hand
                &&& r->Ok_0.0.client_nonce == g.client_nonce
                &&& r->Ok_0.0.player_hand_size == g.player_hand_size
                &&& r->Ok_0.0.player_has_stood == g.player_has_stood
                &&& r->Ok_0.0.deck == g.deck
                &&& r->Ok_0.0.player_hand_size + r->Ok_0.0.dealer_hand_size <= 52
                &&& r->Ok_0.1 == GameEvent::DealerPlay(
                    DealerPlayEvent {
                        dealer_hand: out.dealer_client_hand.ciphertext,
                        dealer_hand_size: out.dealer_hand_size,
                        client_nonce: out.dealer_client_hand.nonce,
                        game_id: g.game_id,
                    },
                )
            } else {
                r == Err::<(BlackjackGame, GameEvent), CasinoError>(
                    CasinoError::InvalidSettlementPayload,
                )
            }
        }),
{
}

/// The resolution settles on the session waiting on it: the outcome code is
/// recorded and the session is resolved, nothing else changes; an outcome in
/// which the dealer is higher or the player is bust pays nothing.
pub proof fn lemma_resolve_settlement(g: BlackjackGame, offset: u64, out: ResolveGameOutput, rtp_bps: u16)
    requires
        g.pending == Some(PendingComputation { step: Step::Resolve, computation_offset: offset }),
    ensures
        ({
            let r = settle_spec(g, Step::Resolve, offset, ComputationOutputs::Success(StepOutput::Resolve(out)));
            &&& r is Ok
            &&& r->Ok_0.0 == (BlackjackGame {
                game_state: BlackjackGameState::Resolved,
                game_result: out.result,
                pending: None,
                ..g
            })
        }),
        (out.result == 0 || out.result == 3) ==> scaled_amount(
            base_payout_spec(out.result, g.bet_amount),
            rtp_bps as nat,
        ) == 0,
{
    assert(0 * (rtp_bps as nat) == 0) by (nonlinear_arith);
}

} // verus!
