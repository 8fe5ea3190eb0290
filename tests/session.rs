use casino_blackjack::blackjack::{
    dealer_play, dealer_play_callback, initialize_blackjack_game, player_double_down,
    player_double_down_callback, player_hit, player_hit_callback, player_stand,
    player_stand_callback, resolve_game, resolve_game_callback, settle,
    shuffle_and_deal_cards_callback, BlackjackGame, BlackjackGameState, CasinoError, GameEvent,
    PendingComputation, DECK_LENGTH, DECK_OFFSET, HAND_LENGTH, PLAYER_HAND_OFFSET,
};
use casino_blackjack::circuits;
use casino_blackjack::codec::EMPTY_CARD;
use casino_blackjack::evaluator::calculate_hand_value;
use casino_blackjack::protocol::{
    Argument, ComputationOutputs, DealerPlayOutput, MxeEncrypted, MxeEncryptedDeck,
    PlayerDoubleDownOutput, PlayerHitOutput, PlayerStandOutput, ResolveGameOutput,
    SharedEncrypted, ShuffleAndDealCardsOutput, Step, StepOutput,
};

const GAME_KEY: [u8; 32] = [7u8; 32];
const PLAYER: [u8; 32] = [1u8; 32];
const CLIENT_KEY: [u8; 32] = [2u8; 32];
const RTP_BPS: u16 = 9950;

fn deck_starting_with(first: &[u8]) -> [u8; 52] {
    let mut d = [0u8; 52];
    let mut n = 0;
    for c in first {
        d[n] = *c;
        n += 1;
    }
    for c in 0u8..52 {
        if !first.contains(&c) {
            d[n] = c;
            n += 1;
        }
    }
    d
}

fn hand_of(cards: &[u8]) -> [u8; 11] {
    let mut h = [EMPTY_CARD; 11];
    for (i, c) in cards.iter().enumerate() {
        h[i] = *c;
    }
    h
}

/// Stands in for encryption: the packed word's low bytes, tagged.
fn seal(word: u128, tag: u8) -> [u8; 32] {
    let mut out = [tag; 32];
    out[..16].copy_from_slice(&word.to_le_bytes());
    out
}

fn shared(word: u128, nonce: u128) -> SharedEncrypted {
    SharedEncrypted { encryption_key: CLIENT_KEY, nonce, ciphertext: seal(word, 0xaa) }
}

fn new_game(bet: u64) -> BlackjackGame {
    let (game, req) =
        initialize_blackjack_game(GAME_KEY, PLAYER, 254, 100, 42, 11, 12, CLIENT_KEY, 13, 14, bet);
    assert_eq!(req.step, Step::Deal);
    assert_eq!(req.computation_offset, 100);
    game
}

fn deal_output(dealt: &circuits::DealtCards) -> ShuffleAndDealCardsOutput {
    ShuffleAndDealCardsOutput {
        deck: MxeEncryptedDeck {
            nonce: 21,
            ciphertexts: [
                seal(dealt.deck.card_one, 1),
                seal(dealt.deck.card_two, 2),
                seal(dealt.deck.card_three, 3),
            ],
        },
        dealer_hand: MxeEncrypted { nonce: 22, ciphertext: seal(dealt.dealer_hand.cards, 4) },
        player_hand: shared(dealt.player_hand.cards, 23),
        dealer_face_up_card: shared(dealt.dealer_face_up_card as u128, 24),
    }
}

fn dealt_game(bet: u64, deck: [u8; 52]) -> (BlackjackGame, circuits::DealtCards) {
    let mut game = new_game(bet);
    let dealt = circuits::shuffle_and_deal_cards(deck);
    let out = deal_output(&dealt);
    shuffle_and_deal_cards_callback(&mut game, 100, ComputationOutputs::Success(out)).unwrap();
    (game, dealt)
}

#[test]
fn initialize_waits_on_deal() {
    let (game, req) =
        initialize_blackjack_game(GAME_KEY, PLAYER, 254, 100, 42, 11, 12, CLIENT_KEY, 13, 14, 500);
    assert_eq!(game.game_state, BlackjackGameState::Initial);
    assert_eq!(game.player_enc_pubkey, CLIENT_KEY);
    assert_eq!(game.player_pubkey, PLAYER);
    assert_eq!(game.bet_amount, 500);
    assert_eq!(game.game_id, 42);
    assert_eq!(game.pending, Some(PendingComputation { step: Step::Deal, computation_offset: 100 }));
    assert_eq!(
        req.args,
        vec![
            Argument::PlaintextU128(11),
            Argument::PlaintextU128(12),
            Argument::ArcisPubkey(CLIENT_KEY),
            Argument::PlaintextU128(13),
            Argument::ArcisPubkey(CLIENT_KEY),
            Argument::PlaintextU128(14),
        ]
    );
    assert_eq!(req.callback_accounts.len(), 1);
    assert_eq!(req.callback_accounts[0].pubkey, GAME_KEY);
    assert!(req.callback_accounts[0].is_writable);
}

#[test]
fn scenario_hit_stand_dealer_wins() {
    // Player: ace, 9; dealer: 10, 6; then 5 for the player and 2 for the dealer.
    let deck = deck_starting_with(&[0, 10, 9, 6, 5, 2]);
    let (mut game, dealt) = dealt_game(1000, deck);
    assert_eq!(game.game_state, BlackjackGameState::PlayerTurn);
    assert_eq!(game.player_hand_size, 2);
    assert_eq!(game.dealer_hand_size, 2);
    assert_eq!(game.pending, None);
    assert_eq!(dealt.player_hand.to_array(), hand_of(&[0, 9]));
    assert_eq!(dealt.dealer_face_up_card, 10);
    assert_eq!(calculate_hand_value(&dealt.player_hand.to_array(), 2), 20);

    let req = player_hit(&mut game, GAME_KEY, 101).unwrap();
    assert_eq!(req.step, Step::Hit);
    assert_eq!(
        req.args,
        vec![
            Argument::PlaintextU128(21),
            Argument::Account(GAME_KEY, DECK_OFFSET, DECK_LENGTH),
            Argument::ArcisPubkey(CLIENT_KEY),
            Argument::PlaintextU128(23),
            Argument::Account(GAME_KEY, PLAYER_HAND_OFFSET, HAND_LENGTH),
            Argument::PlaintextU8(2),
            Argument::PlaintextU8(2),
        ]
    );
    let (hand, bust) = circuits::player_hit(&dealt.deck, &dealt.player_hand, 2, 2);
    assert!(!bust);
    assert_eq!(calculate_hand_value(&hand.to_array(), 3), 15);
    let ev = player_hit_callback(
        &mut game,
        101,
        ComputationOutputs::Success(PlayerHitOutput { player_hand: shared(hand.cards, 31), is_bust: bust }),
    )
    .unwrap();
    assert!(matches!(ev, GameEvent::PlayerHit(_)));
    assert_eq!(game.game_state, BlackjackGameState::PlayerTurn);
    assert_eq!(game.player_hand_size, 3);
    assert_eq!(game.client_nonce, 31);

    player_stand(&mut game, GAME_KEY, 102).unwrap();
    let bust = circuits::player_stand(&hand, 3);
    assert!(!bust);
    let ev = player_stand_callback(
        &mut game,
        102,
        ComputationOutputs::Success(PlayerStandOutput { is_bust: bust }),
    )
    .unwrap();
    assert!(matches!(ev, GameEvent::PlayerStand(_)));
    assert_eq!(game.game_state, BlackjackGameState::DealerTurn);
    assert!(game.player_has_stood);

    dealer_play(&mut game, GAME_KEY, 103, 77).unwrap();
    let (dealer_hand, size) = circuits::dealer_play(&dealt.deck, &dealt.dealer_hand, 3, 2);
    assert_eq!(size, 3);
    assert_eq!(calculate_hand_value(&dealer_hand.to_array(), size), 18);
    let ev = dealer_play_callback(
        &mut game,
        103,
        ComputationOutputs::Success(DealerPlayOutput {
            dealer_hand: MxeEncrypted { nonce: 41, ciphertext: seal(dealer_hand.cards, 5) },
            dealer_client_hand: shared(dealer_hand.cards, 77),
            dealer_hand_size: size,
        }),
    )
    .unwrap();
    assert!(matches!(ev, GameEvent::DealerPlay(e) if e.dealer_hand_size == 3 && e.client_nonce == 77));
    assert_eq!(game.game_state, BlackjackGameState::Resolving);
    assert_eq!(game.dealer_hand_size, 3);

    resolve_game(&mut game, GAME_KEY, 104).unwrap();
    let code = circuits::resolve_game(&hand, &dealer_hand, 3, 3);
    assert_eq!(code, 3);
    let (ev, payout) = resolve_game_callback(
        &mut game,
        104,
        ComputationOutputs::Success(ResolveGameOutput { result: code }),
        RTP_BPS,
    )
    .unwrap();
    assert!(matches!(ev, GameEvent::BlackjackResult(e) if e.result_code == 3 && e.game_id == 42));
    assert_eq!(payout, 0);
    assert_eq!(game.game_state, BlackjackGameState::Resolved);
    assert_eq!(game.game_result, 3);
}

#[test]
fn scenario_double_down_bust_goes_to_dealer() {
    // Player: 10, 3 and draws a 10 (card 23) for 23.
    let deck = deck_starting_with(&[10, 1, 3, 2, 23, 4]);
    let (mut game, dealt) = dealt_game(1000, deck);
    player_double_down(&mut game, GAME_KEY, 101).unwrap();
    let (hand, bust) = circuits::player_double_down(&dealt.deck, &dealt.player_hand, 2, 2);
    assert!(!bust);
    assert_eq!(calculate_hand_value(&hand.to_array(), 3), 23);
    let ev = player_double_down_callback(
        &mut game,
        101,
        ComputationOutputs::Success(PlayerDoubleDownOutput {
            player_hand: shared(hand.cards, 31),
            is_bust: bust,
        }),
    )
    .unwrap();
    assert!(matches!(ev, GameEvent::PlayerDoubleDown(_)));
    assert!(game.player_has_stood);
    assert_eq!(game.game_state, BlackjackGameState::DealerTurn);
    assert_eq!(game.player_hand_size, 3);

    dealer_play(&mut game, GAME_KEY, 102, 78).unwrap();
    let (dealer_hand, size) = circuits::dealer_play(&dealt.deck, &dealt.dealer_hand, 3, 2);
    dealer_play_callback(
        &mut game,
        102,
        ComputationOutputs::Success(DealerPlayOutput {
            dealer_hand: MxeEncrypted { nonce: 41, ciphertext: seal(dealer_hand.cards, 5) },
            dealer_client_hand: shared(dealer_hand.cards, 78),
            dealer_hand_size: size,
        }),
    )
    .unwrap();
    resolve_game(&mut game, GAME_KEY, 103).unwrap();
    let code = circuits::resolve_game(&hand, &dealer_hand, 3, size);
    assert_eq!(code, 0);
    let (_, payout) = resolve_game_callback(
        &mut game,
        103,
        ComputationOutputs::Success(ResolveGameOutput { result: code }),
        RTP_BPS,
    )
    .unwrap();
    assert_eq!(payout, 0);
}

#[test]
fn double_down_reported_bust_still_goes_to_dealer() {
    let (mut game, _) = dealt_game(1000, deck_starting_with(&[10, 1, 3, 2]));
    player_double_down(&mut game, GAME_KEY, 101).unwrap();
    let ev = player_double_down_callback(
        &mut game,
        101,
        ComputationOutputs::Success(PlayerDoubleDownOutput { player_hand: shared(9, 31), is_bust: true }),
    )
    .unwrap();
    assert!(matches!(ev, GameEvent::PlayerBust(e) if e.client_nonce == 31));
    assert!(game.player_has_stood);
    assert_eq!(game.game_state, BlackjackGameState::DealerTurn);
    assert_eq!(game.player_hand_size, 2);
}

#[test]
fn hit_reported_bust_goes_to_dealer_without_growing() {
    let (mut game, _) = dealt_game(1000, deck_starting_with(&[10, 1, 3, 2]));
    player_hit(&mut game, GAME_KEY, 101).unwrap();
    let ev = player_hit_callback(
        &mut game,
        101,
        ComputationOutputs::Success(PlayerHitOutput { player_hand: shared(9, 31), is_bust: true }),
    )
    .unwrap();
    assert!(matches!(ev, GameEvent::PlayerBust(_)));
    assert_eq!(game.game_state, BlackjackGameState::DealerTurn);
    assert_eq!(game.player_hand_size, 2);
    assert!(!game.player_has_stood);
}

#[test]
fn stand_while_bust_stays_on_player_turn() {
    let (mut game, _) = dealt_game(1000, deck_starting_with(&[10, 1, 3, 2]));
    player_stand(&mut game, GAME_KEY, 101).unwrap();
    let ev = player_stand_callback(
        &mut game,
        101,
        ComputationOutputs::Success(PlayerStandOutput { is_bust: true }),
    )
    .unwrap();
    assert!(matches!(ev, GameEvent::PlayerBust(_)));
    assert_eq!(game.game_state, BlackjackGameState::PlayerTurn);
    assert!(game.player_has_stood);
    assert_eq!(player_hit(&mut game, GAME_KEY, 102).err(), Some(CasinoError::InvalidMove));
}

#[test]
fn request_in_wrong_state_is_refused() {
    let mut game = new_game(1000);
    let before = game;
    assert_eq!(player_hit(&mut game, GAME_KEY, 1).err(), Some(CasinoError::InvalidGameState));
    assert_eq!(player_stand(&mut game, GAME_KEY, 1).err(), Some(CasinoError::InvalidGameState));
    assert_eq!(dealer_play(&mut game, GAME_KEY, 1, 0).err(), Some(CasinoError::InvalidGameState));
    assert_eq!(resolve_game(&mut game, GAME_KEY, 1).err(), Some(CasinoError::InvalidGameState));
    assert_eq!(game, before);
}

#[test]
fn second_request_while_pending_is_refused() {
    let (mut game, _) = dealt_game(1000, deck_starting_with(&[10, 1, 3, 2]));
    player_hit(&mut game, GAME_KEY, 101).unwrap();
    let before = game;
    assert_eq!(player_hit(&mut game, GAME_KEY, 102).err(), Some(CasinoError::ComputationPending));
    assert_eq!(
        player_double_down(&mut game, GAME_KEY, 102).err(),
        Some(CasinoError::ComputationPending)
    );
    assert_eq!(player_stand(&mut game, GAME_KEY, 102).err(), Some(CasinoError::ComputationPending));
    assert_eq!(game, before);
}

#[test]
fn full_hand_refuses_hit() {
    let (mut game, _) = dealt_game(1000, deck_starting_with(&[1, 2, 14, 3]));
    for k in 0..9u64 {
        player_hit(&mut game, GAME_KEY, 200 + k).unwrap();
        player_hit_callback(
            &mut game,
            200 + k,
            ComputationOutputs::Success(PlayerHitOutput { player_hand: shared(k as u128, 1), is_bust: false }),
        )
        .unwrap();
    }
    assert_eq!(game.player_hand_size, 11);
    assert_eq!(player_hit(&mut game, GAME_KEY, 300).err(), Some(CasinoError::InvalidMove));
    assert_eq!(player_double_down(&mut game, GAME_KEY, 300).err(), Some(CasinoError::InvalidMove));
    assert!(player_stand(&mut game, GAME_KEY, 300).is_ok());
}

#[test]
fn aborted_settlement_changes_nothing_twice() {
    let (mut game, _) = dealt_game(1000, deck_starting_with(&[10, 1, 3, 2]));
    player_hit(&mut game, GAME_KEY, 101).unwrap();
    let before = game;
    assert_eq!(
        player_hit_callback(&mut game, 101, ComputationOutputs::Aborted).err(),
        Some(CasinoError::AbortedComputation)
    );
    assert_eq!(game, before);
    assert_eq!(
        player_hit_callback(&mut game, 101, ComputationOutputs::Aborted).err(),
        Some(CasinoError::AbortedComputation)
    );
    assert_eq!(game, before);
}

#[test]
fn replayed_settlement_is_refused() {
    let (mut game, _) = dealt_game(1000, deck_starting_with(&[10, 1, 3, 2]));
    player_hit(&mut game, GAME_KEY, 101).unwrap();
    let out = PlayerHitOutput { player_hand: shared(5, 31), is_bust: false };
    player_hit_callback(&mut game, 101, ComputationOutputs::Success(out)).unwrap();
    let after_first = game;
    assert_eq!(
        player_hit_callback(&mut game, 101, ComputationOutputs::Success(out)).err(),
        Some(CasinoError::UnexpectedSettlement)
    );
    assert_eq!(game, after_first);
    assert_eq!(game.player_hand_size, 3);
}

#[test]
fn settlement_with_other_handle_or_step_is_refused() {
    let (mut game, _) = dealt_game(1000, deck_starting_with(&[10, 1, 3, 2]));
    player_hit(&mut game, GAME_KEY, 101).unwrap();
    let before = game;
    let out = PlayerHitOutput { player_hand: shared(5, 31), is_bust: false };
    assert_eq!(
        player_hit_callback(&mut game, 999, ComputationOutputs::Success(out)).err(),
        Some(CasinoError::UnexpectedSettlement)
    );
    assert_eq!(
        player_stand_callback(&mut game, 101, ComputationOutputs::Success(PlayerStandOutput { is_bust: false }))
            .err(),
        Some(CasinoError::UnexpectedSettlement)
    );
    assert_eq!(
        settle(&mut game, Step::Hit, 101, ComputationOutputs::Success(StepOutput::Stand(PlayerStandOutput { is_bust: false })))
            .err(),
        Some(CasinoError::UnexpectedSettlement)
    );
    assert_eq!(game, before);
}

#[test]
fn deal_with_foreign_face_up_key_is_refused() {
    let mut game = new_game(1000);
    let before = game;
    let dealt = circuits::shuffle_and_deal_cards(deck_starting_with(&[0, 10, 9, 6]));
    let mut out = deal_output(&dealt);
    out.dealer_face_up_card.encryption_key = [9u8; 32];
    assert_eq!(
        shuffle_and_deal_cards_callback(&mut game, 100, ComputationOutputs::Success(out)).err(),
        Some(CasinoError::InvalidDealerClientPubkey)
    );
    assert_eq!(game, before);
    let mut out = deal_output(&dealt);
    out.player_hand.encryption_key = [9u8; 32];
    assert_eq!(
        shuffle_and_deal_cards_callback(&mut game, 100, ComputationOutputs::Success(out)).err(),
        Some(CasinoError::InvalidDealerClientPubkey)
    );
    assert_eq!(game, before);
}

#[test]
fn dealer_size_out_of_range_is_refused() {
    let (mut game, _) = dealt_game(1000, deck_starting_with(&[10, 1, 3, 2]));
    player_stand(&mut game, GAME_KEY, 101).unwrap();
    player_stand_callback(&mut game, 101, ComputationOutputs::Success(PlayerStandOutput { is_bust: false }))
        .unwrap();
    dealer_play(&mut game, GAME_KEY, 102, 5).unwrap();
    let before = game;
    let out = DealerPlayOutput {
        dealer_hand: MxeEncrypted { nonce: 1, ciphertext: [0u8; 32] },
        dealer_client_hand: shared(0, 5),
        dealer_hand_size: 10,
    };
    assert_eq!(
        dealer_play_callback(&mut game, 102, ComputationOutputs::Success(out)).err(),
        Some(CasinoError::InvalidSettlementPayload)
    );
    assert_eq!(game, before);
}

#[test]
fn win_pays_stake_less_house_edge() {
    let (mut game, _) = dealt_game(1000, deck_starting_with(&[10, 1, 9, 2]));
    player_stand(&mut game, GAME_KEY, 101).unwrap();
    player_stand_callback(&mut game, 101, ComputationOutputs::Success(PlayerStandOutput { is_bust: false }))
        .unwrap();
    dealer_play(&mut game, GAME_KEY, 102, 5).unwrap();
    dealer_play_callback(
        &mut game,
        102,
        ComputationOutputs::Success(DealerPlayOutput {
            dealer_hand: MxeEncrypted { nonce: 1, ciphertext: [0u8; 32] },
            dealer_client_hand: shared(0, 5),
            dealer_hand_size: 4,
        }),
    )
    .unwrap();
    resolve_game(&mut game, GAME_KEY, 103).unwrap();
    let (_, payout) = resolve_game_callback(
        &mut game,
        103,
        ComputationOutputs::Success(ResolveGameOutput { result: 2 }),
        RTP_BPS,
    )
    .unwrap();
    assert_eq!(payout, 995);
    assert_eq!(resolve_game(&mut game, GAME_KEY, 104).err(), Some(CasinoError::InvalidGameState));
    let resolved = game;
    assert_eq!(
        resolve_game_callback(&mut game, 103, ComputationOutputs::Success(ResolveGameOutput { result: 0 }), RTP_BPS)
            .err(),
        Some(CasinoError::UnexpectedSettlement)
    );
    assert_eq!(game, resolved);
}

#[test]
fn draws_never_reuse_a_position() {
    let deck = deck_starting_with(&[1, 2, 14, 3, 27, 40, 4, 15, 16, 5]);
    let (_, dealt) = dealt_game(1000, deck);
    let (h1, b1) = circuits::player_hit(&dealt.deck, &dealt.player_hand, 2, 2);
    assert!(!b1);
    let (h2, b2) = circuits::player_hit(&dealt.deck, &h1, 3, 2);
    assert!(!b2);
    assert_eq!(h2.to_array(), hand_of(&[1, 14, 27, 40]));
    let (dh, size) = circuits::dealer_play(&dealt.deck, &dealt.dealer_hand, 4, 2);
    assert_eq!(dh.to_array()[2], deck[6]);
    let mut used: Vec<u8> = h2.to_array()[..4].to_vec();
    used.extend_from_slice(&dh.to_array()[..size as usize]);
    let mut sorted = used.clone();
    sorted.sort();
    sorted.dedup();
    assert_eq!(sorted.len(), used.len());
}

#[test]
fn stored_session_consistency_check() {
    let game = new_game(1000);
    assert!(game.is_well_formed());
    let (dealt, _) = dealt_game(1000, deck_starting_with(&[10, 1, 3, 2]));
    assert!(dealt.is_well_formed());
    let mut broken = dealt;
    broken.dealer_hand_size = 0;
    assert!(!broken.is_well_formed());
    let mut broken = dealt;
    broken.game_state = BlackjackGameState::Initial;
    assert!(!broken.is_well_formed());
    let mut broken = dealt;
    broken.pending = Some(PendingComputation { step: Step::Resolve, computation_offset: 1 });
    assert!(!broken.is_well_formed());
    let mut broken = new_game(1000);
    broken.player_hand_size = 30;
    broken.dealer_hand_size = 30;
    assert!(!broken.is_well_formed());
}
