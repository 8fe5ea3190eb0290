use casino_blackjack::circuits::{
    dealer_play, player_double_down, player_hit, player_stand, resolve_game,
    shuffle_and_deal_cards, OUTCOME_DEALER_BUST, OUTCOME_DEALER_HIGHER, OUTCOME_PLAYER_BUST,
    OUTCOME_PLAYER_HIGHER, OUTCOME_PUSH,
};
use casino_blackjack::codec::{Deck, Hand, EMPTY_CARD};
use casino_blackjack::evaluator::calculate_hand_value;
use casino_blackjack::payout::{apply_rtp, base_payout, final_payout};

fn hand_of(cards: &[u8]) -> [u8; 11] {
    let mut h = [EMPTY_CARD; 11];
    for (i, c) in cards.iter().enumerate() {
        h[i] = *c;
    }
    h
}

fn deck_starting_with(first: &[u8]) -> [u8; 52] {
    let mut d = [0u8; 52];
    let mut n = 0;
    for c in first {
        d[n] = *c;
        n += 1;
    }
    for c in 0u8..52 {
        if !first.contains(&c) {
            d[n] = c;
            n += 1;
        }
    }
    assert_eq!(n, 52);
    d
}

#[test]
fn deck_round_trip_identity_order() {
    let mut a = [0u8; 52];
    for i in 0..52 {
        a[i] = i as u8;
    }
    let d = Deck::from_array(a);
    assert_eq!(d.to_array(), a);
}

#[test]
fn deck_round_trip_reversed_with_sentinels() {
    let mut a = [0u8; 52];
    for i in 0..52 {
        a[i] = if i % 5 == 0 { EMPTY_CARD } else { 51 - i as u8 };
    }
    let d = Deck::from_array(a);
    assert_eq!(d.to_array(), a);
}

#[test]
fn deck_words_hold_base_64_digits() {
    let mut a = [0u8; 52];
    a[0] = 1;
    a[1] = 2;
    a[20] = 53;
    a[21] = 7;
    a[42] = 9;
    a[51] = 3;
    let d = Deck::from_array(a);
    assert_eq!(d.card_one, 1 + 2 * 64 + 53 * 64u128.pow(20));
    assert_eq!(d.card_two, 7);
    assert_eq!(d.card_three, 9 + 3 * 64u128.pow(9));
}

#[test]
fn deck_of_all_sentinels_round_trips() {
    let a = [EMPTY_CARD; 52];
    let d = Deck::from_array(a);
    assert_eq!(d.to_array(), a);
}

#[test]
fn hand_packs_to_exact_value() {
    let h = Hand::from_array(hand_of(&[1, 2]));
    let mut expected: u128 = 1 + 2 * 64;
    for i in 2..11 {
        expected += 53 * 64u128.pow(i);
    }
    assert_eq!(h.cards, expected);
    assert_eq!(h.to_array(), hand_of(&[1, 2]));
}

#[test]
fn hand_unpack_of_short_sequence_gives_sentinels() {
    let h = Hand { cards: 5 + 6 * 64 };
    let arr = h.to_array();
    assert_eq!(arr[0], 5);
    assert_eq!(arr[1], 6);
    for i in 2..11 {
        assert_eq!(arr[i], 0);
    }
    let h2 = Hand::from_array(hand_of(&[5, 6]));
    let arr2 = h2.to_array();
    for i in 2..11 {
        assert_eq!(arr2[i], EMPTY_CARD);
    }
}

#[test]
fn ace_nine_totals_twenty() {
    assert_eq!(calculate_hand_value(&hand_of(&[0, 9]), 2), 20);
}

#[test]
fn ace_ace_nine_totals_twenty_one() {
    assert_eq!(calculate_hand_value(&hand_of(&[0, 13, 9]), 3), 21);
}

#[test]
fn three_aces_subtract_ten_once() {
    assert_eq!(calculate_hand_value(&hand_of(&[0, 13, 26]), 3), 23);
}

#[test]
fn face_cards_count_ten() {
    assert_eq!(calculate_hand_value(&hand_of(&[11, 12, 25]), 2), 20);
    assert_eq!(calculate_hand_value(&hand_of(&[10, 24]), 2), 20);
}

#[test]
fn only_counted_slots_add_up() {
    let h = hand_of(&[10, 10, 10]);
    assert_eq!(calculate_hand_value(&h, 0), 0);
    assert_eq!(calculate_hand_value(&h, 2), 20);
    assert_eq!(calculate_hand_value(&h, 3), 30);
}

#[test]
fn length_above_eleven_counts_every_slot() {
    let h = [1u8; 11];
    assert_eq!(calculate_hand_value(&h, 11), 11);
    assert_eq!(calculate_hand_value(&h, 200), 11);
}

#[test]
fn deal_gives_alternate_cards() {
    let deck = deck_starting_with(&[0, 10, 9, 6]);
    let dealt = shuffle_and_deal_cards(deck);
    assert_eq!(dealt.player_hand.to_array(), hand_of(&[0, 9]));
    assert_eq!(dealt.dealer_hand.to_array(), hand_of(&[10, 6]));
    assert_eq!(dealt.dealer_face_up_card, 10);
    assert_eq!(dealt.deck.to_array(), deck);
}

#[test]
fn hit_draws_card_at_cursor() {
    let deck = Deck::from_array(deck_starting_with(&[0, 10, 9, 6, 5]));
    let hand = Hand::from_array(hand_of(&[0, 9]));
    let (new_hand, bust) = player_hit(&deck, &hand, 2, 2);
    assert!(!bust);
    assert_eq!(new_hand.to_array(), hand_of(&[0, 9, 5]));
    assert_eq!(calculate_hand_value(&new_hand.to_array(), 3), 15);
}

#[test]
fn hit_on_bust_hand_draws_nothing() {
    let deck = Deck::from_array(deck_starting_with(&[10, 1, 11, 2, 12]));
    let hand = Hand::from_array(hand_of(&[10, 11, 12]));
    let (new_hand, bust) = player_hit(&deck, &hand, 3, 2);
    assert!(bust);
    assert_eq!(new_hand.to_array(), hand_of(&[10, 11, 12]));
}

#[test]
fn double_down_draws_like_hit() {
    let deck = Deck::from_array(deck_starting_with(&[10, 1, 3, 2, 23]));
    let hand = Hand::from_array(hand_of(&[10, 3]));
    let (new_hand, bust) = player_double_down(&deck, &hand, 2, 2);
    assert!(!bust);
    assert_eq!(new_hand.to_array(), hand_of(&[10, 3, 23]));
    assert_eq!(calculate_hand_value(&new_hand.to_array(), 3), 23);
}

#[test]
fn stand_reports_bust() {
    assert!(!player_stand(&Hand::from_array(hand_of(&[0, 9])), 2));
    assert!(player_stand(&Hand::from_array(hand_of(&[10, 11, 12])), 3));
}

#[test]
fn dealer_draws_until_seventeen() {
    let deck = Deck::from_array(deck_starting_with(&[0, 10, 9, 6, 5, 2, 3]));
    let dealer = Hand::from_array(hand_of(&[10, 6]));
    let (hand, size) = dealer_play(&deck, &dealer, 3, 2);
    assert_eq!(size, 3);
    assert_eq!(hand.to_array(), hand_of(&[10, 6, 2]));
    assert_eq!(calculate_hand_value(&hand.to_array(), 3), 18);
}

#[test]
fn dealer_standing_hand_draws_nothing() {
    let deck = Deck::from_array(deck_starting_with(&[0, 10, 9, 7]));
    let dealer = Hand::from_array(hand_of(&[10, 7]));
    let (hand, size) = dealer_play(&deck, &dealer, 2, 2);
    assert_eq!(size, 2);
    assert_eq!(hand.to_array(), hand_of(&[10, 7]));
}

#[test]
fn dealer_with_low_cards_draws_several() {
    let deck = Deck::from_array(deck_starting_with(&[20, 1, 21, 14, 27, 40, 2, 15, 28]));
    let dealer = Hand::from_array(hand_of(&[1, 14]));
    let (hand, size) = dealer_play(&deck, &dealer, 2, 2);
    assert_eq!(size, 8);
    assert_eq!(hand.to_array(), hand_of(&[1, 14, 27, 40, 2, 15, 28, 0]));
    assert_eq!(calculate_hand_value(&hand.to_array(), 8), 21);
}

#[test]
fn resolve_gives_each_outcome_code() {
    let p = |c: &[u8]| Hand::from_array(hand_of(c));
    assert_eq!(resolve_game(&p(&[10, 11, 12]), &p(&[10, 11, 12]), 3, 3), OUTCOME_PLAYER_BUST);
    assert_eq!(resolve_game(&p(&[10, 9]), &p(&[10, 11, 12]), 2, 3), OUTCOME_DEALER_BUST);
    assert_eq!(resolve_game(&p(&[10, 9]), &p(&[10, 8]), 2, 2), OUTCOME_PLAYER_HIGHER);
    assert_eq!(resolve_game(&p(&[0, 9, 5]), &p(&[10, 6, 2]), 3, 3), OUTCOME_DEALER_HIGHER);
    assert_eq!(resolve_game(&p(&[10, 9]), &p(&[23, 9]), 2, 2), OUTCOME_PUSH);
}

#[test]
fn base_payout_by_outcome() {
    assert_eq!(base_payout(0, 1000), 0);
    assert_eq!(base_payout(1, 1000), 1000);
    assert_eq!(base_payout(2, 1000), 1000);
    assert_eq!(base_payout(3, 1000), 0);
    assert_eq!(base_payout(4, 1000), 1000);
    assert_eq!(base_payout(9, 1000), 1000);
}

#[test]
fn house_edge_scales_down() {
    assert_eq!(final_payout(1, 1000, 9950), 995);
    assert_eq!(final_payout(4, 10001, 9950), 9950);
    assert_eq!(final_payout(3, 1000, 9950), 0);
    assert_eq!(apply_rtp(1000, 10000), 1000);
}

#[test]
fn house_edge_result_is_capped() {
    assert_eq!(apply_rtp(u64::MAX, 65535), u64::MAX);
    assert_eq!(apply_rtp(u64::MAX, 9950), (u64::MAX as u128 * 9950 / 10000) as u64);
}
