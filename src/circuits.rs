//! The operations the confidential computation service performs on plaintext
//! cards. The service shuffles the deck itself and keeps every card encrypted
//! outside these operations; here the shuffled deck is an argument.

use vstd::prelude::*;
use crate::codec::{Deck, Hand, EMPTY_CARD, all_digits, is_digit};
use crate::evaluator::{
    calculate_hand_value, hand_total, counted_slots, is_bust_total, BLACKJACK_VALUE,
    DEALER_STAND_VALUE,
};

verus! {

/// Outcome code: the player is bust.
pub const OUTCOME_PLAYER_BUST: u8 = 0;

/// Outcome code: the dealer is bust.
pub const OUTCOME_DEALER_BUST: u8 = 1;

/// Outcome code: the player's total is higher.
pub const OUTCOME_PLAYER_HIGHER: u8 = 2;

/// Outcome code: the dealer's total is higher.
pub const OUTCOME_DEALER_HIGHER: u8 = 3;

/// Outcome code: equal totals.
pub const OUTCOME_PUSH: u8 = 4;

/// Number of rounds in which the dealer may draw.
pub const DEALER_DRAW_ROUNDS: usize = 7;

/// Eleven slots holding `a` and `b` first, the rest empty.
pub open spec fn two_card_hand(a: u8, b: u8) -> Seq<u8> {
    seq![a, b].add(Seq::new(9, |_i: int| EMPTY_CARD))
}

/// The deck position drawn next when `p` and `d` cards sit in the player's and
/// the dealer's hands: every card dealt so far came from a lower position.
pub open spec fn draw_index(p: nat, d: nat) -> nat {
    p + d
}

/// Total of the first `n` cards of a hand.
pub open spec fn total_of(hand: Seq<u8>, n: nat) -> nat {
    hand_total(hand, counted_slots(n))
}

/// The dealer's hand and its size after `rounds` rounds, each of which draws
/// the card at the cursor while the dealer's total is below 17.
pub open spec fn dealer_draws(deck: Seq<u8>, hand: Seq<u8>, p: nat, size: nat, rounds: nat) -> (
    Seq<u8>,
    nat,
)
    decreases rounds,
{
    if rounds == 0 {
        (hand, size)
    } else if total_of(hand, size) < DEALER_STAND_VALUE {
        dealer_draws(
            deck,
            hand.update(size as int, deck[draw_index(p, size) as int]),
            p,
            size + 1,
            (rounds - 1) as nat,
        )
    } else {
        dealer_draws(deck, hand, p, size, (rounds - 1) as nat)
    }
}

/// Outcome code of totals `pv` (player) and `dv` (dealer).
pub open spec fn outcome_code(pv: nat, dv: nat) -> u8 {
    if is_bust_total(pv) {
        OUTCOME_PLAYER_BUST
    } else if is_bust_total(dv) {
        OUTCOME_DEALER_BUST
    } else if pv > dv {
        OUTCOME_PLAYER_HIGHER
    } else if dv > pv {
        OUTCOME_DEALER_HIGHER
    } else {
        OUTCOME_PUSH
    }
}

/// What the deal step produces.
pub struct DealtCards {
    pub deck: Deck,
    pub dealer_hand: Hand,
    pub player_hand: Hand,
    /// The dealer's card shown to the player.
    pub dealer_face_up_card: u8,
}

/// Deals from a shuffled deck: positions 0 and 2 to the player, 1 and 3 to
/// the dealer, and shows position 1.
pub fn shuffle_and_deal_cards(shuffled: [u8; 52]) -> (r: DealtCards)
    requires
        all_digits(shuffled@),
    ensures
        r.deck@ == shuffled@,
        r.player_hand@ == two_card_hand(shuffled@[0], shuffled@[2]),
        r.dealer_hand@ == two_card_hand(shuffled@[1], shuffled@[3]),
        r.dealer_face_up_card == shuffled@[1],
{
    let deck = Deck::from_array(shuffled);
    let mut dealer_cards = [EMPTY_CARD; 11];
    dealer_cards[0] = shuffled[1];
    dealer_cards[1] = shuffled[3];
    let mut player_cards = [EMPTY_CARD; 11];
    player_cards[0] = shuffled[0];
    player_cards[1] = shuffled[2];
    proof {
        assert(dealer_cards@ =~= two_card_hand(shuffled@[1], shuffled@[3]));
        assert(player_cards@ =~= two_card_hand(shuffled@[0], shuffled@[2]));
    }
    let dealer_hand = Hand::from_array(dealer_cards);
    let player_hand = Hand::from_array(player_cards);
    DealtCards { deck, dealer_hand, player_hand, dealer_face_up_card: shuffled[1] }
}

/// Puts the next card in the player's slot `player_hand_size`, or the empty
/// marker when the hand is already bust.
fn draw_for_player(
    deck: &Deck,
    player_hand: &Hand,
    player_hand_size: u8,
    dealer_hand_size: u8,
) -> (r: (Hand, bool))
    requires
        player_hand_size < 11,
        player_hand_size + dealer_hand_size < 52,
    ensures
        r.1 == is_bust_total(total_of(player_hand@, player_hand_size as nat)),
        r.0@ == player_hand@.update(
            player_hand_size as int,
            if r.1 {
                EMPTY_CARD
            } else {
                deck@[draw_index(player_hand_size as nat, dealer_hand_size as nat) as int]
            },
        ),
{
    let deck_array = deck.to_array();
    let mut hand = player_hand.to_array();
    proof {
        deck.lemma_view_digits();
        player_hand.lemma_view_digits();
    }
    let value = calculate_hand_value(&hand, player_hand_size);
    let is_bust = value > BLACKJACK_VALUE;
    let new_card = if !is_bust {
        deck_array[(player_hand_size + dealer_hand_size) as usize]
    } else {
        EMPTY_CARD
    };
    hand[player_hand_size as usize] = new_card;
    proof {
        assert(all_digits(hand@));
    }
    (Hand::from_array(hand), is_bust)
}

/// The hit step: draws the card at the cursor unless the hand is bust, and
/// tells whether it was.
pub fn player_hit(deck: &Deck, player_hand: &Hand, player_hand_size: u8, dealer_hand_size: u8) -> (r: (
    Hand,
    bool,
))
    requires
        player_hand_size < 11,
        player_hand_size + dealer_hand_size < 52,
    ensures
        r.1 == is_bust_total(total_of(player_hand@, player_hand_size as nat)),
        r.0@ == player_hand@.update(
            player_hand_size as int,
            if r.1 {
                EMPTY_CARD
            } else {
                deck@[draw_index(player_hand_size as nat, dealer_hand_size as nat) as int]
            },
        ),
{
    draw_for_player(deck, player_hand, player_hand_size, dealer_hand_size)
}

/// The double-down step: the same draw as a hit.
pub fn player_double_down(
    deck: &Deck,
    player_hand: &Hand,
    player_hand_size: u8,
    dealer_hand_size: u8,
) -> (r: (Hand, bool))
    requires
        player_hand_size < 11,
        player_hand_size + dealer_hand_size < 52,
    ensures
        r.1 == is_bust_total(total_of(player_hand@, player_hand_size as nat)),
        r.0@ == player_hand@.update(
            player_hand_size as int,
            if r.1 {
                EMPTY_CARD
            } else {
                deck@[draw_index(player_hand_size as nat, dealer_hand_size as nat) as int]
            },
        ),
{
    draw_for_player(deck, player_hand, player_hand_size, dealer_hand_size)
}

/// The stand step: whether the player's hand is bust.
pub fn player_stand(player_hand: &Hand, player_hand_size: u8) -> (r: bool)
    ensures
        r == is_bust_total(total_of(player_hand@, player_hand_size as nat)),
{
    let hand = player_hand.to_array();
    let value = calculate_hand_value(&hand, player_hand_size);
    value > BLACKJACK_VALUE
}


/// What the dealer's rounds do to the hand: its first `size` slots stay, each
/// new card comes from the cursor, and the slots past the new size stay.
pub proof fn lemma_dealer_draws_from_cursor(
    deck: Seq<u8>,
    hand: Seq<u8>,
    p: nat,
    size: nat,
    rounds: nat,
)
    requires
        size + rounds <= hand.len(),
        p + size + rounds <= deck.len(),
    ensures
        ({
            let (h, s) = dealer_draws(deck, hand, p, size, rounds);
            &&& size <= s <= size + rounds
            &&& h.len() == hand.len()
            &&& forall|j: int| 0 <= j < size ==> #[trigger] h[j] == hand[j]
            &&& forall|j: int| size <= j < s ==> #[trigger] h[j] == deck[draw_index(p, j as nat) as int]
            &&& forall|j: int| s <= j < hand.len() ==> #[trigger] h[j] == hand[j]
        }),
    decreases rounds,
{
    if rounds > 0 {
        if total_of(hand, size) < DEALER_STAND_VALUE {
            let next = hand.update(size as int, deck[draw_index(p, size) as int]);
            lemma_dealer_draws_from_cursor(deck, next, p, size + 1, (rounds - 1) as nat);
        } else {
            lemma_dealer_draws_from_cursor(deck, hand, p, size, (rounds - 1) as nat);
        }
    }
}

/// The dealer's play: seven rounds, each drawing the card at the cursor while
/// the dealer's total is below 17. Gives the new hand and its size.
pub fn dealer_play(deck: &Deck, dealer_hand: &Hand, player_hand_size: u8, dealer_hand_size: u8) -> (r: (
    Hand,
    u8,
))
    requires
        dealer_hand_size + DEALER_DRAW_ROUNDS <= 11,
        player_hand_size + dealer_hand_size + DEALER_DRAW_ROUNDS <= 52,
    ensures
        (r.0@, r.1 as nat) == dealer_draws(
            deck@,
            dealer_hand@,
            player_hand_size as nat,
            dealer_hand_size as nat,
            DEALER_DRAW_ROUNDS as nat,
        ),
        dealer_hand_size <= r.1 <= dealer_hand_size + DEALER_DRAW_ROUNDS,
{
    let deck_array = deck.to_array();
    let mut dealer = dealer_hand.to_array();
    proof {
        deck.lemma_view_digits();
        dealer_hand.lemma_view_digits();
        lemma_dealer_draws_from_cursor(
            deck@,
            dealer_hand@,
            player_hand_size as nat,
            dealer_hand_size as nat,
            DEALER_DRAW_ROUNDS as nat,
        );
    }
    let ghost goal = dealer_draws(
        deck@,
        dealer_hand@,
        player_hand_size as nat,
        dealer_hand_size as nat,
        DEALER_DRAW_ROUNDS as nat,
    );
    let mut size: usize = dealer_hand_size as usize;
    let mut i: usize = 0;
    while i < DEALER_DRAW_ROUNDS
        invariant
            i <= DEALER_DRAW_ROUNDS,
            dealer_hand_size <= size <= dealer_hand_size + i,
            dealer_hand_size + DEALER_DRAW_ROUNDS <= 11,
            player_hand_size + dealer_hand_size + DEALER_DRAW_ROUNDS <= 52,
            deck_array@ == deck@,
            all_digits(deck@),
            all_digits(dealer@),
            goal == dealer_draws(
                deck@,
                dealer@,
                player_hand_size as nat,
                size as nat,
                (DEALER_DRAW_ROUNDS - i) as nat,
            ),
        decreases DEALER_DRAW_ROUNDS - i,
    {
        let val = calculate_hand_value(&dealer, size as u8);
        if val < DEALER_STAND_VALUE {
            dealer[size] = deck_array[player_hand_size as usize + size];
            size += 1;
        }
        i += 1;
    }
    proof {
        assert(all_digits(dealer@));
    }
    (Hand::from_array(dealer), size as u8)
}

/// The resolve step: the outcome code of the two hands' totals.
pub fn resolve_game(
    player_hand: &Hand,
    dealer_hand: &Hand,
    player_hand_length: u8,
    dealer_hand_length: u8,
) -> (r: u8)
    ensures
        r == outcome_code(
            total_of(player_hand@, player_hand_length as nat),
            total_of(dealer_hand@, dealer_hand_length as nat),
        ),
{
    let player_cards = player_hand.to_array();
    let dealer_cards = dealer_hand.to_array();
    let player_value = calculate_hand_value(&player_cards, player_hand_length);
    let dealer_value = calculate_hand_value(&dealer_cards, dealer_hand_length);
    if player_value > BLACKJACK_VALUE {
        OUTCOME_PLAYER_BUST
    } else if dealer_value > BLACKJACK_VALUE {
        OUTCOME_DEALER_BUST
    } else if player_value > dealer_value {
        OUTCOME_PLAYER_HIGHER
    } else if dealer_value > player_value {
        OUTCOME_DEALER_HIGHER
    } else {
        OUTCOME_PUSH
    }
}


/// Whose hand a draw goes to.
pub enum DrawStep {
    Player,
    Dealer,
}

/// The deck positions read by a run of draws that starts with `p` cards in
/// the player's hand and `d` in the dealer's: each draw reads the position at
/// the cursor and grows the hand it goes to by one.
pub open spec fn drawn_positions(p: nat, d: nat, steps: Seq<DrawStep>) -> Seq<nat>
    decreases steps.len(),
{
    if steps.len() == 0 {
        Seq::empty()
    } else {
        let rest = steps.drop_first();
        seq![draw_index(p, d)].add(
            match steps[0] {
                DrawStep::Player => drawn_positions(p + 1, d, rest),
                DrawStep::Dealer => drawn_positions(p, d + 1, rest),
            },
        )
    }
}

/// Whatever the order of player and dealer draws, the positions they read
/// strictly increase, so no position is read twice and none is one of the
/// `p + d` cards dealt before.
pub proof fn lemma_draws_strictly_increase(p: nat, d: nat, steps: Seq<DrawStep>)
    ensures
        drawn_positions(p, d, steps).len() == steps.len(),
        forall|i: int|
            0 <= i < steps.len() ==> #[trigger] drawn_positions(p, d, steps)[i] >= p + d + i,
        forall|i: int, j: int|
            0 <= i < j < steps.len() ==> #[trigger] drawn_positions(p, d, steps)[i]
                < #[trigger] drawn_positions(p, d, steps)[j],
        forall|i: int, j: int|
            0 <= i < steps.len() && 0 <= j < steps.len() && i != j ==> #[trigger] drawn_positions(
                p,
                d,
                steps,
            )[i] != #[trigger] drawn_positions(p, d, steps)[j],
    decreases steps.len(),
{
    if steps.len() > 0 {
        let rest = steps.drop_first();
        let (np, nd) = match steps[0] {
            DrawStep::Player => (p + 1, d),
            DrawStep::Dealer => (p, d + 1),
        };
        lemma_draws_strictly_increase(np, nd, rest);
        let all = drawn_positions(p, d, steps);
        let tail = drawn_positions(np, nd, rest);
        assert(all == seq![draw_index(p, d)].add(tail));
        assert forall|i: int| 0 <= i < steps.len() implies #[trigger] all[i] >= p + d + i by {
            if i > 0 {
                assert(all[i] == tail[i - 1]);
            }
        }
        assert forall|i: int, j: int| 0 <= i < j < steps.len() implies #[trigger] all[i]
            < #[trigger] all[j] by {
            assert(all[j] == tail[j - 1]);
            if i > 0 {
                assert(all[i] == tail[i - 1]);
            }
        }
    }
}

} // verus!
