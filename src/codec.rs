//! Fixed-width packing of card sequences: each card is a 6-bit digit, so a
//! sequence `c` packs to `c[0] + 64 * c[1] + 64^2 * c[2] + ...`.

use vstd::prelude::*;

verus! {

/// Card codes run over `0..52`; this code marks an empty slot.
pub const EMPTY_CARD: u8 = 53;

/// Number of card slots in a hand.
pub const HAND_SLOTS: usize = 11;

/// Digits held by each of the first two deck words.
pub const DECK_WORD_DIGITS: usize = 21;

/// Digits held by the last deck word.
pub const DECK_LAST_WORD_DIGITS: usize = 10;

/// A value that fits one 6-bit digit; every card code and the empty marker do.
pub open spec fn is_digit(v: u8) -> bool {
    v < 64
}

/// Every entry of `s` fits one digit.
pub open spec fn all_digits(s: Seq<u8>) -> bool {
    forall|i: int| 0 <= i < s.len() ==> is_digit(#[trigger] s[i])
}

/// `64^n`.
pub open spec fn pow64(n: nat) -> nat
    decreases n,
{
    if n == 0 {
        1
    } else {
        64 * pow64((n - 1) as nat)
    }
}

/// The number whose base-64 digits, least significant first, are `s`.
pub open spec fn pack_digits(s: Seq<u8>) -> nat
    decreases s.len(),
{
    if s.len() == 0 {
        0
    } else {
        s[0] as nat + 64 * pack_digits(s.drop_first())
    }
}

/// The lowest `k` base-64 digits of `v`, least significant first.
pub open spec fn unpack_digits(v: nat, k: nat) -> Seq<u8>
    decreases k,
{
    if k == 0 {
        Seq::empty()
    } else {
        seq![(v % 64) as u8].add(unpack_digits(v / 64, (k - 1) as nat))
    }
}

proof fn lemma_digit_step(a: int, p: int)
    requires
        0 <= a < 64,
        p >= 0,
    ensures
        (a + 64 * p) % 64 == a,
        (a + 64 * p) / 64 == p,
{
    assert((a + 64 * p) % 64 == a && (a + 64 * p) / 64 == p) by (nonlinear_arith)
        requires
            0 <= a < 64,
            p >= 0,
    ;
}

/// A packed sequence of digits is below `64^len`.
pub proof fn lemma_pack_bound(s: Seq<u8>)
    requires
        all_digits(s),
    ensures
        pack_digits(s) < pow64(s.len()),
    decreases s.len(),
{
    if s.len() > 0 {
        let rest = s.drop_first();
        assert(all_digits(rest)) by {
            assert forall|i: int| 0 <= i < rest.len() implies is_digit(#[trigger] rest[i]) by {
                assert(rest[i] == s[i + 1]);
            }
        }
        lemma_pack_bound(rest);
        let p = pack_digits(rest) as int;
        let q = pow64(rest.len()) as int;
        assert(s[0] < 64) by {
            assert(is_digit(s[0]));
        }
        assert(s[0] as int + 64 * p < 64 * q) by (nonlinear_arith)
            requires
                0 <= (s[0] as int) < 64,
                p < q,
        ;
    }
}

/// Unpacking a packed sequence of digits gives the sequence back: this holds
/// of every deck or hand of card codes `0..=53`.
pub proof fn lemma_unpack_pack(s: Seq<u8>)
    requires
        all_digits(s),
    ensures
        unpack_digits(pack_digits(s), s.len()) == s,
    decreases s.len(),
{
    if s.len() > 0 {
        let rest = s.drop_first();
        assert(all_digits(rest)) by {
            assert forall|i: int| 0 <= i < rest.len() implies is_digit(#[trigger] rest[i]) by {
                assert(rest[i] == s[i + 1]);
            }
        }
        lemma_unpack_pack(rest);
        assert(is_digit(s[0]));
        lemma_digit_step(s[0] as int, pack_digits(rest) as int);
        assert(unpack_digits(pack_digits(s), s.len()) =~= s);
    }
}


proof fn lemma_pow64_le_max(n: nat)
    requires
        n <= 20,
    ensures
        pow64(n) <= pow64(20),
        pow64(20) == 0x100_0000_0000_0000_0000_0000_0000_0000,
    decreases 20 - n,
{
    reveal_with_fuel(pow64, 21);
    if n < 20 {
        lemma_pow64_le_max(n + 1);
    }
}

proof fn lemma_shift_is_div(v: u128)
    ensures
        v >> 6u128 == v / 64,
{
    assert(v >> 6u128 == v / 64) by (bit_vector);
}

/// Packs `count` entries of `cards` starting at `start` into one word.
fn pack_word<const N: usize>(cards: &[u8; N], start: usize, count: usize) -> (r: u128)
    requires
        start + count <= N,
        count <= 21,
        all_digits(cards@.subrange(start as int, (start + count) as int)),
    ensures
        r as nat == pack_digits(cards@.subrange(start as int, (start + count) as int)),
{
    let ghost whole = cards@.subrange(start as int, (start + count) as int);
    let mut acc: u128 = 0;
    let mut i: usize = count;
    while i > 0
        invariant
            i <= count,
            start + count <= N,
            count <= 21,
            whole == cards@.subrange(start as int, (start + count) as int),
            all_digits(whole),
            acc as nat == pack_digits(whole.subrange(i as int, count as int)),
        decreases i,
    {
        i -= 1;
        let ghost tail = whole.subrange(i as int, count as int);
        proof {
            assert(tail.drop_first() =~= whole.subrange(i + 1, count as int));
            assert(tail[0] == cards@[start + i]);
            assert(all_digits(tail.drop_first())) by {
                assert forall|j: int| 0 <= j < tail.drop_first().len() implies is_digit(
                    #[trigger] tail.drop_first()[j],
                ) by {
                    assert(tail.drop_first()[j] == whole[i + 1 + j]);
                }
            }
            lemma_pack_bound(tail.drop_first());
            lemma_pow64_le_max((count - i - 1) as nat);
            assert(tail.drop_first().len() == count - i - 1);
            assert(acc < 0x100_0000_0000_0000_0000_0000_0000_0000);
        }
        acc = cards[start + i] as u128 + 64 * acc;
    }
    proof {
        assert(whole.subrange(0, count as int) =~= whole);
    }
    acc
}

/// Writes the lowest `count` base-64 digits of `value` into `out`, from index
/// `start` on, least significant first, by repeated `% 64` and `>> 6`.
fn unpack_word<const N: usize>(value: u128, out: &mut [u8; N], start: usize, count: usize)
    requires
        start + count <= N,
    ensures
        final(out)@.len() == N,
        final(out)@.subrange(start as int, (start + count) as int) == unpack_digits(
            value as nat,
            count as nat,
        ),
        forall|j: int|
            0 <= j < N && !(start <= j < start + count) ==> #[trigger] final(out)@[j] == old(
                out,
            )@[j],
{
    let ghost whole = unpack_digits(value as nat, count as nat);
    let mut v: u128 = value;
    let mut i: usize = 0;
    while i < count
        invariant
            i <= count,
            start + count <= N,
            out@.len() == N,
            whole == unpack_digits(value as nat, count as nat),
            whole == out@.subrange(start as int, (start + i) as int).add(
                unpack_digits(v as nat, (count - i) as nat),
            ),
            forall|j: int|
                0 <= j < N && !(start <= j < start + i) ==> #[trigger] out@[j] == old(out)@[j],
        decreases count - i,
    {
        let ghost before = out@;
        out[start + i] = (v % 64) as u8;
        proof {
            lemma_shift_is_div(v);
            assert(out@.subrange(start as int, (start + i + 1) as int) =~= before.subrange(
                start as int,
                (start + i) as int,
            ).push((v % 64) as u8));
            assert(unpack_digits(v as nat, (count - i) as nat) =~= seq![(v % 64) as u8].add(
                unpack_digits((v / 64) as nat, (count - i - 1) as nat),
            ));
            assert(whole =~= out@.subrange(start as int, (start + i + 1) as int).add(
                unpack_digits((v / 64) as nat, (count - i - 1) as nat),
            ));
        }
        v = v >> 6;
        i += 1;
    }
    proof {
        assert(whole =~= out@.subrange(start as int, (start + count) as int));
    }
}


/// Unpacking gives `k` digits.
pub proof fn lemma_unpack_digits(v: nat, k: nat)
    ensures
        unpack_digits(v, k).len() == k,
        all_digits(unpack_digits(v, k)),
    decreases k,
{
    if k > 0 {
        lemma_unpack_digits(v / 64, (k - 1) as nat);
        let s = unpack_digits(v, k);
        assert forall|i: int| 0 <= i < s.len() implies is_digit(#[trigger] s[i]) by {
            if i > 0 {
                assert(s[i] == unpack_digits(v / 64, (k - 1) as nat)[i - 1]);
            }
        }
    }
}

/// A full deck packed into three words: cards `0..21`, `21..42` and `42..52`.
pub struct Deck {
    pub card_one: u128,
    pub card_two: u128,
    pub card_three: u128,
}

impl View for Deck {
    type V = Seq<u8>;

    /// The 52 digits the three words hold.
    open spec fn view(&self) -> Seq<u8> {
        unpack_digits(self.card_one as nat, 21).add(unpack_digits(self.card_two as nat, 21)).add(
            unpack_digits(self.card_three as nat, 10),
        )
    }
}

impl Deck {
    /// A deck holds 52 digits.
    pub proof fn lemma_view_digits(&self)
        ensures
            self@.len() == 52,
            all_digits(self@),
    {
        lemma_unpack_digits(self.card_one as nat, 21);
        lemma_unpack_digits(self.card_two as nat, 21);
        lemma_unpack_digits(self.card_three as nat, 10);
        let s = self@;
        assert forall|i: int| 0 <= i < s.len() implies is_digit(#[trigger] s[i]) by {
            if i < 21 {
                assert(s[i] == unpack_digits(self.card_one as nat, 21)[i]);
            } else if i < 42 {
                assert(s[i] == unpack_digits(self.card_two as nat, 21)[i - 21]);
            } else {
                assert(s[i] == unpack_digits(self.card_three as nat, 10)[i - 42]);
            }
        }
    }

    /// Packs 52 digits; unpacking the result gives them back.
    pub fn from_array(array: [u8; 52]) -> (r: Deck)
        requires
            all_digits(array@),
        ensures
            r.card_one as nat == pack_digits(array@.subrange(0, 21)),
            r.card_two as nat == pack_digits(array@.subrange(21, 42)),
            r.card_three as nat == pack_digits(array@.subrange(42, 52)),
            r@ == array@,
    {
        proof {
            assert forall|a: int, b: int| 0 <= a <= b <= 52 implies all_digits(
                #[trigger] array@.subrange(a, b),
            ) by {
                assert forall|j: int| 0 <= j < b - a implies is_digit(
                    #[trigger] array@.subrange(a, b)[j],
                ) by {
                    assert(array@.subrange(a, b)[j] == array@[a + j]);
                }
            }
        }
        let card_one = pack_word(&array, 0, DECK_WORD_DIGITS);
        let card_two = pack_word(&array, 21, DECK_WORD_DIGITS);
        let card_three = pack_word(&array, 42, DECK_LAST_WORD_DIGITS);
        let r = Deck { card_one, card_two, card_three };
        proof {
            lemma_unpack_pack(array@.subrange(0, 21));
            lemma_unpack_pack(array@.subrange(21, 42));
            lemma_unpack_pack(array@.subrange(42, 52));
            assert(r@ =~= array@);
        }
        r
    }

    /// The 52 digits this deck holds.
    pub fn to_array(&self) -> (r: [u8; 52])
        ensures
            r@ == self@,
    {
        let mut bytes = [0u8; 52];
        unpack_word(self.card_one, &mut bytes, 0, DECK_WORD_DIGITS);
        unpack_word(self.card_two, &mut bytes, 21, DECK_WORD_DIGITS);
        unpack_word(self.card_three, &mut bytes, 42, DECK_LAST_WORD_DIGITS);
        proof {
            assert(bytes@ =~= bytes@.subrange(0, 21).add(bytes@.subrange(21, 42)).add(
                bytes@.subrange(42, 52),
            ));
        }
        bytes
    }
}

/// A hand of eleven slots packed into one word.
pub struct Hand {
    pub cards: u128,
}

impl View for Hand {
    type V = Seq<u8>;

    /// The 11 digits the word holds.
    open spec fn view(&self) -> Seq<u8> {
        unpack_digits(self.cards as nat, 11)
    }
}

impl Hand {
    /// A hand holds 11 digits.
    pub proof fn lemma_view_digits(&self)
        ensures
            self@.len() == 11,
            all_digits(self@),
    {
        lemma_unpack_digits(self.cards as nat, 11);
    }

    /// Packs 11 digits; unpacking the result gives them back.
    pub fn from_array(array: [u8; 11]) -> (r: Hand)
        requires
            all_digits(array@),
        ensures
            r.cards as nat == pack_digits(array@),
            r@ == array@,
    {
        proof {
            assert(array@.subrange(0, 11) =~= array@);
        }
        let cards = pack_word(&array, 0, HAND_SLOTS);
        proof {
            lemma_unpack_pack(array@);
        }
        Hand { cards }
    }

    /// The 11 digits this hand holds.
    pub fn to_array(&self) -> (r: [u8; 11])
        ensures
            r@ == self@,
    {
        let mut bytes = [0u8; 11];
        unpack_word(self.cards, &mut bytes, 0, HAND_SLOTS);
        proof {
            assert(bytes@ =~= bytes@.subrange(0, 11));
        }
        bytes
    }
}

} // verus!
