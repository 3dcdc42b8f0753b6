use vstd::prelude::*;
use rand::Rng;
use crate::card::{Card, Rank, Suit};
use crate::hand::Hand;
use crate::DeckError;

verus! {

broadcast use vstd::seq_lib::group_to_multiset_ensures;

/// The suit of the `k`-th group of thirteen cards in a fresh 52-card set.
pub open spec fn suit_at(k: int) -> Suit {
    if k == 0 {
        Suit::Hearts
    } else if k == 1 {
        Suit::Diamonds
    } else if k == 2 {
        Suit::Clubs
    } else {
        Suit::Spades
    }
}

/// The rank at position `k` (0 to 12) of a suit, from Two up to Ace.
pub open spec fn rank_at(k: int) -> Rank {
    if k == 0 {
        Rank::Two
    } else if k == 1 {
        Rank::Three
    } else if k == 2 {
        Rank::Four
    } else if k == 3 {
        Rank::Five
    } else if k == 4 {
        Rank::Six
    } else if k == 5 {
        Rank::Seven
    } else if k == 6 {
        Rank::Eight
    } else if k == 7 {
        Rank::Nine
    } else if k == 8 {
        Rank::Ten
    } else if k == 9 {
        Rank::Jack
    } else if k == 10 {
        Rank::Queen
    } else if k == 11 {
        Rank::King
    } else {
        Rank::Ace
    }
}

/// The `k`-th card (0 to 51) of a fresh, face-up 52-card set.
pub open spec fn standard_card(k: int) -> Card {
    Card { suit: suit_at(k / 13), rank: rank_at(k % 13), hidden: false }
}

/// The deck that `build(m)` produces: `m` fresh sets, one after the other.
pub open spec fn built_deck(m: nat) -> Seq<Card> {
    Seq::new(52 * m, |i: int| standard_card(i % 52))
}

/// The cards that `n` draws from the top of `d` yield, in the order drawn.
pub open spec fn top_cards(d: Seq<Card>, n: nat) -> Seq<Card> {
    Seq::new(n, |k: int| d[d.len() - 1 - k])
}

/// The position of a suit in the enumeration order of a fresh set.
pub open spec fn suit_index(s: Suit) -> int {
    match s {
        Suit::Hearts => 0,
        Suit::Diamonds => 1,
        Suit::Clubs => 2,
        Suit::Spades => 3,
    }
}

/// The position of a rank in the enumeration order of a suit.
pub open spec fn rank_index(r: Rank) -> int {
    match r {
        Rank::Two => 0,
        Rank::Three => 1,
        Rank::Four => 2,
        Rank::Five => 3,
        Rank::Six => 4,
        Rank::Seven => 5,
        Rank::Eight => 6,
        Rank::Nine => 7,
        Rank::Ten => 8,
        Rank::Jack => 9,
        Rank::Queen => 10,
        Rank::King => 11,
        Rank::Ace => 12,
    }
}

/// Within one fresh set, a card's suit and rank give back its position.
proof fn lemma_standard_card_position(k: int)
    requires
        0 <= k < 52,
    ensures
        13 * suit_index(standard_card(k).suit) + rank_index(standard_card(k).rank) == k,
{
    assert(0 <= k / 13 < 4);
    assert(0 <= k % 13 < 13);
    assert(k == 13 * (k / 13) + k % 13);
}

/// A deck built of `m` sets holds exactly `52 * m` cards, all face up, and
/// no two cards of the same 52-card block share both suit and rank.
pub proof fn lemma_built_deck_blocks(m: nat)
    ensures
        built_deck(m).len() == 52 * m,
        forall|i: int| 0 <= i < built_deck(m).len() ==> !(#[trigger] built_deck(m)[i]).hidden,
        forall|b: int, i: int, j: int|
            0 <= b < m && 0 <= i < 52 && 0 <= j < 52 && i != j ==> {
                let x = #[trigger] built_deck(m)[52 * b + i];
                let y = #[trigger] built_deck(m)[52 * b + j];
                x.suit != y.suit || x.rank != y.rank
            },
{
    assert forall|b: int, i: int, j: int|
        0 <= b < m && 0 <= i < 52 && 0 <= j < 52 && i != j implies {
            let x = #[trigger] built_deck(m)[52 * b + i];
            let y = #[trigger] built_deck(m)[52 * b + j];
            x.suit != y.suit || x.rank != y.rank
        } by {
        assert((52 * b + i) % 52 == i && (52 * b + j) % 52 == j) by (nonlinear_arith)
            requires
                0 <= b,
                0 <= i < 52,
                0 <= j < 52,
        ;
        assert(52 * b + i < 52 * m && 52 * b + j < 52 * m) by (nonlinear_arith)
            requires
                0 <= b < m,
                0 <= i < 52,
                0 <= j < 52,
        ;
        lemma_standard_card_position(i);
        lemma_standard_card_position(j);
    }
}

/// The sequence with the elements at `i` and `j` exchanged.
pub open spec fn swap_at(s: Seq<Card>, i: int, j: int) -> Seq<Card> {
    s.update(i, s[j]).update(j, s[i])
}

/// Random indices fit for a Fisher-Yates shuffle of `n` cards: one per step,
/// the `k`-th below `n - k`.
pub open spec fn valid_draws(draws: Seq<usize>, n: nat) -> bool {
    draws.len() == n && forall|k: int| 0 <= k < n ==> #[trigger] draws[k] < n - k
}

/// The first `k` steps of a Fisher-Yates shuffle of `s` with the given
/// draws: step `t` swaps position `len - 1 - t` with position `draws[t]`.
pub open spec fn fisher_yates_steps(s: Seq<Card>, draws: Seq<usize>, k: int) -> Seq<Card>
    decreases k,
{
    if k <= 0 {
        s
    } else {
        swap_at(fisher_yates_steps(s, draws, k - 1), s.len() - k, draws[k - 1] as int)
    }
}

/// The order that a Fisher-Yates shuffle of `s` gives for the given draws.
pub open spec fn fisher_yates(s: Seq<Card>, draws: Seq<usize>) -> Seq<Card> {
    fisher_yates_steps(s, draws, draws.len() as int)
}

/// An ordered stack of cards; the top is the end of the sequence.
#[derive(Debug)]
pub struct Deck(Vec<Card>);

impl View for Deck {
    type V = Seq<Card>;

    closed spec fn view(&self) -> Seq<Card> {
        self.0@
    }
}

/// Relies on rand's `thread_rng` and `Rng::gen_range`: a value drawn from
/// `0..bound`, which must not be empty (`gen_range` panics on an empty range).
#[verifier::external_body]
fn random_below(bound: usize) -> (r: usize)
    requires
        bound > 0,
    ensures
        r < bound,
{
    rand::thread_rng().gen_range(0..bound)
}

fn suit_of(k: usize) -> (r: Suit)
    requires
        k < 4,
    ensures
        r == suit_at(k as int),
{
    if k == 0 {
        Suit::Hearts
    } else if k == 1 {
        Suit::Diamonds
    } else if k == 2 {
        Suit::Clubs
    } else {
        Suit::Spades
    }
}

fn rank_of(k: usize) -> (r: Rank)
    requires
        k < 13,
    ensures
        r == rank_at(k as int),
{
    if k == 0 {
        Rank::Two
    } else if k == 1 {
        Rank::Three
    } else if k == 2 {
        Rank::Four
    } else if k == 3 {
        Rank::Five
    } else if k == 4 {
        Rank::Six
    } else if k == 5 {
        Rank::Seven
    } else if k == 6 {
        Rank::Eight
    } else if k == 7 {
        Rank::Nine
    } else if k == 8 {
        Rank::Ten
    } else if k == 9 {
        Rank::Jack
    } else if k == 10 {
        Rank::Queen
    } else if k == 11 {
        Rank::King
    } else {
        Rank::Ace
    }
}

impl Deck {
    /// A deck of `multiplier` full 52-card sets in the fixed suit and rank
    /// order, every card face up.
    pub fn build(multiplier: u32) -> (r: Deck)
        requires
            52 * multiplier <= usize::MAX,
        ensures
            r@ == built_deck(multiplier as nat),
            r@.len() == 52 * multiplier,
            forall|i: int| 0 <= i < r@.len() ==> !(#[trigger] r@[i]).hidden,
            forall|b: int, i: int, j: int|
                0 <= b < multiplier && 0 <= i < 52 && 0 <= j < 52 && i != j ==> {
                    let x = #[trigger] r@[52 * b + i];
                    let y = #[trigger] r@[52 * b + j];
                    x.suit != y.suit || x.rank != y.rank
                },
    {
        let mut deck: Vec<Card> = Vec::new();
        let mut b: u32 = 0;
        while b < multiplier
            invariant
                b <= multiplier,
                deck@.len() == 52 * b,
                forall|i: int| 0 <= i < deck@.len() ==> deck@[i] == standard_card(i % 52),
            decreases multiplier - b,
        {
            let mut s: usize = 0;
            while s < 4
                invariant
                    b < multiplier,
                    s <= 4,
                    deck@.len() == 52 * b + 13 * s,
                    forall|i: int| 0 <= i < deck@.len() ==> deck@[i] == standard_card(i % 52),
                decreases 4 - s,
            {
                let suit = suit_of(s);
                let mut r: usize = 0;
                while r < 13
                    invariant
                        b < multiplier,
                        s < 4,
                        suit == suit_at(s as int),
                        r <= 13,
                        deck@.len() == 52 * b + 13 * s + r,
                        forall|i: int| 0 <= i < deck@.len() ==> deck@[i] == standard_card(i % 52),
                    decreases 13 - r,
                {
                    let card = Card { suit, rank: rank_of(r), hidden: false };
                    proof {
                        let n: int = 52 * b + 13 * s + r;
                        assert(n % 52 == 13 * s + r) by (nonlinear_arith)
                            requires
                                n == 52 * b + 13 * s + r,
                                s < 4,
                                r < 13,
                        ;
                        assert((13 * s + r) / 13 == s && (13 * s + r) % 13 == r) by (nonlinear_arith)
                            requires
                                r < 13,
                        ;
                        assert(card == standard_card(n % 52));
                    }
                    deck.push(card);
                    r += 1;
                }
                s += 1;
            }
            b += 1;
        }
        let r = Deck(deck);
        assert(r@ =~= built_deck(multiplier as nat));
        proof {
            lemma_built_deck_blocks(multiplier as nat);
        }
        r
    }

    /// Applies the Fisher-Yates swaps given by `draws`: at step `k`, the card
    /// at position `n - 1 - k` changes places with the one at `draws[k]`,
    /// which lies in `0..n - k`. The deck keeps exactly the cards it had.
    pub fn shuffle_with(&mut self, draws: &Vec<usize>)
        requires
            valid_draws(draws@, old(self)@.len()),
        ensures
            final(self)@ == fisher_yates(old(self)@, draws@),
            final(self)@.to_multiset() == old(self)@.to_multiset(),
            final(self)@.len() == old(self)@.len(),
    {
        let n = self.0.len();
        let mut k: usize = 0;
        while k < n
            invariant
                k <= n,
                n == old(self)@.len(),
                valid_draws(draws@, n as nat),
                self.0@.len() == n,
                self.0@ == fisher_yates_steps(old(self)@, draws@, k as int),
                self.0@.to_multiset() == old(self)@.to_multiset(),
            decreases n - k,
        {
            let i = n - 1 - k;
            let j = draws[k];
            let a = self.0[i];
            let b = self.0[j];
            let ghost before = self.0@;
            self.0[i] = b;
            self.0[j] = a;
            proof {
                let mid = before.update(i as int, b);
                assert(mid.to_multiset() == before.to_multiset().insert(b).remove(a));
                assert(mid[j as int] == b);
                assert(self.0@ == mid.update(j as int, a));
                assert(self.0@.to_multiset() == mid.to_multiset().insert(a).remove(b));
                assert(self.0@.to_multiset() =~= before.to_multiset());
                assert(self.0@ == swap_at(before, i as int, j as int));
            }
            k += 1;
        }
    }

    /// Puts the cards in a uniformly random order by a Fisher-Yates shuffle:
    /// for each position from the last down to the first, a random index at
    /// or below it is drawn and the two cards change places.
    pub fn shuffle(&mut self)
        ensures
            exists|draws: Seq<usize>|
                valid_draws(draws, old(self)@.len()) && final(self)@ == fisher_yates(
                    old(self)@,
                    draws,
                ),
            final(self)@.to_multiset() == old(self)@.to_multiset(),
            final(self)@.len() == old(self)@.len(),
    {
        let n = self.0.len();
        let mut draws: Vec<usize> = Vec::new();
        let mut k: usize = 0;
        while k < n
            invariant
                k <= n,
                draws@.len() == k,
                forall|t: int| 0 <= t < k ==> #[trigger] draws@[t] < n - t,
            decreases n - k,
        {
            draws.push(random_below(n - k));
            k += 1;
        }
        self.shuffle_with(&draws);
    }

    /// Replaces the contents with a freshly built deck of `multiplier` sets,
    /// then shuffles it.
    pub fn reshuffle(&mut self, multiplier: u32)
        requires
            52 * multiplier <= usize::MAX,
        ensures
            exists|draws: Seq<usize>|
                valid_draws(draws, 52 * multiplier as nat) && final(self)@ == fisher_yates(
                    built_deck(multiplier as nat),
                    draws,
                ),
            final(self)@.to_multiset() == built_deck(multiplier as nat).to_multiset(),
            final(self)@.len() == 52 * multiplier,
    {
        *self = Deck::build(multiplier);
        self.shuffle();
    }

    /// The number of cards left.
    pub fn total_cards(&self) -> (r: u32)
        ensures
            r == self@.len() as u32,
    {
        self.0.len() as u32
    }

    /// The cards left, bottom first.
    pub fn cards(&self) -> (r: &Vec<Card>)
        ensures
            r@ == self@,
    {
        &self.0
    }

    /// Takes the top card, if any.
    pub(crate) fn take_top(&mut self) -> (r: Option<Card>)
        ensures
            old(self)@.len() == 0 ==> r is None && final(self)@ == old(self)@,
            old(self)@.len() > 0 ==> r == Some(old(self)@.last()) && final(self)@
                == old(self)@.drop_last(),
    {
        self.0.pop()
    }

    /// Deals a hand of `cards` cards from the top, in the order drawn. Fails
    /// with `EmptyDeck` when fewer cards are left; the cards taken before the
    /// deck ran out are then lost.
    pub fn deal_hand(&mut self, cards: u32) -> (r: Result<Hand, DeckError>)
        ensures
            old(self)@.len() < cards ==> r == Err::<Hand, DeckError>(DeckError::EmptyDeck)
                && final(self)@.len() == 0,
            old(self)@.len() >= cards ==> r is Ok && r->Ok_0.0@ == top_cards(
                old(self)@,
                cards as nat,
            ) && !r->Ok_0.1 && final(self)@ == old(self)@.subrange(
                0,
                old(self)@.len() - cards,
            ),
    {
        let mut hand: Vec<Card> = Vec::new();
        let mut k: u32 = 0;
        while k < cards
            invariant
                k <= cards,
                old(self)@.len() >= k,
                self@ == old(self)@.subrange(0, old(self)@.len() - k),
                hand@ == top_cards(old(self)@, k as nat),
            decreases cards - k,
        {
            match self.take_top() {
                None => {
                    return Err(DeckError::EmptyDeck);
                },
                Some(card) => {
                    hand.push(card);
                },
            }
            k += 1;
            assert(hand@ =~= top_cards(old(self)@, k as nat));
            assert(self@ =~= old(self)@.subrange(0, old(self)@.len() - k));
        }
        Ok(Hand(hand, false))
    }
}

} // verus!
