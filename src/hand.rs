use vstd::prelude::*;
use crate::card::{Card, Rank, rank_value, shown};
use crate::deck::Deck;
use crate::DeckError;

verus! {

/// The hard total of a sequence of cards: every Ace counts eleven.
pub open spec fn hard_total(cards: Seq<Card>) -> nat
    decreases cards.len(),
{
    if cards.len() == 0 {
        0
    } else {
        hard_total(cards.drop_last()) + rank_value(cards.last().rank)
    }
}

/// Whether some card of the sequence has the given rank.
pub open spec fn has_rank(cards: Seq<Card>, rank: Rank) -> bool {
    exists|i: int| 0 <= i < cards.len() && cards[i].rank == rank
}

/// The total after the one soft-ace adjustment: ten less than the hard total
/// when that total is over 21 and an Ace is present, else the hard total.
pub open spec fn leveled_total(cards: Seq<Card>) -> nat {
    if hard_total(cards) > 21 && has_rank(cards, Rank::Ace) {
        (hard_total(cards) - 10) as nat
    } else {
        hard_total(cards)
    }
}

/// Two cards that make 21.
pub open spec fn blackjack(cards: Seq<Card>) -> bool {
    cards.len() == 2 && hard_total(cards) == 21
}

/// The hard total of a hand fits the `u32` in which it is computed.
pub open spec fn total_fits(cards: Seq<Card>) -> bool {
    hard_total(cards) <= u32::MAX
}

/// How a hand stands against another, by hard totals.
pub open spec fn order_of(a: nat, b: nat) -> core::cmp::Ordering {
    if a < b {
        core::cmp::Ordering::Less
    } else if a > b {
        core::cmp::Ordering::Greater
    } else {
        core::cmp::Ordering::Equal
    }
}

/// The hard total of a prefix never exceeds that of the whole sequence.
pub proof fn lemma_hard_total_prefix(cards: Seq<Card>, n: int)
    requires
        0 <= n <= cards.len(),
    ensures
        hard_total(cards.subrange(0, n)) <= hard_total(cards),
    decreases cards.len() - n,
{
    if n < cards.len() {
        lemma_hard_total_prefix(cards, n + 1);
        assert(cards.subrange(0, n + 1).drop_last() =~= cards.subrange(0, n));
    } else {
        assert(cards.subrange(0, n) =~= cards);
    }
}

/// Every card of the sequence turned face up.
pub open spec fn face_up(cards: Seq<Card>) -> Seq<Card> {
    Seq::new(cards.len(), |i: int| shown(cards[i]))
}

/// Turning cards face up leaves their hard total as it was.
pub proof fn lemma_face_up_total(cards: Seq<Card>)
    ensures
        hard_total(face_up(cards)) == hard_total(cards),
    decreases cards.len(),
{
    if cards.len() > 0 {
        lemma_face_up_total(cards.drop_last());
        assert(face_up(cards).drop_last() =~= face_up(cards.drop_last()));
    }
}

/// The hard total is at least the value of any one card.
pub proof fn lemma_total_covers_card(cards: Seq<Card>, i: int)
    requires
        0 <= i < cards.len(),
    ensures
        hard_total(cards) >= rank_value(cards[i].rank),
    decreases cards.len(),
{
    if i < cards.len() - 1 {
        lemma_total_covers_card(cards.drop_last(), i);
    }
}

/// The cards held by one party in a round, and whether that hand has busted.
#[derive(Debug, Clone)]
pub struct Hand(pub Vec<Card>, pub bool);

impl Hand {
    /// An empty hand that has not busted.
    pub fn new() -> (r: Hand)
        ensures
            r.0@.len() == 0,
            !r.1,
    {
        Hand(Vec::new(), false)
    }

    /// Whether the hand has been marked busted.
    pub fn busted(&self) -> (r: bool)
        ensures
            r == self.1,
    {
        self.1
    }

    /// Draws the top card of `deck` onto the end of the hand, face up, and
    /// returns it. Fails with `EmptyDeck`, changing nothing, on an empty deck.
    pub fn draw_from(&mut self, deck: &mut Deck) -> (r: Result<Card, DeckError>)
        ensures
            old(deck)@.len() == 0 ==> r == Err::<Card, DeckError>(DeckError::EmptyDeck)
                && *final(self) == *old(self) && final(deck)@ == old(deck)@,
            old(deck)@.len() > 0 ==> r == Ok::<Card, DeckError>(shown(old(deck)@.last()))
                && final(deck)@ == old(deck)@.drop_last() && final(self).0@ == old(
                self,
            ).0@.push(shown(old(deck)@.last())) && final(self).1 == old(self).1,
    {
        match deck.take_top() {
            None => Err(DeckError::EmptyDeck),
            Some(mut card) => {
                card.unveil();
                self.0.push(card);
                Ok(card)
            },
        }
    }

    /// Turns every card of the hand face up.
    pub fn unveil_all(&mut self)
        ensures
            final(self).0@ == face_up(old(self).0@),
            final(self).1 == old(self).1,
    {
        let mut i: usize = 0;
        while i < self.0.len()
            invariant
                i <= self.0@.len(),
                self.0@.len() == old(self).0@.len(),
                self.1 == old(self).1,
                forall|k: int| 0 <= k < i ==> self.0@[k] == shown(old(self).0@[k]),
                forall|k: int| i <= k < self.0@.len() ==> self.0@[k] == old(self).0@[k],
            decreases self.0@.len() - i,
        {
            let card = self.0[i];
            self.0[i] = Card { hidden: false, ..card };
            i += 1;
        }
        assert(self.0@ =~= face_up(old(self).0@));
    }

    /// The last card of the hand; `EmptyDeck` when the hand is empty.
    pub fn last(&self) -> (r: Result<Card, DeckError>)
        ensures
            self.0@.len() == 0 ==> r == Err::<Card, DeckError>(DeckError::EmptyDeck),
            self.0@.len() > 0 ==> r == Ok::<Card, DeckError>(self.0@.last()),
    {
        if self.0.len() == 0 {
            Err(DeckError::EmptyDeck)
        } else {
            Ok(self.0[self.0.len() - 1])
        }
    }

    /// The position of the last card.
    pub fn last_index(&self) -> (r: u32)
        requires
            0 < self.0@.len() <= u32::MAX,
        ensures
            r == self.0@.len() - 1,
    {
        (self.0.len() - 1) as u32
    }

    /// Orders this hand against `other_hand` by their hard totals (an Ace
    /// always counts eleven here).
    pub fn compare_to(&self, other_hand: &Hand) -> (r: Result<core::cmp::Ordering, DeckError>)
        requires
            total_fits(self.0@),
            total_fits(other_hand.0@),
        ensures
            r == Ok::<core::cmp::Ordering, DeckError>(
                order_of(hard_total(self.0@), hard_total(other_hand.0@)),
            ),
    {
        let a = self.sum();
        let b = other_hand.sum();
        if a < b {
            Ok(core::cmp::Ordering::Less)
        } else if a > b {
            Ok(core::cmp::Ordering::Greater)
        } else {
            Ok(core::cmp::Ordering::Equal)
        }
    }

    /// Draws the top card of `deck` face down onto the end of the hand and
    /// returns it as stored. Fails with `EmptyDeck`, changing nothing, on an
    /// empty deck.
    pub fn draw_from_hidden(&mut self, deck: &mut Deck) -> (r: Result<Card, DeckError>)
        ensures
            old(deck)@.len() == 0 ==> r == Err::<Card, DeckError>(DeckError::EmptyDeck)
                && *final(self) == *old(self) && final(deck)@ == old(deck)@,
            old(deck)@.len() > 0 ==> r == Ok::<Card, DeckError>(
                (Card { hidden: true, ..old(deck)@.last() }),
            ) && final(deck)@ == old(deck)@.drop_last() && final(self).0@ == old(self).0@.push(
                (Card { hidden: true, ..old(deck)@.last() }),
            ) && final(self).1 == old(self).1,
    {
        let mut card: Card = match deck.take_top() {
            Some(card) => card,
            None => return Err(DeckError::EmptyDeck),
        };
        card.conceal();
        self.0.push(card);
        Ok(card)
    }

    /// The hard total of the hand: every Ace counts eleven.
    pub fn sum(&self) -> (r: u32)
        requires
            total_fits(self.0@),
        ensures
            r == hard_total(self.0@),
    {
        let mut total: u32 = 0;
        let mut i: usize = 0;
        while i < self.0.len()
            invariant
                i <= self.0@.len(),
                total_fits(self.0@),
                total == hard_total(self.0@.subrange(0, i as int)),
            decreases self.0@.len() - i,
        {
            proof {
                lemma_hard_total_prefix(self.0@, i + 1);
                assert(self.0@.subrange(0, i + 1).drop_last() =~= self.0@.subrange(0, i as int));
            }
            total += self.0[i].rank.get_value();
            i += 1;
        }
        assert(self.0@.subrange(0, i as int) =~= self.0@);
        total
    }

    /// Two cards that make 21.
    pub fn is_blackjack(&self) -> (r: bool)
        requires
            total_fits(self.0@),
        ensures
            r == blackjack(self.0@),
    {
        self.sum() == 21 && self.0.len() == 2
    }

    /// Whether `sum` is over 21.
    pub fn is_bust(&self, sum: u32) -> (r: bool)
        ensures
            r == (sum > 21),
    {
        sum > 21
    }

    /// Whether some card of the hand has the given rank.
    pub fn contains(&self, rank: Rank) -> (r: bool)
        ensures
            r == has_rank(self.0@, rank),
    {
        let mut i: usize = 0;
        while i < self.0.len()
            invariant
                i <= self.0@.len(),
                forall|k: int| 0 <= k < i ==> self.0@[k].rank != rank,
            decreases self.0@.len() - i,
        {
            if self.0[i].rank == rank {
                return true;
            }
            i += 1;
        }
        false
    }

    /// The hard total, less ten when it is over 21 and the hand holds an Ace.
    /// The adjustment is made once, however many Aces there are.
    pub fn level_off_ace(&self) -> (r: u32)
        requires
            total_fits(self.0@),
        ensures
            r == leveled_total(self.0@),
    {
        let total = self.sum();
        if self.is_bust(total) && self.contains(Rank::Ace) {
            return total - 10;
        }
        total
    }

    /// Evaluates the hand: a blackjack is resolved as it is; otherwise a
    /// leveled total over 21 marks the hand busted for good and is resolved
    /// too. Any other hand is unresolved and left unchanged.
    pub fn check(&mut self) -> (r: bool)
        requires
            total_fits(old(self).0@),
        ensures
            r == (blackjack(old(self).0@) || leveled_total(old(self).0@) > 21),
            final(self).0@ == old(self).0@,
            final(self).1 == (old(self).1 || (!blackjack(old(self).0@) && leveled_total(
                old(self).0@,
            ) > 21)),
    {
        if self.is_blackjack() {
            return true;
        }
        let total: u32 = self.level_off_ace();
        if self.is_bust(total) {
            self.1 = true;
            return true;
        }
        false
    }
}

} // verus!
