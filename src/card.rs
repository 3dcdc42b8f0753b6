use vstd::prelude::*;

verus! {

/// The four suits, in the order in which a fresh deck enumerates them.
#[derive(Debug, Clone, Copy, PartialEq, Eq, Structural, PartialOrd, Ord, Hash)]
pub enum Suit {
    Diamonds,
    Hearts,
    Clubs,
    Spades,
}

/// The thirteen ranks, from Two up to Ace.
#[derive(Debug, Clone, Copy, PartialEq, Eq, Structural, PartialOrd, Ord, Hash)]
pub enum Rank {
    Two,
    Three,
    Four,
    Five,
    Six,
    Seven,
    Eight,
    Nine,
    Ten,
    Jack,
    Queen,
    King,
    Ace,
}

/// The blackjack value of a rank: face value for Two to Ten, ten for the
/// court cards, eleven for the Ace (its soft value).
pub open spec fn rank_value(r: Rank) -> nat {
    match r {
        Rank::Two => 2,
        Rank::Three => 3,
        Rank::Four => 4,
        Rank::Five => 5,
        Rank::Six => 6,
        Rank::Seven => 7,
        Rank::Eight => 8,
        Rank::Nine => 9,
        Rank::Ten | Rank::Jack | Rank::Queen | Rank::King => 10,
        Rank::Ace => 11,
    }
}

/// The short label of a rank.
pub open spec fn rank_label(r: Rank) -> Seq<char> {
    match r {
        Rank::Two => "2"@,
        Rank::Three => "3"@,
        Rank::Four => "4"@,
        Rank::Five => "5"@,
        Rank::Six => "6"@,
        Rank::Seven => "7"@,
        Rank::Eight => "8"@,
        Rank::Nine => "9"@,
        Rank::Ten => "10"@,
        Rank::Jack => "J"@,
        Rank::Queen => "Q"@,
        Rank::King => "K"@,
        Rank::Ace => "A"@,
    }
}

impl Rank {
    /// The numeric value of this rank.
    pub fn get_value(&self) -> (r: u32)
        ensures
            r == rank_value(*self),
    {
        match self {
            Rank::Two => 2,
            Rank::Three => 3,
            Rank::Four => 4,
            Rank::Five => 5,
            Rank::Six => 6,
            Rank::Seven => 7,
            Rank::Eight => 8,
            Rank::Nine => 9,
            Rank::Ten | Rank::Jack | Rank::Queen | Rank::King => 10,
            Rank::Ace => 11,
        }
    }

    /// The short label of the rank ("2" to "10", "J", "Q", "K", "A").
    pub fn label(&self) -> (r: &'static str)
        ensures
            r@ == rank_label(*self),
    {
        match self {
            Rank::Two => "2",
            Rank::Three => "3",
            Rank::Four => "4",
            Rank::Five => "5",
            Rank::Six => "6",
            Rank::Seven => "7",
            Rank::Eight => "8",
            Rank::Nine => "9",
            Rank::Ten => "10",
            Rank::Jack => "J",
            Rank::Queen => "Q",
            Rank::King => "K",
            Rank::Ace => "A",
        }
    }
}

/// A playing card. Its identity is the suit and the rank; `hidden` only says
/// whether the card is shown face down and never changes its value.
#[derive(Debug, Clone, Copy, PartialEq, Eq, Structural, PartialOrd, Ord)]
pub struct Card {
    pub suit: Suit,
    pub rank: Rank,
    pub hidden: bool,
}

/// The card turned face up.
pub open spec fn shown(c: Card) -> Card {
    Card { hidden: false, ..c }
}

impl Card {
    /// A card of the given suit and rank, with the given visibility.
    pub fn new(suit: Suit, rank: Rank, hidden: bool) -> (r: Card)
        ensures
            r.suit == suit,
            r.rank == rank,
            r.hidden == hidden,
    {
        Card { suit, rank, hidden }
    }

    /// The suit of the card.
    pub fn suit(&self) -> (r: Suit)
        ensures
            r == self.suit,
    {
        self.suit
    }

    /// The rank of the card.
    pub fn rank(&self) -> (r: Rank)
        ensures
            r == self.rank,
    {
        self.rank
    }

    /// Turns the card face down.
    pub fn conceal(&mut self)
        ensures
            *final(self) == (Card { hidden: true, ..*old(self) }),
    {
        self.hidden = true;
    }

    /// Turns the card face up and returns it as it now is.
    pub fn unveil(&mut self) -> (r: Card)
        ensures
            *final(self) == (Card { hidden: false, ..*old(self) }),
            r == *final(self),
    {
        self.hidden = false;
        *self
    }

    /// Whether the card is face down.
    pub fn is_hidden(&self) -> (r: bool)
        ensures
            r == self.hidden,
    {
        self.hidden
    }

    /// The value of the card's rank, whatever its visibility.
    pub fn value(&self) -> (r: u32)
        ensures
            r == rank_value(self.rank),
    {
        self.rank.get_value()
    }
}

} // verus!
