//! Suits, faces and the single card.

use vstd::prelude::*;
use vstd::std_specs::cmp::PartialEqSpecImpl;

verus! {

/// The four suits, in declaration order. There is no ordering between suits;
/// the position is only used to enumerate them.
#[derive(Copy, Clone, Debug, PartialEq, Eq, Hash, Structural)]
pub enum Suite {
    Hearts,
    Diamonds,
    Clubs,
    Spades,
}

/// The thirteen ranks, lowest first.
#[derive(Copy, Clone, Debug, PartialEq, Eq, Hash, Structural)]
pub enum Face {
    Ace,
    Two,
    Three,
    Four,
    Five,
    Six,
    Seven,
    Eight,
    Nine,
    Ten,
    Jack,
    Queen,
    King,
}

impl Suite {
    /// Position of the suit in declaration order, `0` for hearts to `3` for spades.
    pub open spec fn spec_index(self) -> int {
        match self {
            Suite::Hearts => 0,
            Suite::Diamonds => 1,
            Suite::Clubs => 2,
            Suite::Spades => 3,
        }
    }

    /// The suit at a position of the declaration order; positions past the
    /// last one give spades.
    pub open spec fn at(i: int) -> Suite {
        if i <= 0 {
            Suite::Hearts
        } else if i == 1 {
            Suite::Diamonds
        } else if i == 2 {
            Suite::Clubs
        } else {
            Suite::Spades
        }
    }

    /// Whether the suit is printed in red: hearts and diamonds are, clubs
    /// and spades are black.
    pub open spec fn spec_is_red(self) -> bool {
        self == Suite::Hearts || self == Suite::Diamonds
    }

    /// Whether the suit is printed in red.
    pub fn is_red(self) -> (red: bool)
        ensures
            red == self.spec_is_red(),
    {
        match self {
            Suite::Hearts => true,
            Suite::Diamonds => true,
            Suite::Clubs => false,
            Suite::Spades => false,
        }
    }

    /// The pip of the suit.
    pub open spec fn spec_symbol(self) -> Seq<char> {
        match self {
            Suite::Hearts => "\u{2665}"@,
            Suite::Diamonds => "\u{2666}"@,
            Suite::Clubs => "\u{2663}"@,
            Suite::Spades => "\u{2660}"@,
        }
    }

    /// The pip of the suit, as it is printed on a card.
    pub fn symbol(self) -> (symbol: &'static str)
        ensures
            symbol@ == self.spec_symbol(),
    {
        match self {
            Suite::Hearts => "\u{2665}",
            Suite::Diamonds => "\u{2666}",
            Suite::Clubs => "\u{2663}",
            Suite::Spades => "\u{2660}",
        }
    }

    /// Position of the suit in declaration order.
    pub fn index(self) -> (i: usize)
        ensures
            i == self.spec_index(),
            i < 4,
            Suite::at(i as int) == self,
    {
        match self {
            Suite::Hearts => 0,
            Suite::Diamonds => 1,
            Suite::Clubs => 2,
            Suite::Spades => 3,
        }
    }
}

impl Face {
    /// Rank of the face in the fixed total order, `0` for the ace to `12` for
    /// the king. The order does not wrap: nothing follows the king.
    pub open spec fn spec_rank(self) -> int {
        match self {
            Face::Ace => 0,
            Face::Two => 1,
            Face::Three => 2,
            Face::Four => 3,
            Face::Five => 4,
            Face::Six => 5,
            Face::Seven => 6,
            Face::Eight => 7,
            Face::Nine => 8,
            Face::Ten => 9,
            Face::Jack => 10,
            Face::Queen => 11,
            Face::King => 12,
        }
    }

    /// The face of a given rank; ranks past the king's give the king.
    pub open spec fn at(r: int) -> Face {
        if r <= 0 {
            Face::Ace
        } else if r == 1 {
            Face::Two
        } else if r == 2 {
            Face::Three
        } else if r == 3 {
            Face::Four
        } else if r == 4 {
            Face::Five
        } else if r == 5 {
            Face::Six
        } else if r == 6 {
            Face::Seven
        } else if r == 7 {
            Face::Eight
        } else if r == 8 {
            Face::Nine
        } else if r == 9 {
            Face::Ten
        } else if r == 10 {
            Face::Jack
        } else if r == 11 {
            Face::Queen
        } else {
            Face::King
        }
    }

    /// The face as it is printed on a card.
    pub open spec fn spec_label(self) -> Seq<char> {
        match self {
            Face::Ace => "A"@,
            Face::Two => "2"@,
            Face::Three => "3"@,
            Face::Four => "4"@,
            Face::Five => "5"@,
            Face::Six => "6"@,
            Face::Seven => "7"@,
            Face::Eight => "8"@,
            Face::Nine => "9"@,
            Face::Ten => "10"@,
            Face::Jack => "J"@,
            Face::Queen => "Q"@,
            Face::King => "K"@,
        }
    }

    /// The face as it is printed on a card.
    pub fn label(self) -> (label: &'static str)
        ensures
            label@ == self.spec_label(),
    {
        match self {
            Face::Ace => "A",
            Face::Two => "2",
            Face::Three => "3",
            Face::Four => "4",
            Face::Five => "5",
            Face::Six => "6",
            Face::Seven => "7",
            Face::Eight => "8",
            Face::Nine => "9",
            Face::Ten => "10",
            Face::Jack => "J",
            Face::Queen => "Q",
            Face::King => "K",
        }
    }

    /// Rank of the face in the fixed total order.
    pub fn rank(self) -> (r: u8)
        ensures
            r == self.spec_rank(),
            r < 13,
            Face::at(r as int) == self,
    {
        match self {
            Face::Ace => 0,
            Face::Two => 1,
            Face::Three => 2,
            Face::Four => 3,
            Face::Five => 4,
            Face::Six => 5,
            Face::Seven => 6,
            Face::Eight => 7,
            Face::Nine => 8,
            Face::Ten => 9,
            Face::Jack => 10,
            Face::Queen => 11,
            Face::King => 12,
        }
    }
}

/// A playing card. Suit and face are its identity; `face_up` is its only
/// mutable state and belongs to whichever deck holds the card.
#[derive(Debug)]
pub struct Card {
    pub suite: Suite,
    pub face: Face,
    pub face_up: bool,
}

impl Card {
    /// Two cards are the same card when suit and face match, whichever way
    /// up they lie.
    pub open spec fn same_card(self, other: Card) -> bool {
        self.suite == other.suite && self.face == other.face
    }

    /// The card turned over.
    pub open spec fn flipped(self) -> Card {
        Card { suite: self.suite, face: self.face, face_up: !self.face_up }
    }

    /// Turns the card over.
    pub fn flip(&mut self)
        ensures
            *final(self) == old(self).flipped(),
    {
        self.face_up = !self.face_up;
    }
}

impl PartialEq for Card {
    /// Compares identity only: `face_up` takes no part.
    fn eq(&self, other: &Card) -> (r: bool) {
        self.suite == other.suite && self.face == other.face
    }
}

impl PartialEqSpecImpl for Card {
    open spec fn obeys_eq_spec() -> bool {
        true
    }

    open spec fn eq_spec(&self, other: &Card) -> bool {
        self.same_card(*other)
    }
}

} // verus!
