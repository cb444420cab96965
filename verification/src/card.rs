//! Playing cards: four suits, thirteen ranks, and what each is worth.

use vstd::prelude::*;
use vstd::string::*;

verus! {

/// One of the four suits.
#[derive(Clone, Copy, Debug, PartialEq, Eq, Hash, Structural)]
pub enum Suit {
    Hearts,
    Diamonds,
    Clubs,
    Spades,
}

/// One of the thirteen ranks, from the two up to the ace.
#[derive(Clone, Copy, Debug, PartialEq, Eq, Hash, Structural)]
pub enum Rank {
    Two,
    Three,
    Four,
    Five,
    Six,
    Seven,
    Eight,
    Nine,
    Ten,
    Jack,
    Queen,
    King,
    Ace,
}

/// A card: a rank in a suit. Cards are plain values and never change.
#[derive(Clone, Copy, Debug, PartialEq, Eq, Hash, Structural)]
pub struct Card {
    pub rank: Rank,
    pub suit: Suit,
}

impl Suit {
    /// The suits in the order in which a fresh deck is laid out.
    pub open spec fn spec_all() -> Seq<Suit> {
        seq![Suit::Hearts, Suit::Diamonds, Suit::Clubs, Suit::Spades]
    }

    /// Position of the suit in `spec_all`.
    pub open spec fn index(self) -> int {
        match self {
            Suit::Hearts => 0,
            Suit::Diamonds => 1,
            Suit::Clubs => 2,
            Suit::Spades => 3,
        }
    }

    /// The printed symbol of the suit.
    pub open spec fn spec_symbol(self) -> Seq<char> {
        match self {
            Suit::Hearts => seq!['♥'],
            Suit::Diamonds => seq!['♦'],
            Suit::Clubs => seq!['♣'],
            Suit::Spades => seq!['♠'],
        }
    }

    pub fn all() -> (suits: [Suit; 4])
        ensures
            suits@ == Suit::spec_all(),
    {
        let suits = [Suit::Hearts, Suit::Diamonds, Suit::Clubs, Suit::Spades];
        assert(suits@ =~= Suit::spec_all());
        suits
    }

    pub fn symbol(self) -> (text: &'static str)
        ensures
            text@ == self.spec_symbol(),
    {
        proof {
            reveal_strlit("♥");
            reveal_strlit("♦");
            reveal_strlit("♣");
            reveal_strlit("♠");
        }
        let text = match self {
            Suit::Hearts => "♥",
            Suit::Diamonds => "♦",
            Suit::Clubs => "♣",
            Suit::Spades => "♠",
        };
        assert(text@ =~= self.spec_symbol());
        text
    }
}

impl Rank {
    /// The ranks in the order in which a fresh deck is laid out.
    pub open spec fn spec_all() -> Seq<Rank> {
        seq![
            Rank::Two,
            Rank::Three,
            Rank::Four,
            Rank::Five,
            Rank::Six,
            Rank::Seven,
            Rank::Eight,
            Rank::Nine,
            Rank::Ten,
            Rank::Jack,
            Rank::Queen,
            Rank::King,
            Rank::Ace,
        ]
    }

    /// Position of the rank in `spec_all`.
    pub open spec fn index(self) -> int {
        match self {
            Rank::Two => 0,
            Rank::Three => 1,
            Rank::Four => 2,
            Rank::Five => 3,
            Rank::Six => 4,
            Rank::Seven => 5,
            Rank::Eight => 6,
            Rank::Nine => 7,
            Rank::Ten => 8,
            Rank::Jack => 9,
            Rank::Queen => 10,
            Rank::King => 11,
            Rank::Ace => 12,
        }
    }

    /// Points of the rank: pip cards count their number, the three face
    /// cards count ten, the ace counts eleven.
    pub open spec fn spec_value(self) -> int {
        match self {
            Rank::Two => 2,
            Rank::Three => 3,
            Rank::Four => 4,
            Rank::Five => 5,
            Rank::Six => 6,
            Rank::Seven => 7,
            Rank::Eight => 8,
            Rank::Nine => 9,
            Rank::Ten => 10,
            Rank::Jack => 10,
            Rank::Queen => 10,
            Rank::King => 10,
            Rank::Ace => 11,
        }
    }

    /// The printed label of the rank: its digits, or one letter.
    pub open spec fn spec_label(self) -> Seq<char> {
        match self {
            Rank::Two => seq!['2'],
            Rank::Three => seq!['3'],
            Rank::Four => seq!['4'],
            Rank::Five => seq!['5'],
            Rank::Six => seq!['6'],
            Rank::Seven => seq!['7'],
            Rank::Eight => seq!['8'],
            Rank::Nine => seq!['9'],
            Rank::Ten => seq!['1', '0'],
            Rank::Jack => seq!['J'],
            Rank::Queen => seq!['Q'],
            Rank::King => seq!['K'],
            Rank::Ace => seq!['A'],
        }
    }

    pub fn all() -> (ranks: [Rank; 13])
        ensures
            ranks@ == Rank::spec_all(),
    {
        let ranks = [
            Rank::Two,
            Rank::Three,
            Rank::Four,
            Rank::Five,
            Rank::Six,
            Rank::Seven,
            Rank::Eight,
            Rank::Nine,
            Rank::Ten,
            Rank::Jack,
            Rank::Queen,
            Rank::King,
            Rank::Ace,
        ];
        assert(ranks@ =~= Rank::spec_all());
        ranks
    }

    pub fn value(self) -> (points: u16)
        ensures
            points == self.spec_value(),
    {
        match self {
            Rank::Two => 2,
            Rank::Three => 3,
            Rank::Four => 4,
            Rank::Five => 5,
            Rank::Six => 6,
            Rank::Seven => 7,
            Rank::Eight => 8,
            Rank::Nine => 9,
            Rank::Ten | Rank::Jack | Rank::Queen | Rank::King => 10,
            Rank::Ace => 11,
        }
    }

    pub fn label(self) -> (text: &'static str)
        ensures
            text@ == self.spec_label(),
    {
        proof {
            reveal_strlit("2");
            reveal_strlit("3");
            reveal_strlit("4");
            reveal_strlit("5");
            reveal_strlit("6");
            reveal_strlit("7");
            reveal_strlit("8");
            reveal_strlit("9");
            reveal_strlit("10");
            reveal_strlit("J");
            reveal_strlit("Q");
            reveal_strlit("K");
            reveal_strlit("A");
        }
        let text = match self {
            Rank::Two => "2",
            Rank::Three => "3",
            Rank::Four => "4",
            Rank::Five => "5",
            Rank::Six => "6",
            Rank::Seven => "7",
            Rank::Eight => "8",
            Rank::Nine => "9",
            Rank::Ten => "10",
            Rank::Jack => "J",
            Rank::Queen => "Q",
            Rank::King => "K",
            Rank::Ace => "A",
        };
        assert(text@ =~= self.spec_label());
        text
    }
}

impl Card {
    pub open spec fn spec_value(self) -> int {
        self.rank.spec_value()
    }

    pub open spec fn is_ace(self) -> bool {
        self.rank == Rank::Ace
    }

    /// The display name: the rank's label followed by the suit's symbol.
    pub open spec fn spec_name(self) -> Seq<char> {
        self.rank.spec_label() + self.suit.spec_symbol()
    }

    pub fn new(rank: Rank, suit: Suit) -> (card: Card)
        ensures
            card == (Card { rank, suit }),
    {
        Card { rank, suit }
    }

    pub fn value(&self) -> (points: u16)
        ensures
            points == self.spec_value(),
            2 <= points <= 11,
            points == 11 <==> self.is_ace(),
    {
        self.rank.value()
    }

    pub fn name(&self) -> (text: String)
        ensures
            text@ == self.spec_name(),
    {
        String::from_str(self.rank.label()).concat(self.suit.symbol())
    }
}

} // verus!
