//! Suits, ranks and cards, with their fixed enumeration order and display names.

use vstd::prelude::*;

verus! {

/// The four suits, in the order in which a fresh deck lists them.
#[derive(Debug, Clone, Copy, PartialEq, Eq, Structural)]
pub enum Suit {
    Spades,
    Clubs,
    Hearts,
    Diamonds,
}

/// The thirteen ranks, in the order in which a fresh deck lists them.
#[derive(Debug, Clone, Copy, PartialEq, Eq, Structural)]
pub enum Value {
    Ace,
    Two,
    Three,
    Four,
    Five,
    Six,
    Seven,
    Eight,
    Nine,
    Ten,
    Jack,
    Queen,
    King,
}

/// A playing card: a suit and a rank. Two cards are equal when both agree.
#[derive(Debug, Clone, Copy, PartialEq, Eq, Structural)]
pub struct Card {
    pub suit: Suit,
    pub value: Value,
}

impl Suit {
    /// All suits in enumeration order.
    pub open spec fn all() -> Seq<Suit> {
        seq![Suit::Spades, Suit::Clubs, Suit::Hearts, Suit::Diamonds]
    }

    /// Position of the suit in `Suit::all()`.
    pub open spec fn ordinal(self) -> int {
        match self {
            Suit::Spades => 0,
            Suit::Clubs => 1,
            Suit::Hearts => 2,
            Suit::Diamonds => 3,
        }
    }

    /// The name under which the suit is displayed.
    pub open spec fn name_text(self) -> Seq<char> {
        match self {
            Suit::Spades => "Spades"@,
            Suit::Clubs => "Clubs"@,
            Suit::Hearts => "Hearts"@,
            Suit::Diamonds => "Diamonds"@,
        }
    }

    /// The suits in their fixed order: Spades, Clubs, Hearts, Diamonds.
    pub fn iter() -> (suits: Vec<Suit>)
        ensures
            suits@ == Suit::all(),
    {
        let suits = vec![Suit::Spades, Suit::Clubs, Suit::Hearts, Suit::Diamonds];
        assert(suits@ =~= Suit::all());
        suits
    }

    /// The display name of the suit.
    pub fn name(&self) -> (text: &'static str)
        ensures
            text@ == self.name_text(),
    {
        match self {
            Suit::Spades => "Spades",
            Suit::Clubs => "Clubs",
            Suit::Hearts => "Hearts",
            Suit::Diamonds => "Diamonds",
        }
    }
}

impl Value {
    /// All ranks in enumeration order.
    pub open spec fn all() -> Seq<Value> {
        seq![
            Value::Ace,
            Value::Two,
            Value::Three,
            Value::Four,
            Value::Five,
            Value::Six,
            Value::Seven,
            Value::Eight,
            Value::Nine,
            Value::Ten,
            Value::Jack,
            Value::Queen,
            Value::King,
        ]
    }

    /// Position of the rank in `Value::all()`.
    pub open spec fn ordinal(self) -> int {
        match self {
            Value::Ace => 0,
            Value::Two => 1,
            Value::Three => 2,
            Value::Four => 3,
            Value::Five => 4,
            Value::Six => 5,
            Value::Seven => 6,
            Value::Eight => 7,
            Value::Nine => 8,
            Value::Ten => 9,
            Value::Jack => 10,
            Value::Queen => 11,
            Value::King => 12,
        }
    }

    /// The name under which the rank is displayed.
    pub open spec fn name_text(self) -> Seq<char> {
        match self {
            Value::Ace => "Ace"@,
            Value::Two => "Two"@,
            Value::Three => "Three"@,
            Value::Four => "Four"@,
            Value::Five => "Five"@,
            Value::Six => "Six"@,
            Value::Seven => "Seven"@,
            Value::Eight => "Eight"@,
            Value::Nine => "Nine"@,
            Value::Ten => "Ten"@,
            Value::Jack => "Jack"@,
            Value::Queen => "Queen"@,
            Value::King => "King"@,
        }
    }

    /// The ranks in their fixed order, Ace first and King last.
    pub fn iter() -> (values: Vec<Value>)
        ensures
            values@ == Value::all(),
    {
        let values = vec![
            Value::Ace,
            Value::Two,
            Value::Three,
            Value::Four,
            Value::Five,
            Value::Six,
            Value::Seven,
            Value::Eight,
            Value::Nine,
            Value::Ten,
            Value::Jack,
            Value::Queen,
            Value::King,
        ];
        assert(values@ =~= Value::all());
        values
    }

    /// The display name of the rank.
    pub fn name(&self) -> (text: &'static str)
        ensures
            text@ == self.name_text(),
    {
        match self {
            Value::Ace => "Ace",
            Value::Two => "Two",
            Value::Three => "Three",
            Value::Four => "Four",
            Value::Five => "Five",
            Value::Six => "Six",
            Value::Seven => "Seven",
            Value::Eight => "Eight",
            Value::Nine => "Nine",
            Value::Ten => "Ten",
            Value::Jack => "Jack",
            Value::Queen => "Queen",
            Value::King => "King",
        }
    }
}

impl Card {
    /// The text that displays the card: the rank, then " of ", then the suit.
    pub open spec fn text(self) -> Seq<char> {
        self.value.name_text() + " of "@ + self.suit.name_text()
    }

    /// Position of the card in a fresh deck: suits outermost, ranks within a suit.
    pub open spec fn ordinal(self) -> int {
        13 * self.suit.ordinal() + self.value.ordinal()
    }

    /// The card of the given suit and rank.
    pub fn new(suit: Suit, value: Value) -> (card: Card)
        ensures
            card == (Card { suit, value }),
    {
        Card { suit, value }
    }

    /// The card as displayed, for example "Ace of Spades".
    pub fn to_text(&self) -> (text: String)
        ensures
            text@ == self.text(),
    {
        let mut text = String::from_str(self.value.name());
        text.append(" of ");
        text.append(self.suit.name());
        text
    }
}

} // verus!
