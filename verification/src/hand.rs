//! The hand evaluator: the blackjack value of the cards that a participant holds.

use crate::card::{Card, Value};
use vstd::prelude::*;

verus! {

/// The points a card counts for before any ace is counted low: an ace eleven,
/// a face card ten, every other card its number.
pub open spec fn card_points(card: Card) -> nat {
    match card.value {
        Value::Ace => 11,
        Value::Two => 2,
        Value::Three => 3,
        Value::Four => 4,
        Value::Five => 5,
        Value::Six => 6,
        Value::Seven => 7,
        Value::Eight => 8,
        Value::Nine => 9,
        Value::Ten => 10,
        Value::Jack => 10,
        Value::Queen => 10,
        Value::King => 10,
    }
}

/// The sum of the points of all cards, every ace counted as eleven.
pub open spec fn raw_total(cards: Seq<Card>) -> nat
    decreases cards.len(),
{
    if cards.len() == 0 {
        0
    } else {
        raw_total(cards.drop_last()) + card_points(cards.last())
    }
}

/// The number of aces among the cards.
pub open spec fn ace_count(cards: Seq<Card>) -> nat
    decreases cards.len(),
{
    if cards.len() == 0 {
        0
    } else {
        ace_count(cards.drop_last()) + if cards.last().value == Value::Ace {
            1nat
        } else {
            0nat
        }
    }
}

/// A total after counting aces low one at a time: while the total is above
/// twenty-one and an ace is left that still counts eleven, that ace counts one.
pub open spec fn soften(total: int, aces: nat) -> int
    decreases aces,
{
    if total > 21 && aces > 0 {
        soften(total - 10, (aces - 1) as nat)
    } else {
        total
    }
}

/// The blackjack value of the cards.
pub open spec fn hand_value(cards: Seq<Card>) -> int {
    soften(raw_total(cards) as int, ace_count(cards))
}

/// Whether the raw total of the cards fits the type in which hands are counted.
pub open spec fn countable(cards: Seq<Card>) -> bool {
    raw_total(cards) <= u8::MAX
}

/// One more card adds its points to the raw total and, if it is an ace, one to
/// the number of aces.
pub proof fn lemma_totals_push(cards: Seq<Card>, card: Card)
    ensures
        raw_total(cards.push(card)) == raw_total(cards) + card_points(card),
        ace_count(cards.push(card)) == ace_count(cards) + if card.value == Value::Ace {
            1nat
        } else {
            0nat
        },
{
    assert(cards.push(card).drop_last() =~= cards);
}

/// The first `n` cards of a hand count no more, and hold no more aces, than the
/// whole hand.
pub proof fn lemma_totals_prefix(cards: Seq<Card>, n: int)
    requires
        0 <= n <= cards.len(),
    ensures
        raw_total(cards.take(n)) <= raw_total(cards),
        ace_count(cards.take(n)) <= ace_count(cards),
    decreases cards.len(),
{
    if n == cards.len() {
        assert(cards.take(n) =~= cards);
    } else {
        lemma_totals_prefix(cards.drop_last(), n);
        assert(cards.drop_last().take(n) =~= cards.take(n));
    }
}

/// Every card counts at least one point, an ace ten more while it counts high;
/// no card counts more than eleven, and only an ace more than ten.
pub proof fn lemma_raw_total_bounds(cards: Seq<Card>)
    ensures
        ace_count(cards) <= cards.len(),
        cards.len() + 10 * ace_count(cards) <= raw_total(cards) <= 11 * cards.len(),
        raw_total(cards) <= 10 * cards.len() + ace_count(cards),
    decreases cards.len(),
{
    if cards.len() > 0 {
        lemma_raw_total_bounds(cards.drop_last());
    }
}

/// What counting aces low does to a total: it takes ten off for some of the aces;
/// it leaves a total above twenty-one only when every ace counts low; and it
/// counts an ace low only when the total was above twenty-one with that ace high.
/// Only one number meets all of this.
pub proof fn lemma_soften_exact(total: int, aces: nat)
    ensures
        total - 10 * aces <= soften(total, aces) <= total,
        (total - soften(total, aces)) % 10 == 0,
        soften(total, aces) > 21 ==> soften(total, aces) == total - 10 * aces,
        soften(total, aces) < total ==> soften(total, aces) > 11,
    decreases aces,
{
    if total > 21 && aces > 0 {
        lemma_soften_exact(total - 10, (aces - 1) as nat);
    }
}

/// Among the totals that a hand can be read as, with any number of its aces
/// counted low, its value is the highest that does not exceed twenty-one; if
/// there is none, it is the lowest total, with every ace counted low.
pub proof fn lemma_hand_value_is_best(cards: Seq<Card>, low_aces: int)
    requires
        0 <= low_aces <= ace_count(cards),
    ensures
        raw_total(cards) - 10 * low_aces <= 21 ==> raw_total(cards) - 10 * low_aces <= hand_value(
            cards,
        ) <= 21,
        hand_value(cards) > 21 ==> hand_value(cards) <= raw_total(cards) - 10 * low_aces,
{
    lemma_soften_exact(raw_total(cards) as int, ace_count(cards));
    let value = hand_value(cards);
    let other = raw_total(cards) - 10 * low_aces;
    if other <= 21 && value < other {
        assert((raw_total(cards) - value) % 10 == 0);
        assert(value + 10 <= other) by {
            assert((other - value) % 10 == 0);
        }
    }
}

/// The value of a hand lies between the number of its cards and its raw total.
pub proof fn lemma_hand_value_bounds(cards: Seq<Card>)
    ensures
        cards.len() <= hand_value(cards) <= raw_total(cards),
{
    lemma_raw_total_bounds(cards);
    lemma_soften_exact(raw_total(cards) as int, ace_count(cards));
}

/// The points of the card, an ace counted as eleven.
pub fn card_value(card: &Card) -> (points: u8)
    ensures
        points == card_points(*card),
{
    match card.value {
        Value::Ace => 11,
        Value::Two => 2,
        Value::Three => 3,
        Value::Four => 4,
        Value::Five => 5,
        Value::Six => 6,
        Value::Seven => 7,
        Value::Eight => 8,
        Value::Nine => 9,
        Value::Ten => 10,
        Value::Jack => 10,
        Value::Queen => 10,
        Value::King => 10,
    }
}

/// The cards that a participant holds, in the order in which they came.
#[derive(Debug, PartialEq, Eq)]
pub struct Hand {
    pub cards: Vec<Card>,
}

impl View for Hand {
    type V = Seq<Card>;

    open spec fn view(&self) -> Seq<Card> {
        self.cards@
    }
}

impl Hand {
    /// An empty hand.
    pub fn new() -> (hand: Hand)
        ensures
            hand@ == Seq::<Card>::empty(),
    {
        Hand { cards: Vec::new() }
    }

    /// Adds the card to the hand, behind the cards already held.
    pub fn add_card(&mut self, card: Card)
        ensures
            final(self)@ == old(self)@.push(card),
    {
        self.cards.push(card);
    }

    /// Gives up all cards.
    pub fn clear(&mut self)
        ensures
            final(self)@ == Seq::<Card>::empty(),
    {
        self.cards.clear();
    }

    /// The raw total of the hand, every ace counted as eleven, or `None` if it
    /// does not fit the type in which hands are counted.
    pub fn checked_total(&self) -> (total: Option<u8>)
        ensures
            total.is_some() == countable(self@),
            total matches Some(t) ==> t == raw_total(self@),
    {
        let mut total: u8 = 0;
        let mut i: usize = 0;
        while i < self.cards.len()
            invariant
                i <= self.cards@.len(),
                total == raw_total(self@.take(i as int)),
            decreases self.cards@.len() - i,
        {
            let points: u8 = card_value(&self.cards[i]);
            proof {
                assert(self@.take(i + 1).drop_last() =~= self@.take(i as int));
                lemma_totals_prefix(self@, i + 1);
            }
            if points > u8::MAX - total {
                return None;
            }
            total += points;
            i += 1;
        }
        assert(self@.take(i as int) =~= self@);
        Some(total)
    }

    /// The blackjack value of the hand. Every card counts its points, aces eleven;
    /// then, one ace after the other, an ace counts one instead while the total is
    /// above twenty-one.
    pub fn get_value(&self) -> (value: u8)
        requires
            countable(self@),
        ensures
            value == hand_value(self@),
    {
        let mut value: u8 = 0;
        let mut i: usize = 0;
        while i < self.cards.len()
            invariant
                countable(self@),
                i <= self.cards@.len(),
                value == raw_total(self@.take(i as int)),
            decreases self.cards@.len() - i,
        {
            proof {
                assert(self@.take(i + 1).drop_last() =~= self@.take(i as int));
                lemma_totals_prefix(self@, i + 1);
            }
            value += card_value(&self.cards[i]);
            i += 1;
        }
        assert(self@.take(i as int) =~= self@);
        let mut j: usize = 0;
        while j < self.cards.len()
            invariant
                j <= self.cards@.len(),
                ace_count(self@.take(j as int)) <= ace_count(self@),
                soften(
                    value as int,
                    (ace_count(self@) - ace_count(self@.take(j as int))) as nat,
                ) == hand_value(self@),
            decreases self.cards@.len() - j,
        {
            proof {
                assert(self@.take(j + 1).drop_last() =~= self@.take(j as int));
                lemma_totals_prefix(self@, j + 1);
            }
            if self.cards[j].value == Value::Ace && value > 21 {
                value -= 10;
            }
            j += 1;
        }
        assert(self@.take(j as int) =~= self@);
        value
    }
}

} // verus!
