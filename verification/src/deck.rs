//! The deck: fifty-two distinct cards that can be reset, shuffled and drawn from.

use crate::card::{Card, Suit, Value};
use crate::random::random_below;
use vstd::prelude::*;

verus! {

/// The card at position `i` of a fresh deck: suits outermost, ranks within a suit.
pub open spec fn fresh_card(i: int) -> Card {
    Card { suit: Suit::all()[i / 13], value: Value::all()[i % 13] }
}

/// A fresh deck: all fifty-two cards in enumeration order.
pub open spec fn fresh_deck() -> Seq<Card> {
    Seq::new(52, |i: int| fresh_card(i))
}

/// The sequence `s` with the cards at positions `i` and `j` exchanged.
pub open spec fn swap_at(s: Seq<Card>, i: int, j: int) -> Seq<Card> {
    s.update(i, s[j]).update(j, s[i])
}

/// The number of exchanges that one shuffle pass makes on a deck of `len` cards.
pub open spec fn pass_steps(len: nat) -> nat {
    if len >= 2 {
        (len - 2) as nat
    } else {
        0
    }
}

/// Whether `picks` can drive one shuffle pass over `len` cards: one pick for each
/// exchange, each below the index of the last card.
pub open spec fn valid_picks(picks: Seq<usize>, len: nat) -> bool {
    &&& picks.len() == pass_steps(len)
    &&& forall|k: int| 0 <= k < picks.len() ==> picks[k] < len - 1
}

/// The deck `s` after the first `steps` exchanges of a shuffle pass. Exchange
/// number `k`, counted from zero, swaps position `s.len() - 2 - k` with `picks[k]`.
pub open spec fn shuffle_pass(s: Seq<Card>, picks: Seq<usize>, steps: nat) -> Seq<Card>
    decreases steps,
{
    if steps == 0 {
        s
    } else {
        swap_at(
            shuffle_pass(s, picks, (steps - 1) as nat),
            s.len() - 1 - steps,
            picks[steps - 1] as int,
        )
    }
}

/// The deck `s` after a whole shuffle pass driven by `picks`.
pub open spec fn shuffled(s: Seq<Card>, picks: Seq<usize>) -> Seq<Card> {
    shuffle_pass(s, picks, picks.len())
}

/// The first `count` cards that leave the deck `s`, the last card of `s` first.
pub open spec fn top_cards(s: Seq<Card>, count: nat) -> Seq<Card> {
    Seq::new(count, |k: int| s[s.len() - 1 - k])
}

/// The displayed cards of `cards`, one after the other with nothing between them.
pub open spec fn cards_text(cards: Seq<Card>) -> Seq<char>
    decreases cards.len(),
{
    if cards.len() == 0 {
        Seq::empty()
    } else {
        cards_text(cards.drop_last()) + cards.last().text()
    }
}

/// Every card stands in a fresh deck at the position of its ordinal.
pub proof fn lemma_fresh_card_ordinal(card: Card)
    ensures
        0 <= card.ordinal() < 52,
        fresh_card(card.ordinal()) == card,
{
    let s = card.suit.ordinal();
    let v = card.value.ordinal();
    assert(0 <= s < 4 && 0 <= v < 13);
    assert((13 * s + v) / 13 == s && (13 * s + v) % 13 == v);
    assert(Suit::all()[s] == card.suit);
    assert(Value::all()[v] == card.value);
}

/// The card at each position of a fresh deck has that position as its ordinal.
pub proof fn lemma_fresh_card_position(i: int)
    requires
        0 <= i < 52,
    ensures
        fresh_card(i).ordinal() == i,
{
    let s = i / 13;
    let v = i % 13;
    assert(0 <= s < 4 && 0 <= v < 13 && i == 13 * s + v);
    assert(Suit::all()[s].ordinal() == s) by {
        assert(s == 0 || s == 1 || s == 2 || s == 3);
    }
    assert(Value::all()[v].ordinal() == v) by {
        assert(v == 0 || v == 1 || v == 2 || v == 3 || v == 4 || v == 5 || v == 6 || v == 7 || v
            == 8 || v == 9 || v == 10 || v == 11 || v == 12);
    }
}

/// A fresh deck holds fifty-two cards, no card twice, and every card there is.
pub proof fn lemma_fresh_deck_complete()
    ensures
        fresh_deck().len() == 52,
        fresh_deck().no_duplicates(),
        forall|card: Card| fresh_deck().contains(card),
        forall|card: Card| #[trigger] fresh_deck()[card.ordinal()] == card,
{
    assert forall|i: int, j: int| 0 <= i < 52 && 0 <= j < 52 && i != j implies fresh_deck()[i]
        != fresh_deck()[j] by {
        lemma_fresh_card_position(i);
        lemma_fresh_card_position(j);
    }
    assert forall|card: Card| #[trigger] fresh_deck()[card.ordinal()] == card by {
        lemma_fresh_card_ordinal(card);
    }
    assert forall|card: Card| fresh_deck().contains(card) by {
        lemma_fresh_card_ordinal(card);
        assert(fresh_deck()[card.ordinal()] == card);
    }
}

/// Cards of which none occurs twice are at most fifty-two.
pub proof fn lemma_distinct_cards_at_most_52(cards: Seq<Card>)
    requires
        cards.no_duplicates(),
    ensures
        cards.len() <= 52,
{
    lemma_fresh_deck_complete();
    cards.unique_seq_to_set();
    fresh_deck().unique_seq_to_set();
    vstd::seq_lib::seq_to_set_is_finite(fresh_deck());
    assert(cards.to_set().subset_of(fresh_deck().to_set())) by {
        assert forall|card: Card| cards.to_set().contains(card) implies fresh_deck().to_set().contains(
            card,
        ) by {
            assert(fresh_deck().contains(card));
        }
    }
    vstd::set_lib::lemma_len_subset(cards.to_set(), fresh_deck().to_set());
}

/// Exchanging two cards keeps the length, the cards as a multiset, their
/// distinctness, and every position but the two.
pub proof fn lemma_swap_permutes(s: Seq<Card>, i: int, j: int)
    requires
        0 <= i < s.len(),
        0 <= j < s.len(),
    ensures
        swap_at(s, i, j).len() == s.len(),
        swap_at(s, i, j).to_multiset() == s.to_multiset(),
        s.no_duplicates() ==> swap_at(s, i, j).no_duplicates(),
        forall|k: int| 0 <= k < s.len() && k != i && k != j ==> swap_at(s, i, j)[k] == s[k],
{
    broadcast use vstd::multiset::group_multiset_axioms;

    let half = s.update(i, s[j]);
    vstd::seq_lib::to_multiset_update(s, i, s[j]);
    vstd::seq_lib::to_multiset_update(half, j, s[i]);
    vstd::seq_lib::to_multiset_contains(s, s[i]);
    vstd::seq_lib::to_multiset_contains(s, s[j]);
    assert(s.contains(s[i]) && s.contains(s[j]));
    if i == j {
        assert(swap_at(s, i, j) =~= s);
    } else {
        assert(half[j] == s[j]);
        assert(swap_at(s, i, j).to_multiset() =~= s.to_multiset());
    }
}

/// After any number of exchanges of a shuffle pass the deck holds the same cards
/// as before, and its last card has not moved.
pub proof fn lemma_shuffle_pass_permutes(s: Seq<Card>, picks: Seq<usize>, steps: nat)
    requires
        valid_picks(picks, s.len()),
        steps <= picks.len(),
    ensures
        shuffle_pass(s, picks, steps).len() == s.len(),
        shuffle_pass(s, picks, steps).to_multiset() == s.to_multiset(),
        s.no_duplicates() ==> shuffle_pass(s, picks, steps).no_duplicates(),
        s.len() > 0 ==> shuffle_pass(s, picks, steps).last() == s.last(),
    decreases steps,
{
    if steps > 0 {
        let before = shuffle_pass(s, picks, (steps - 1) as nat);
        lemma_shuffle_pass_permutes(s, picks, (steps - 1) as nat);
        lemma_swap_permutes(before, s.len() - 1 - steps, picks[steps - 1] as int);
    }
}

/// A shuffle pass is a permutation: the deck afterwards has the same length and
/// the same cards as a multiset, stays free of duplicates, and keeps its last card
/// where it was.
pub proof fn lemma_shuffled_is_permutation(s: Seq<Card>, picks: Seq<usize>)
    requires
        valid_picks(picks, s.len()),
    ensures
        shuffled(s, picks).len() == s.len(),
        shuffled(s, picks).to_multiset() == s.to_multiset(),
        s.no_duplicates() ==> shuffled(s, picks).no_duplicates(),
        s.len() > 0 ==> shuffled(s, picks).last() == s.last(),
{
    lemma_shuffle_pass_permutes(s, picks, picks.len());
}

/// The fifty-two cards in enumeration order.
fn fresh_cards() -> (cards: Vec<Card>)
    ensures
        cards@ == fresh_deck(),
{
    let suits = Suit::iter();
    let values = Value::iter();
    let mut cards: Vec<Card> = Vec::new();
    let mut s: usize = 0;
    while s < suits.len()
        invariant
            suits@ == Suit::all(),
            values@ == Value::all(),
            s <= 4,
            cards@.len() == 13 * s,
            forall|k: int| 0 <= k < cards@.len() ==> cards@[k] == fresh_card(k),
        decreases 4 - s,
    {
        let mut v: usize = 0;
        while v < values.len()
            invariant
                suits@ == Suit::all(),
                values@ == Value::all(),
                s < 4,
                v <= 13,
                cards@.len() == 13 * s + v,
                forall|k: int| 0 <= k < cards@.len() ==> cards@[k] == fresh_card(k),
            decreases 13 - v,
        {
            assert((13 * s + v) / 13 == s && (13 * s + v) % 13 == v);
            cards.push(Card::new(suits[s], values[v]));
            v += 1;
        }
        s += 1;
    }
    assert(cards@ =~= fresh_deck());
    cards
}

/// Exchanges the cards at positions `i` and `j`.
fn swap_cards(cards: &mut Vec<Card>, i: usize, j: usize)
    requires
        i < old(cards)@.len(),
        j < old(cards)@.len(),
    ensures
        final(cards)@ == swap_at(old(cards)@, i as int, j as int),
{
    let at_i: Card = cards[i];
    let at_j: Card = cards[j];
    cards[i] = at_j;
    cards[j] = at_i;
}

/// Whether `picks` can drive one shuffle pass over `len` cards.
fn picks_are_valid(picks: &[usize], len: usize) -> (valid: bool)
    ensures
        valid == valid_picks(picks@, len as nat),
{
    let steps: usize = if len >= 2 {
        len - 2
    } else {
        0
    };
    if picks.len() != steps {
        return false;
    }
    let mut k: usize = 0;
    while k < picks.len()
        invariant
            k <= picks.len(),
            picks@.len() == pass_steps(len as nat),
            forall|m: int| 0 <= m < k ==> picks@[m] < len - 1,
        decreases picks.len() - k,
    {
        if picks[k] >= len - 1 {
            return false;
        }
        k += 1;
    }
    true
}

/// A deck of cards. A fresh deck holds all fifty-two cards in enumeration order;
/// the last card of the sequence is the top of the deck, the one drawn next.
/// No card ever occurs twice in a deck.
#[derive(Debug, PartialEq)]
pub struct Deck {
    cards: Vec<Card>,
}

impl View for Deck {
    type V = Seq<Card>;

    closed spec fn view(&self) -> Seq<Card> {
        self.cards@
    }
}

impl Deck {
    #[verifier::type_invariant]
    spec fn distinct(&self) -> bool {
        self.cards@.no_duplicates()
    }

    /// A fresh deck: all fifty-two cards, each once, in enumeration order.
    pub fn new() -> (deck: Deck)
        ensures
            deck@ == fresh_deck(),
            deck@.len() == 52,
            deck@.no_duplicates(),
            forall|card: Card| deck@.contains(card),
    {
        proof {
            lemma_fresh_deck_complete();
        }
        Deck { cards: fresh_cards() }
    }

    /// Puts the deck back into the state of a fresh one, whatever it held.
    pub fn reset(&mut self)
        ensures
            final(self)@ == fresh_deck(),
            final(self)@.len() == 52,
            final(self)@.no_duplicates(),
            forall|card: Card| final(self)@.contains(card),
    {
        proof {
            lemma_fresh_deck_complete();
        }
        self.cards = fresh_cards();
    }

    /// The cards of the deck from bottom to top. No card occurs twice, so they
    /// are at most fifty-two.
    pub fn cards(&self) -> (cards: &[Card])
        ensures
            cards@ == self@,
            cards@.no_duplicates(),
            cards@.len() <= 52,
    {
        proof {
            use_type_invariant(self);
            lemma_distinct_cards_at_most_52(self.cards@);
        }
        self.cards.as_slice()
    }

    /// One shuffle pass with the given picks in place of random ones: for the
    /// positions from the last but one down to the second, the card there changes
    /// places with the card at the next pick. Picks that do not fit the deck
    /// (not one for each exchange, or one that is not below the index of the last
    /// card) leave the deck as it is, and the result is `false`.
    pub fn shuffle_with(&mut self, picks: &[usize]) -> (done: bool)
        ensures
            done == valid_picks(picks@, old(self)@.len()),
            done ==> final(self)@ == shuffled(old(self)@, picks@),
            !done ==> final(self)@ == old(self)@,
    {
        proof {
            use_type_invariant(&*self);
        }
        let n: usize = self.cards.len();
        if !picks_are_valid(picks, n) {
            return false;
        }
        let mut cards: Vec<Card> = Vec::new();
        core::mem::swap(&mut self.cards, &mut cards);
        let ghost before = cards@;
        let mut k: usize = 0;
        while k < picks.len()
            invariant
                k <= picks.len(),
                n == before.len(),
                valid_picks(picks@, before.len()),
                cards@ == shuffle_pass(before, picks@, k as nat),
            decreases picks.len() - k,
        {
            proof {
                lemma_shuffle_pass_permutes(before, picks@, k as nat);
            }
            swap_cards(&mut cards, n - 2 - k, picks[k]);
            k += 1;
        }
        proof {
            lemma_shuffled_is_permutation(before, picks@);
        }
        self.cards = cards;
        true
    }

    /// Shuffles the deck in place with one pass of random exchanges: for the
    /// positions from the last but one down to the second, the card there changes
    /// places with the card at a random position below the last. The deck holds
    /// the same cards afterwards, and its last card does not move.
    pub fn shuffle(&mut self)
        ensures
            exists|picks: Seq<usize>| #[trigger]
                valid_picks(picks, old(self)@.len()) && final(self)@ == shuffled(
                    old(self)@,
                    picks,
                ),
            final(self)@.len() == old(self)@.len(),
            final(self)@.to_multiset() == old(self)@.to_multiset(),
            old(self)@.len() > 0 ==> final(self)@.last() == old(self)@.last(),
    {
        let n: usize = self.cards.len();
        let mut picks: Vec<usize> = Vec::new();
        if n >= 3 {
            while picks.len() < n - 2
                invariant
                    n >= 3,
                    picks@.len() <= n - 2,
                    forall|k: int| 0 <= k < picks@.len() ==> picks@[k] < n - 1,
                decreases n - 2 - picks.len(),
            {
                picks.push(random_below(n - 1));
            }
        }
        proof {
            lemma_shuffled_is_permutation(self.cards@, picks@);
        }
        let done = self.shuffle_with(picks.as_slice());
        assert(done);
    }

    /// Takes the top card off the deck. An empty deck gives `None` and stays empty.
    pub fn draw(&mut self) -> (card: Option<Card>)
        ensures
            old(self)@.len() == 0 ==> card.is_none() && final(self)@ == old(self)@,
            old(self)@.len() > 0 ==> card == Some(old(self)@.last()) && final(self)@ == old(
                self,
            )@.drop_last() && !final(self)@.contains(old(self)@.last()),
    {
        proof {
            use_type_invariant(&*self);
        }
        let mut cards: Vec<Card> = Vec::new();
        core::mem::swap(&mut self.cards, &mut cards);
        let ghost before = cards@;
        let card = cards.pop();
        self.cards = cards;
        proof {
            if before.len() > 0 {
                let rest = before.drop_last();
                assert forall|k: int| 0 <= k < rest.len() implies rest[k] != before.last() by {
                    assert(rest[k] == before[k]);
                }
            }
        }
        card
    }

    /// Draws up to `n` cards from the top, fewer if the deck runs out first. The
    /// card that was on top comes first.
    pub fn draw_multiple(&mut self, n: usize) -> (drawn: Vec<Card>)
        ensures
            drawn@.len() == if n <= old(self)@.len() {
                n as nat
            } else {
                old(self)@.len()
            },
            drawn@ == top_cards(old(self)@, drawn@.len()),
            final(self)@ == old(self)@.take(old(self)@.len() - drawn@.len()),
    {
        let ghost before = self@;
        let mut cards: Vec<Card> = Vec::new();
        let mut i: usize = 0;
        while i < n
            invariant
                before == old(self)@,
                i <= n,
                i <= before.len(),
                cards@.len() == i,
                cards@ == top_cards(before, i as nat),
                self@ == before.take(before.len() - i),
            decreases n - i,
        {
            match self.draw() {
                Some(card) => {
                    cards.push(card);
                    assert(cards@ =~= top_cards(before, (i + 1) as nat));
                    assert(self@ =~= before.take(before.len() - (i + 1)));
                },
                None => {
                    assert(before.take(before.len() - i).len() == 0);
                    return cards;
                },
            }
            i += 1;
        }
        cards
    }

    /// The deck as displayed: its cards from bottom to top, with nothing between.
    pub fn to_text(&self) -> (text: String)
        ensures
            text@ == cards_text(self@),
    {
        let mut text = String::new();
        let mut i: usize = 0;
        while i < self.cards.len()
            invariant
                i <= self.cards@.len(),
                text@ == cards_text(self.cards@.take(i as int)),
            decreases self.cards@.len() - i,
        {
            let shown = self.cards[i].to_text();
            text.append(shown.as_str());
            assert(self.cards@.take(i + 1).drop_last() =~= self.cards@.take(i as int));
            i += 1;
        }
        assert(self.cards@.take(i as int) =~= self.cards@);
        text
    }
}

} // verus!
