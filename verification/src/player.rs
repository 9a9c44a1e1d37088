//! The participants of a round, and how a card comes from the deck into a hand.

use crate::card::{Card, Suit, Value};
use crate::deck::{fresh_deck, lemma_shuffled_is_permutation, shuffled, valid_picks, Deck};
use crate::hand::Hand;
use vstd::prelude::*;

verus! {

/// The card that the next draw takes: the top card of the deck, or, from an empty
/// deck, the top card of a fresh one, which no shuffle pass moves.
pub open spec fn next_card(deck: Seq<Card>) -> Card {
    if deck.len() > 0 {
        deck.last()
    } else {
        fresh_deck().last()
    }
}

/// How one draw changes the deck. A deck with cards loses its top card. An empty
/// deck is replaced by a fresh one that went through one shuffle pass, and that
/// deck loses its top card.
pub open spec fn deck_after_draw(before: Seq<Card>, after: Seq<Card>) -> bool {
    if before.len() > 0 {
        after == before.drop_last()
    } else {
        exists|picks: Seq<usize>| #[trigger]
            valid_picks(picks, 52) && after == shuffled(fresh_deck(), picks).drop_last()
    }
}

/// The last card of a fresh deck is the King of Diamonds.
pub proof fn lemma_fresh_deck_top()
    ensures
        fresh_deck().last() == (Card { suit: Suit::Diamonds, value: Value::King }),
{
}

/// A draw leaves one card fewer in a deck that had cards, and fifty-one cards in
/// place of an empty deck: every card but the one drawn, each once.
pub proof fn lemma_deck_after_draw(before: Seq<Card>, after: Seq<Card>)
    requires
        deck_after_draw(before, after),
    ensures
        before.len() > 0 ==> after.len() == before.len() - 1,
        before.len() == 0 ==> after.len() == 51,
        before.len() == 0 ==> after.to_multiset() == fresh_deck().drop_last().to_multiset(),
        before.len() == 0 ==> !after.contains(next_card(before)),
{
    if before.len() == 0 {
        let picks = choose|picks: Seq<usize>| #[trigger]
            valid_picks(picks, 52) && after == shuffled(fresh_deck(), picks).drop_last();
        let mixed = shuffled(fresh_deck(), picks);
        crate::deck::lemma_fresh_deck_complete();
        lemma_shuffled_is_permutation(fresh_deck(), picks);
        vstd::seq_lib::to_multiset_remove(mixed, 51);
        vstd::seq_lib::to_multiset_remove(fresh_deck(), 51);
        assert(mixed.remove(51) =~= mixed.drop_last());
        assert(fresh_deck().remove(51) =~= fresh_deck().drop_last());
        assert forall|k: int| 0 <= k < after.len() implies after[k] != mixed.last() by {
            assert(after[k] == mixed[k]);
        }
    }
}

/// Draws one card for a hand. An empty deck is first reset and shuffled, so a
/// card always comes.
pub fn draw_card(deck: &mut Deck) -> (card: Card)
    ensures
        card == next_card(old(deck)@),
        deck_after_draw(old(deck)@, final(deck)@),
{
    match deck.draw() {
        Some(card) => card,
        None => {
            deck.reset();
            deck.shuffle();
            let ghost mixed = deck@;
            let drawn = deck.draw();
            proof {
                let picks = choose|picks: Seq<usize>| #[trigger]
                    valid_picks(picks, 52) && mixed == shuffled(fresh_deck(), picks);
                assert(valid_picks(picks, 52) && deck@ == shuffled(fresh_deck(), picks).drop_last());
            }
            drawn.unwrap()
        },
    }
}

/// A participant of the game: the player or the house.
#[derive(Debug)]
pub struct Player {
    pub name: String,
    pub hand: Hand,
}

impl Player {
    /// A participant of that name who holds no cards.
    pub fn new(name: String) -> (player: Player)
        ensures
            player.name == name,
            player.hand@ == Seq::<Card>::empty(),
    {
        Player { name, hand: Hand::new() }
    }

    /// Takes one card from the deck into the hand.
    pub fn hit(&mut self, deck: &mut Deck)
        ensures
            final(self).name == old(self).name,
            final(self).hand@ == old(self).hand@.push(next_card(old(deck)@)),
            deck_after_draw(old(deck)@, final(deck)@),
    {
        let card = draw_card(deck);
        self.hand.add_card(card);
    }
}

} // verus!
