//! The rules of one round, as a step function: the caller shows what each step
//! reports, asks the player when it is the player's turn, and steps again.

use crate::card::{Card, Suit, Value};
use crate::deck::Deck;
use crate::hand::{
    ace_count, card_value, countable, hand_value, lemma_hand_value_bounds,
    lemma_raw_total_bounds, lemma_soften_exact, lemma_totals_push, raw_total, Hand,
};
use crate::player::{deck_after_draw, lemma_fresh_deck_top, next_card, Player};
use vstd::prelude::*;

verus! {

/// Where a round stands.
#[derive(Debug, Clone, Copy, PartialEq, Eq, Structural)]
pub enum Phase {
    /// Nothing is dealt yet.
    Deal,
    /// The cards are dealt; the house looks for a blackjack if it shows an ace.
    BlackjackCheck,
    /// The player decides between another card and standing.
    PlayerTurn,
    /// The house draws until it has seventeen or more.
    DealerTurn,
    /// Both stand; the hands are compared.
    Settle,
    /// The round is over.
    Finished,
}

/// What the player answered when asked for a move.
#[derive(Debug, Clone, Copy, PartialEq, Eq, Structural)]
pub enum Choice {
    Hit,
    Stand,
    Invalid,
}

/// How a round ended.
#[derive(Debug, Clone, Copy, PartialEq, Eq, Structural)]
pub enum Outcome {
    PlayerWins,
    HouseWins,
    Push,
}

/// What a step did, for the caller to show.
#[derive(Debug, Clone, Copy, PartialEq, Eq, Structural)]
pub enum Event {
    /// Both hands hold their first two cards.
    Dealt,
    /// The house does not show an ace, so it does not look at its hand.
    NoPeek,
    /// The house shows an ace but has no blackjack.
    NoBlackjack,
    /// The house has a blackjack and the player has not twenty-one.
    HouseBlackjack,
    /// The house has a blackjack and the player has twenty-one too.
    BlackjackPush,
    /// The player took a card and is still in the round.
    PlayerHits,
    /// The player took a card and is over twenty-one.
    PlayerBusts,
    /// The player stands.
    PlayerStands,
    /// The answer was neither a hit nor a stand.
    InvalidInput,
    /// The house took a card and is not over twenty-one.
    HouseHits,
    /// The house took a card and is over twenty-one.
    HouseBusts,
    /// The house has seventeen or more and stands.
    HouseStands,
    /// The player's hand is worth more than the house's.
    PlayerWins,
    /// The house's hand is worth more than the player's.
    HouseWins,
    /// Both hands are worth the same.
    Push,
    /// The round was over already.
    RoundOver,
}

impl Event {
    /// The outcome that the event settles, if it ends the round.
    pub open spec fn outcome_of(self) -> Option<Outcome> {
        match self {
            Event::HouseBlackjack => Some(Outcome::HouseWins),
            Event::BlackjackPush => Some(Outcome::Push),
            Event::PlayerBusts => Some(Outcome::HouseWins),
            Event::HouseBusts => Some(Outcome::PlayerWins),
            Event::PlayerWins => Some(Outcome::PlayerWins),
            Event::HouseWins => Some(Outcome::HouseWins),
            Event::Push => Some(Outcome::Push),
            _ => None,
        }
    }

    /// The line that announces the event, if it has one.
    pub open spec fn message_text(self) -> Option<Seq<char>> {
        match self {
            Event::NoBlackjack => Some("House does not have blackjack."@),
            Event::HouseBlackjack => Some("House wins."@),
            Event::BlackjackPush => Some("Push!"@),
            Event::PlayerBusts => Some("Bust! You lose."@),
            Event::InvalidInput => Some("Invalid input."@),
            Event::HouseHits => Some("House hits.\n"@),
            Event::HouseBusts => Some("House busts! Player wins."@),
            Event::HouseStands => Some("Dealer stands."@),
            Event::PlayerWins => Some("Player wins."@),
            Event::HouseWins => Some("House wins."@),
            Event::Push => Some("Push!"@),
            _ => None,
        }
    }

    /// The outcome that the event settles, if it ends the round.
    pub fn outcome(&self) -> (outcome: Option<Outcome>)
        ensures
            outcome == self.outcome_of(),
    {
        match self {
            Event::HouseBlackjack => Some(Outcome::HouseWins),
            Event::BlackjackPush => Some(Outcome::Push),
            Event::PlayerBusts => Some(Outcome::HouseWins),
            Event::HouseBusts => Some(Outcome::PlayerWins),
            Event::PlayerWins => Some(Outcome::PlayerWins),
            Event::HouseWins => Some(Outcome::HouseWins),
            Event::Push => Some(Outcome::Push),
            _ => None,
        }
    }

    /// The line that announces the event, if it has one.
    pub fn message(&self) -> (text: Option<&'static str>)
        ensures
            text.is_some() == self.message_text().is_some(),
            text matches Some(line) ==> self.message_text() == Some(line@),
    {
        match self {
            Event::NoBlackjack => Some("House does not have blackjack."),
            Event::HouseBlackjack => Some("House wins."),
            Event::BlackjackPush => Some("Push!"),
            Event::PlayerBusts => Some("Bust! You lose."),
            Event::InvalidInput => Some("Invalid input."),
            Event::HouseHits => Some("House hits.\n"),
            Event::HouseBusts => Some("House busts! Player wins."),
            Event::HouseStands => Some("Dealer stands."),
            Event::PlayerWins => Some("Player wins."),
            Event::HouseWins => Some("House wins."),
            Event::Push => Some("Push!"),
            _ => None,
        }
    }
}

/// The deal: four draws in a row, to the player, the house, the player and the
/// house.
pub open spec fn dealt(
    before: Seq<Card>,
    after: Seq<Card>,
    player: Seq<Card>,
    house: Seq<Card>,
) -> bool {
    exists|d1: Seq<Card>, d2: Seq<Card>, d3: Seq<Card>|
        #![trigger deck_after_draw(before, d1), deck_after_draw(d2, d3)]
        {
            &&& deck_after_draw(before, d1)
            &&& deck_after_draw(d1, d2)
            &&& deck_after_draw(d2, d3)
            &&& deck_after_draw(d3, after)
            &&& player == seq![next_card(before), next_card(d2)]
            &&& house == seq![next_card(d1), next_card(d3)]
        }
}

/// What the house finds when it looks for a blackjack. Only a house that shows an
/// ace looks. A house with twenty-one ends the round: a push if the player has
/// twenty-one too, else a win for the house.
pub open spec fn blackjack_check(player: Seq<Card>, house: Seq<Card>) -> (Phase, Event) {
    if house[0].value == Value::Ace {
        if hand_value(house) == 21 {
            if hand_value(player) != 21 {
                (Phase::Finished, Event::HouseBlackjack)
            } else {
                (Phase::Finished, Event::BlackjackPush)
            }
        } else {
            (Phase::PlayerTurn, Event::NoBlackjack)
        }
    } else {
        (Phase::PlayerTurn, Event::NoPeek)
    }
}

/// Where the player stands after taking a card: out with more than twenty-one,
/// else to decide again.
pub open spec fn after_player_hit(player: Seq<Card>) -> (Phase, Event) {
    if hand_value(player) > 21 {
        (Phase::Finished, Event::PlayerBusts)
    } else {
        (Phase::PlayerTurn, Event::PlayerHits)
    }
}

/// Where the house stands after taking a card: out with more than twenty-one,
/// else to draw or stand again.
pub open spec fn after_house_hit(house: Seq<Card>) -> (Phase, Event) {
    if hand_value(house) > 21 {
        (Phase::Finished, Event::HouseBusts)
    } else {
        (Phase::DealerTurn, Event::HouseHits)
    }
}

/// The comparison of the hands: the higher value wins, equal values are a push.
pub open spec fn settlement(player: Seq<Card>, house: Seq<Card>) -> (Phase, Event) {
    if hand_value(player) > hand_value(house) {
        (Phase::Finished, Event::PlayerWins)
    } else if hand_value(player) < hand_value(house) {
        (Phase::Finished, Event::HouseWins)
    } else {
        (Phase::Finished, Event::Push)
    }
}

/// Whether the house can look for a blackjack: it must show a card, and every
/// hand that the look counts must fit the type in which hands are counted. The
/// house's hand is counted if it shows an ace, the player's if the house then
/// has twenty-one.
pub open spec fn can_check(player: Seq<Card>, house: Seq<Card>) -> bool {
    house.len() > 0 && (house[0].value == Value::Ace ==> countable(house) && (hand_value(house)
        == 21 ==> countable(player)))
}

/// Whether a step can be taken: every hand that the step counts must fit the
/// type in which hands are counted, and the house must show a card when it looks
/// for a blackjack.
pub open spec fn can_advance(
    phase: Phase,
    choice: Choice,
    player: Seq<Card>,
    house: Seq<Card>,
    deck: Seq<Card>,
) -> bool {
    match phase {
        Phase::Deal => true,
        Phase::BlackjackCheck => can_check(player, house),
        Phase::PlayerTurn => choice == Choice::Hit ==> countable(player.push(next_card(deck))),
        Phase::DealerTurn => countable(house),
        Phase::Settle => countable(player) && countable(house),
        Phase::Finished => true,
    }
}

/// What holds of the hands at each phase of a round that began with the deal.
pub open spec fn in_play(phase: Phase, player: Seq<Card>, house: Seq<Card>) -> bool {
    match phase {
        Phase::Deal => true,
        Phase::BlackjackCheck => player.len() == 2 && house.len() == 2,
        Phase::PlayerTurn => hand_value(player) <= 21 && countable(house),
        Phase::DealerTurn => countable(player) && countable(house),
        Phase::Settle => countable(player) && countable(house),
        Phase::Finished => true,
    }
}

/// One step of a round: from the phase, the player's answer, the two hands and the
/// deck before it (`p0`, `h0`, `d0`) to the hands and the deck after it (`p1`,
/// `h1`, `d1`), the next phase and the event to show. The answer counts only in
/// the player's turn.
pub open spec fn advanced(
    phase: Phase,
    choice: Choice,
    p0: Seq<Card>,
    h0: Seq<Card>,
    d0: Seq<Card>,
    p1: Seq<Card>,
    h1: Seq<Card>,
    d1: Seq<Card>,
    next: (Phase, Event),
) -> bool {
    let untouched = p1 == p0 && h1 == h0 && d1 == d0;
    match phase {
        Phase::Deal => next == (Phase::BlackjackCheck, Event::Dealt) && dealt(d0, d1, p1, h1),
        Phase::BlackjackCheck => next == blackjack_check(p0, h0) && untouched,
        Phase::PlayerTurn => match choice {
            Choice::Hit => {
                &&& p1 == p0.push(next_card(d0))
                &&& h1 == h0
                &&& deck_after_draw(d0, d1)
                &&& next == after_player_hit(p1)
            },
            Choice::Stand => next == (Phase::DealerTurn, Event::PlayerStands) && untouched,
            Choice::Invalid => next == (Phase::PlayerTurn, Event::InvalidInput) && untouched,
        },
        Phase::DealerTurn => if hand_value(h0) < 17 {
            &&& h1 == h0.push(next_card(d0))
            &&& p1 == p0
            &&& deck_after_draw(d0, d1)
            &&& next == after_house_hit(h1)
        } else {
            next == (Phase::Settle, Event::HouseStands) && untouched
        },
        Phase::Settle => next == settlement(p0, h0) && untouched,
        Phase::Finished => next == (Phase::Finished, Event::RoundOver) && untouched,
    }
}

/// A hand worth twenty-one or less holds at most twenty-one cards, so it fits
/// the type in which hands are counted, and so does the hand with one card more.
pub proof fn lemma_value_in_range_countable(cards: Seq<Card>, card: Card)
    requires
        hand_value(cards) <= 21,
    ensures
        cards.len() <= 21,
        raw_total(cards) <= 231,
        countable(cards),
        countable(cards.push(card)),
{
    lemma_hand_value_bounds(cards);
    lemma_raw_total_bounds(cards);
    lemma_totals_push(cards, card);
}

/// Two cards are never worth more than twenty-one.
pub proof fn lemma_two_cards_in_range(cards: Seq<Card>)
    requires
        cards.len() == 2,
    ensures
        raw_total(cards) <= 22,
        hand_value(cards) <= 21,
{
    lemma_raw_total_bounds(cards);
    lemma_soften_exact(raw_total(cards) as int, ace_count(cards));
}

/// A round that began with the deal can take every step: at each of its phases
/// the hands are such that the step can count them.
pub proof fn lemma_in_play_can_advance(
    phase: Phase,
    choice: Choice,
    player: Seq<Card>,
    house: Seq<Card>,
    deck: Seq<Card>,
)
    requires
        in_play(phase, player, house),
    ensures
        can_advance(phase, choice, player, house, deck),
{
    match phase {
        Phase::BlackjackCheck => {
            lemma_two_cards_in_range(player);
            lemma_two_cards_in_range(house);
        },
        Phase::PlayerTurn => {
            lemma_value_in_range_countable(player, next_card(deck));
        },
        _ => {},
    }
}

/// A step of a round that began with the deal leads to a phase at which the
/// hands are again as that phase has them.
pub proof fn lemma_step_keeps_in_play(
    phase: Phase,
    choice: Choice,
    p0: Seq<Card>,
    h0: Seq<Card>,
    d0: Seq<Card>,
    p1: Seq<Card>,
    h1: Seq<Card>,
    d1: Seq<Card>,
    next: (Phase, Event),
)
    requires
        in_play(phase, p0, h0),
        advanced(phase, choice, p0, h0, d0, p1, h1, d1, next),
    ensures
        in_play(next.0, p1, h1),
{
    match phase {
        Phase::BlackjackCheck => {
            lemma_two_cards_in_range(p0);
            lemma_two_cards_in_range(h0);
        },
        Phase::PlayerTurn => {
            lemma_value_in_range_countable(p0, next_card(d0));
        },
        Phase::DealerTurn => {
            if hand_value(h0) < 17 && hand_value(h1) <= 21 {
                lemma_value_in_range_countable(h1, next_card(d0));
            }
        },
        _ => {},
    }
}

/// A step ends the round exactly when its event settles an outcome.
pub proof fn lemma_round_ends_with_outcome(
    phase: Phase,
    choice: Choice,
    p0: Seq<Card>,
    h0: Seq<Card>,
    d0: Seq<Card>,
    p1: Seq<Card>,
    h1: Seq<Card>,
    d1: Seq<Card>,
    next: (Phase, Event),
)
    requires
        phase != Phase::Finished,
        advanced(phase, choice, p0, h0, d0, p1, h1, d1, next),
    ensures
        next.0 == Phase::Finished <==> next.1.outcome_of().is_some(),
{
}

/// A house blackjack ends the round before the player's turn: with the house
/// showing an ace and holding twenty-one, the round is over after the check, a
/// push if the player holds twenty-one too and a win for the house if not, and
/// no hand has changed.
pub proof fn lemma_house_blackjack_ends_round(
    choice: Choice,
    p0: Seq<Card>,
    h0: Seq<Card>,
    d0: Seq<Card>,
    p1: Seq<Card>,
    h1: Seq<Card>,
    d1: Seq<Card>,
    next: (Phase, Event),
)
    requires
        advanced(Phase::BlackjackCheck, choice, p0, h0, d0, p1, h1, d1, next),
        h0[0].value == Value::Ace,
        hand_value(h0) == 21,
    ensures
        next.0 == Phase::Finished,
        hand_value(p0) == 21 ==> next.1.outcome_of() == Some(Outcome::Push),
        hand_value(p0) != 21 ==> next.1.outcome_of() == Some(Outcome::HouseWins),
        p1 == p0 && h1 == h0 && d1 == d0,
{
}

/// A player who takes a card and is then over twenty-one has lost at once: the
/// round is over and the house's hand is as it was.
pub proof fn lemma_player_bust_ends_round(
    p0: Seq<Card>,
    h0: Seq<Card>,
    d0: Seq<Card>,
    p1: Seq<Card>,
    h1: Seq<Card>,
    d1: Seq<Card>,
    next: (Phase, Event),
)
    requires
        advanced(Phase::PlayerTurn, Choice::Hit, p0, h0, d0, p1, h1, d1, next),
        hand_value(p1) > 21,
    ensures
        next == (Phase::Finished, Event::PlayerBusts),
        next.1.outcome_of() == Some(Outcome::HouseWins),
        h1 == h0,
{
}

/// The house stands on seventeen: in its turn it takes exactly one card if its
/// hand is worth less than seventeen, and with seventeen or more it takes none
/// and the hands go on to be compared.
pub proof fn lemma_house_stands_on_seventeen(
    choice: Choice,
    p0: Seq<Card>,
    h0: Seq<Card>,
    d0: Seq<Card>,
    p1: Seq<Card>,
    h1: Seq<Card>,
    d1: Seq<Card>,
    next: (Phase, Event),
)
    requires
        advanced(Phase::DealerTurn, choice, p0, h0, d0, p1, h1, d1, next),
    ensures
        hand_value(h0) < 17 ==> h1.len() == h0.len() + 1 && next.0 != Phase::Settle,
        hand_value(h0) >= 17 ==> h1 == h0 && next == (Phase::Settle, Event::HouseStands),
        p1 == p0,
{
}

/// Deals a new round: both hands are emptied, then the player, the house, the
/// player and the house each get a card, in that order.
pub fn deal(player: &mut Player, house: &mut Player, deck: &mut Deck)
    ensures
        dealt(old(deck)@, final(deck)@, final(player).hand@, final(house).hand@),
        final(player).name == old(player).name,
        final(house).name == old(house).name,
        old(deck)@.len() >= 4 ==> {
            let cards = old(deck)@;
            let n = cards.len() as int;
            &&& final(player).hand@ == seq![cards[n - 1], cards[n - 3]]
            &&& final(house).hand@ == seq![cards[n - 2], cards[n - 4]]
            &&& final(deck)@ == cards.take(n - 4)
        },
{
    let ghost d0 = deck@;
    player.hand.clear();
    house.hand.clear();
    player.hit(deck);
    let ghost d1 = deck@;
    house.hit(deck);
    let ghost d2 = deck@;
    player.hit(deck);
    let ghost d3 = deck@;
    house.hit(deck);
    proof {
        assert(player.hand@ =~= seq![next_card(d0), next_card(d2)]);
        assert(house.hand@ =~= seq![next_card(d1), next_card(d3)]);
        assert(deck_after_draw(d0, d1) && deck_after_draw(d2, d3));
        if d0.len() >= 4 {
            assert(deck@ =~= d0.take(d0.len() - 4));
        }
    }
}

/// The house's look for a blackjack, on the hands as dealt.
pub fn check_blackjack(player: &Hand, house: &Hand) -> (next: (Phase, Event))
    requires
        can_check(player@, house@),
    ensures
        next == blackjack_check(player@, house@),
{
    if house.cards[0].value == Value::Ace {
        if house.get_value() == 21 {
            if player.get_value() != 21 {
                (Phase::Finished, Event::HouseBlackjack)
            } else {
                (Phase::Finished, Event::BlackjackPush)
            }
        } else {
            (Phase::PlayerTurn, Event::NoBlackjack)
        }
    } else {
        (Phase::PlayerTurn, Event::NoPeek)
    }
}

/// The player's move: a hit takes a card and ends the round if the hand is then
/// over twenty-one; a stand passes the turn to the house; anything else changes
/// nothing and the player is asked again.
pub fn player_turn(choice: Choice, player: &mut Player, deck: &mut Deck) -> (next: (Phase, Event))
    requires
        choice == Choice::Hit ==> countable(old(player).hand@.push(next_card(old(deck)@))),
    ensures
        final(player).name == old(player).name,
        match choice {
            Choice::Hit => {
                &&& final(player).hand@ == old(player).hand@.push(next_card(old(deck)@))
                &&& deck_after_draw(old(deck)@, final(deck)@)
                &&& next == after_player_hit(final(player).hand@)
            },
            Choice::Stand => {
                &&& next == (Phase::DealerTurn, Event::PlayerStands)
                &&& final(player).hand@ == old(player).hand@
                &&& final(deck)@ == old(deck)@
            },
            Choice::Invalid => {
                &&& next == (Phase::PlayerTurn, Event::InvalidInput)
                &&& final(player).hand@ == old(player).hand@
                &&& final(deck)@ == old(deck)@
            },
        },
{
    match choice {
        Choice::Hit => {
            player.hit(deck);
            if player.hand.get_value() > 21 {
                (Phase::Finished, Event::PlayerBusts)
            } else {
                (Phase::PlayerTurn, Event::PlayerHits)
            }
        },
        Choice::Stand => (Phase::DealerTurn, Event::PlayerStands),
        Choice::Invalid => (Phase::PlayerTurn, Event::InvalidInput),
    }
}

/// One move of the house: with less than seventeen it takes a card, and the round
/// ends if its hand is then over twenty-one; with seventeen or more it stands.
pub fn dealer_turn(house: &mut Player, deck: &mut Deck) -> (next: (Phase, Event))
    requires
        countable(old(house).hand@),
    ensures
        final(house).name == old(house).name,
        if hand_value(old(house).hand@) < 17 {
            &&& final(house).hand@ == old(house).hand@.push(next_card(old(deck)@))
            &&& deck_after_draw(old(deck)@, final(deck)@)
            &&& next == after_house_hit(final(house).hand@)
        } else {
            &&& next == (Phase::Settle, Event::HouseStands)
            &&& final(house).hand@ == old(house).hand@
            &&& final(deck)@ == old(deck)@
        },
{
    if house.hand.get_value() < 17 {
        proof {
            lemma_value_in_range_countable(house.hand@, next_card(deck@));
        }
        house.hit(deck);
        if house.hand.get_value() > 21 {
            (Phase::Finished, Event::HouseBusts)
        } else {
            (Phase::DealerTurn, Event::HouseHits)
        }
    } else {
        (Phase::Settle, Event::HouseStands)
    }
}

/// Compares the hands of a round in which both stand.
pub fn settle(player: &Hand, house: &Hand) -> (next: (Phase, Event))
    requires
        countable(player@),
        countable(house@),
    ensures
        next == settlement(player@, house@),
{
    if player.get_value() > house.get_value() {
        (Phase::Finished, Event::PlayerWins)
    } else if player.get_value() < house.get_value() {
        (Phase::Finished, Event::HouseWins)
    } else {
        (Phase::Finished, Event::Push)
    }
}

/// Whether the next step can be taken on these hands and this deck.
pub fn is_ready(
    phase: Phase,
    choice: Choice,
    player: &Player,
    house: &Player,
    deck: &Deck,
) -> (ready: bool)
    ensures
        ready == can_advance(phase, choice, player.hand@, house.hand@, deck@),
{
    match phase {
        Phase::Deal => true,
        Phase::BlackjackCheck => {
            if house.hand.cards.len() == 0 {
                false
            } else if house.hand.cards[0].value == Value::Ace {
                if house.hand.checked_total().is_none() {
                    false
                } else if house.hand.get_value() == 21 {
                    player.hand.checked_total().is_some()
                } else {
                    true
                }
            } else {
                true
            }
        },
        Phase::PlayerTurn => match choice {
            Choice::Hit => {
                let top = deck.cards();
                let next: Card = if top.len() > 0 {
                    top[top.len() - 1]
                } else {
                    Card::new(Suit::Diamonds, Value::King)
                };
                proof {
                    lemma_fresh_deck_top();
                    lemma_totals_push(player.hand@, next);
                }
                match player.hand.checked_total() {
                    Some(total) => card_value(&next) <= u8::MAX - total,
                    None => false,
                }
            },
            _ => true,
        },
        Phase::DealerTurn => house.hand.checked_total().is_some(),
        Phase::Settle => player.hand.checked_total().is_some() && house.hand.checked_total().is_some(),
        Phase::Finished => true,
    }
}

/// Takes one step of a round and says where the round stands then and what to
/// show. The answer of the player counts only in the player's turn. A round that
/// began with the deal can take every step.
pub fn advance(
    phase: Phase,
    choice: Choice,
    player: &mut Player,
    house: &mut Player,
    deck: &mut Deck,
) -> (next: (Phase, Event))
    requires
        can_advance(phase, choice, old(player).hand@, old(house).hand@, old(deck)@),
    ensures
        advanced(
            phase,
            choice,
            old(player).hand@,
            old(house).hand@,
            old(deck)@,
            final(player).hand@,
            final(house).hand@,
            final(deck)@,
            next,
        ),
        final(player).name == old(player).name,
        final(house).name == old(house).name,
        in_play(phase, old(player).hand@, old(house).hand@) ==> in_play(
            next.0,
            final(player).hand@,
            final(house).hand@,
        ),
{
    let next = match phase {
        Phase::Deal => {
            deal(player, house, deck);
            (Phase::BlackjackCheck, Event::Dealt)
        },
        Phase::BlackjackCheck => check_blackjack(&player.hand, &house.hand),
        Phase::PlayerTurn => player_turn(choice, player, deck),
        Phase::DealerTurn => dealer_turn(house, deck),
        Phase::Settle => settle(&player.hand, &house.hand),
        Phase::Finished => (Phase::Finished, Event::RoundOver),
    };
    proof {
        if in_play(phase, old(player).hand@, old(house).hand@) {
            lemma_step_keeps_in_play(
                phase,
                choice,
                old(player).hand@,
                old(house).hand@,
                old(deck)@,
                player.hand@,
                house.hand@,
                deck@,
                next,
            );
        }
    }
    next
}

} // verus!
