use blackjack::round::{check_blackjack, deal, dealer_turn, player_turn, settle};
use blackjack::{
    advance, draw_card, is_ready, Card, Choice, Deck, Event, Hand, Outcome, Phase, Player, Suit,
    Value,
};

fn participant(name: &str, values: &[Value]) -> Player {
    let mut player = Player::new(name.to_string());
    for value in values {
        player.hand.add_card(Card::new(Suit::Clubs, *value));
    }
    player
}

fn step(
    phase: Phase,
    choice: Choice,
    player: &mut Player,
    house: &mut Player,
    deck: &mut Deck,
) -> (Phase, Event) {
    assert!(is_ready(phase, choice, player, house, deck));
    advance(phase, choice, player, house, deck)
}

fn empty_deck() -> Deck {
    let mut deck = Deck::new();
    deck.draw_multiple(52);
    deck
}

#[test]
fn new_player_has_a_name_and_no_cards() {
    let player = Player::new("Player".to_string());
    assert_eq!(player.name, "Player");
    assert_eq!(player.hand, Hand::new());
}

#[test]
fn hit_moves_the_top_card_into_the_hand() {
    let mut player = Player::new("Player".to_string());
    let mut deck = Deck::new();
    player.hit(&mut deck);
    player.hit(&mut deck);
    assert_eq!(
        player.hand.cards,
        vec![Card::new(Suit::Diamonds, Value::King), Card::new(Suit::Diamonds, Value::Queen)]
    );
    assert_eq!(deck.cards().len(), 50);
    assert_eq!(player.name, "Player");
}

#[test]
fn drawing_a_card_takes_the_top_of_the_deck() {
    let mut deck = Deck::new();
    deck.draw_multiple(3);
    assert_eq!(draw_card(&mut deck), Card::new(Suit::Diamonds, Value::Ten));
    assert_eq!(deck.cards().len(), 48);
}

#[test]
fn drawing_from_an_empty_deck_reshuffles() {
    let mut deck = empty_deck();
    let card = draw_card(&mut deck);
    assert_eq!(card, Card::new(Suit::Diamonds, Value::King));
    assert_eq!(deck.cards().len(), 51);
    assert!(!deck.cards().contains(&card));
    for suit in Suit::iter() {
        for value in Value::iter() {
            let other = Card::new(suit, value);
            if other != card {
                assert_eq!(deck.cards().iter().filter(|c| **c == other).count(), 1);
            }
        }
    }
}

#[test]
fn deal_gives_two_cards_each_in_turn() {
    let mut player = participant("Player", &[Value::Two, Value::Two, Value::Two]);
    let mut house = participant("Dealer", &[Value::Three]);
    let mut deck = Deck::new();
    deal(&mut player, &mut house, &mut deck);
    assert_eq!(
        player.hand.cards,
        vec![Card::new(Suit::Diamonds, Value::King), Card::new(Suit::Diamonds, Value::Jack)]
    );
    assert_eq!(
        house.hand.cards,
        vec![Card::new(Suit::Diamonds, Value::Queen), Card::new(Suit::Diamonds, Value::Ten)]
    );
    assert_eq!(deck.cards(), &Deck::new().cards()[..48]);
    assert_eq!(player.name, "Player");
    assert_eq!(house.name, "Dealer");
}

#[test]
fn deal_reshuffles_when_the_deck_runs_out() {
    let mut player = Player::new("Player".to_string());
    let mut house = Player::new("Dealer".to_string());
    let mut deck = Deck::new();
    deck.draw_multiple(50);
    let (phase, event) = step(Phase::Deal, Choice::Invalid, &mut player, &mut house, &mut deck);
    assert_eq!((phase, event), (Phase::BlackjackCheck, Event::Dealt));
    assert_eq!(player.hand.cards[0], Card::new(Suit::Spades, Value::Two));
    assert_eq!(house.hand.cards[0], Card::new(Suit::Spades, Value::Ace));
    assert_eq!(player.hand.cards[1], Card::new(Suit::Diamonds, Value::King));
    assert_eq!(house.hand.cards.len(), 2);
    assert_eq!(deck.cards().len(), 50);
}

#[test]
fn dealer_blackjack_against_twenty_one_is_a_push() {
    let mut player = participant("Player", &[Value::Ace, Value::Queen]);
    let mut house = participant("Dealer", &[Value::Ace, Value::King]);
    let mut deck = Deck::new();
    let (phase, event) =
        step(Phase::BlackjackCheck, Choice::Hit, &mut player, &mut house, &mut deck);
    assert_eq!(phase, Phase::Finished);
    assert_eq!(event, Event::BlackjackPush);
    assert_eq!(event.message(), Some("Push!"));
    assert_eq!(event.outcome(), Some(Outcome::Push));
}

#[test]
fn dealer_blackjack_beats_twenty_without_a_player_turn() {
    let mut player = participant("Player", &[Value::King, Value::Queen]);
    let mut house = participant("Dealer", &[Value::Ace, Value::King]);
    let mut deck = Deck::new();
    let (phase, event) =
        step(Phase::BlackjackCheck, Choice::Hit, &mut player, &mut house, &mut deck);
    assert_eq!(phase, Phase::Finished);
    assert_eq!(event, Event::HouseBlackjack);
    assert_eq!(event.message(), Some("House wins."));
    assert_eq!(event.outcome(), Some(Outcome::HouseWins));
    assert_eq!(player.hand.cards.len(), 2);
    assert_eq!(house.hand.cards.len(), 2);
    assert_eq!(deck, Deck::new());
}

#[test]
fn dealer_ace_without_blackjack_is_announced() {
    let player = participant("Player", &[Value::King, Value::Queen]);
    let house = participant("Dealer", &[Value::Ace, Value::Nine]);
    let (phase, event) = check_blackjack(&player.hand, &house.hand);
    assert_eq!(phase, Phase::PlayerTurn);
    assert_eq!(event, Event::NoBlackjack);
    assert_eq!(event.message(), Some("House does not have blackjack."));
    assert_eq!(event.outcome(), None);
}

#[test]
fn dealer_looks_only_behind_an_ace() {
    let player = participant("Player", &[Value::King, Value::Queen]);
    let house = participant("Dealer", &[Value::King, Value::Ace]);
    let (phase, event) = check_blackjack(&player.hand, &house.hand);
    assert_eq!(phase, Phase::PlayerTurn);
    assert_eq!(event, Event::NoPeek);
    assert_eq!(event.message(), None);
}

#[test]
fn player_bust_ends_the_round_at_once() {
    let mut player = participant("Player", &[Value::King, Value::Queen]);
    let mut house = participant("Dealer", &[Value::Two, Value::Three]);
    let mut deck = Deck::new();
    let (phase, event) = step(Phase::PlayerTurn, Choice::Hit, &mut player, &mut house, &mut deck);
    assert_eq!(phase, Phase::Finished);
    assert_eq!(event, Event::PlayerBusts);
    assert_eq!(event.message(), Some("Bust! You lose."));
    assert_eq!(event.outcome(), Some(Outcome::HouseWins));
    assert_eq!(player.hand.get_value(), 30);
    assert_eq!(house.hand.cards.len(), 2);
    assert_eq!(
        step(phase, Choice::Hit, &mut player, &mut house, &mut deck),
        (Phase::Finished, Event::RoundOver)
    );
    assert_eq!(house.hand.cards.len(), 2);
    assert_eq!(player.hand.cards.len(), 3);
}

#[test]
fn player_hit_within_range_keeps_the_turn() {
    let mut player = participant("Player", &[Value::Two, Value::Three]);
    let mut deck = Deck::new();
    let (phase, event) = player_turn(Choice::Hit, &mut player, &mut deck);
    assert_eq!((phase, event), (Phase::PlayerTurn, Event::PlayerHits));
    assert_eq!(player.hand.get_value(), 15);
    assert_eq!(deck.cards().len(), 51);
    let (phase, event) = player_turn(Choice::Hit, &mut player, &mut deck);
    assert_eq!((phase, event), (Phase::Finished, Event::PlayerBusts));
    assert_eq!(player.hand.get_value(), 25);
}

#[test]
fn player_hit_to_exactly_twenty_one_is_no_bust() {
    let mut player = participant("Player", &[Value::Five, Value::Six]);
    let mut deck = Deck::new();
    assert_eq!(
        player_turn(Choice::Hit, &mut player, &mut deck),
        (Phase::PlayerTurn, Event::PlayerHits)
    );
    assert_eq!(player.hand.get_value(), 21);
}

#[test]
fn stand_passes_the_turn_to_the_house() {
    let mut player = participant("Player", &[Value::Two, Value::Three]);
    let mut deck = Deck::new();
    let (phase, event) = player_turn(Choice::Stand, &mut player, &mut deck);
    assert_eq!((phase, event), (Phase::DealerTurn, Event::PlayerStands));
    assert_eq!(player.hand.cards.len(), 2);
    assert_eq!(deck, Deck::new());
}

#[test]
fn invalid_input_changes_nothing() {
    let mut player = participant("Player", &[Value::Two, Value::Three]);
    let mut deck = Deck::new();
    let (phase, event) = player_turn(Choice::Invalid, &mut player, &mut deck);
    assert_eq!((phase, event), (Phase::PlayerTurn, Event::InvalidInput));
    assert_eq!(event.message(), Some("Invalid input."));
    assert_eq!(player.hand.cards.len(), 2);
    assert_eq!(deck, Deck::new());
}

#[test]
fn dealer_with_sixteen_must_hit() {
    let mut player = participant("Player", &[Value::King, Value::Queen]);
    let mut house = participant("Dealer", &[Value::Ten, Value::Six]);
    let mut deck = Deck::new();
    let (phase, event) =
        step(Phase::DealerTurn, Choice::Stand, &mut player, &mut house, &mut deck);
    assert_eq!(house.hand.cards.len(), 3);
    assert_eq!(deck.cards().len(), 51);
    assert_eq!(phase, Phase::Finished);
    assert_eq!(event, Event::HouseBusts);
    assert_eq!(event.message(), Some("House busts! Player wins."));
    assert_eq!(event.outcome(), Some(Outcome::PlayerWins));
}

#[test]
fn dealer_with_seventeen_must_stand() {
    let mut player = participant("Player", &[Value::King, Value::Queen]);
    let mut house = participant("Dealer", &[Value::Ten, Value::Seven]);
    let mut deck = Deck::new();
    let (phase, event) =
        step(Phase::DealerTurn, Choice::Hit, &mut player, &mut house, &mut deck);
    assert_eq!(phase, Phase::Settle);
    assert_eq!(event, Event::HouseStands);
    assert_eq!(event.message(), Some("Dealer stands."));
    assert_eq!(house.hand.cards.len(), 2);
    assert_eq!(deck, Deck::new());
}

#[test]
fn dealer_with_soft_seventeen_stands() {
    let mut house = participant("Dealer", &[Value::Ace, Value::Six]);
    let mut deck = Deck::new();
    assert_eq!(dealer_turn(&mut house, &mut deck), (Phase::Settle, Event::HouseStands));
    assert_eq!(house.hand.cards.len(), 2);
}

#[test]
fn dealer_keeps_hitting_below_seventeen() {
    let mut house = participant("Dealer", &[Value::Two, Value::Three]);
    let mut deck = Deck::new();
    deck.draw_multiple(47);
    let (phase, event) = dealer_turn(&mut house, &mut deck);
    assert_eq!((phase, event), (Phase::DealerTurn, Event::HouseHits));
    assert_eq!(event.message(), Some("House hits.\n"));
    assert_eq!(house.hand.get_value(), 10);
    assert_eq!(dealer_turn(&mut house, &mut deck), (Phase::DealerTurn, Event::HouseHits));
    assert_eq!(house.hand.get_value(), 14);
    assert_eq!(dealer_turn(&mut house, &mut deck), (Phase::DealerTurn, Event::HouseHits));
    assert_eq!(house.hand.get_value(), 17);
    assert_eq!(dealer_turn(&mut house, &mut deck), (Phase::Settle, Event::HouseStands));
    assert_eq!(house.hand.cards.len(), 5);
    assert_eq!(deck.cards().len(), 2);
}

#[test]
fn higher_hand_wins_and_equal_hands_push() {
    let twenty = participant("a", &[Value::King, Value::Queen]);
    let nineteen = participant("b", &[Value::King, Value::Nine]);
    let also_twenty = participant("c", &[Value::Ace, Value::Nine]);
    let won = settle(&twenty.hand, &nineteen.hand);
    assert_eq!(won, (Phase::Finished, Event::PlayerWins));
    assert_eq!(won.1.message(), Some("Player wins."));
    assert_eq!(won.1.outcome(), Some(Outcome::PlayerWins));
    let lost = settle(&nineteen.hand, &twenty.hand);
    assert_eq!(lost, (Phase::Finished, Event::HouseWins));
    assert_eq!(lost.1.message(), Some("House wins."));
    assert_eq!(lost.1.outcome(), Some(Outcome::HouseWins));
    let tie = settle(&twenty.hand, &also_twenty.hand);
    assert_eq!(tie, (Phase::Finished, Event::Push));
    assert_eq!(tie.1.message(), Some("Push!"));
    assert_eq!(tie.1.outcome(), Some(Outcome::Push));
}

#[test]
fn events_without_a_line_or_an_outcome() {
    for event in [Event::Dealt, Event::NoPeek, Event::PlayerHits, Event::PlayerStands, Event::RoundOver] {
        assert_eq!(event.message(), None);
        assert_eq!(event.outcome(), None);
    }
    for event in [Event::NoBlackjack, Event::InvalidInput, Event::HouseHits, Event::HouseStands] {
        assert!(event.message().is_some());
        assert_eq!(event.outcome(), None);
    }
}

#[test]
fn round_from_a_fresh_deck_is_a_push() {
    let mut player = Player::new("Player".to_string());
    let mut house = Player::new("Dealer".to_string());
    let mut deck = Deck::new();
    let mut phase = Phase::Deal;
    let mut events = Vec::new();
    while phase != Phase::Finished {
        let (next, event) = step(phase, Choice::Stand, &mut player, &mut house, &mut deck);
        events.push(event);
        phase = next;
    }
    assert_eq!(
        events,
        vec![Event::Dealt, Event::NoPeek, Event::PlayerStands, Event::HouseStands, Event::Push]
    );
    assert_eq!(player.hand.get_value(), 20);
    assert_eq!(house.hand.get_value(), 20);
    assert_eq!(deck.cards().len(), 48);
}

#[test]
fn rounds_on_a_shuffled_deck_always_end() {
    let mut player = Player::new("Player".to_string());
    let mut house = Player::new("Dealer".to_string());
    let mut deck = Deck::new();
    deck.shuffle();
    for round in 0..200 {
        let mut phase = Phase::Deal;
        let mut last = Event::RoundOver;
        let mut steps = 0;
        while phase != Phase::Finished {
            let choice = if player.hand.cards.len() < 2 + round % 3 {
                Choice::Hit
            } else {
                Choice::Stand
            };
            let (next, event) = step(phase, choice, &mut player, &mut house, &mut deck);
            assert_eq!(next == Phase::Finished, event.outcome().is_some());
            phase = next;
            last = event;
            steps += 1;
            assert!(steps < 60);
        }
        assert!(last.outcome().is_some());
        assert!(deck.cards().len() <= 52);
    }
}

#[test]
fn steps_are_refused_on_hands_too_large_to_count() {
    let heavy = participant("Player", &[Value::Ace; 24]);
    let light = participant("Dealer", &[Value::Ace, Value::King]);
    let nobody = Player::new("Nobody".to_string());
    let deck = Deck::new();
    assert!(!is_ready(Phase::Settle, Choice::Stand, &heavy, &light, &deck));
    assert!(!is_ready(Phase::Settle, Choice::Stand, &light, &heavy, &deck));
    assert!(is_ready(Phase::Settle, Choice::Stand, &light, &light, &deck));
    assert!(!is_ready(Phase::DealerTurn, Choice::Stand, &light, &heavy, &deck));
    assert!(is_ready(Phase::DealerTurn, Choice::Stand, &heavy, &light, &deck));
    assert!(!is_ready(Phase::BlackjackCheck, Choice::Stand, &light, &nobody, &deck));
    assert!(!is_ready(Phase::BlackjackCheck, Choice::Stand, &light, &heavy, &deck));
    assert!(!is_ready(Phase::BlackjackCheck, Choice::Stand, &heavy, &light, &deck));
    assert!(is_ready(Phase::BlackjackCheck, Choice::Stand, &light, &light, &deck));
    assert!(!is_ready(Phase::PlayerTurn, Choice::Hit, &heavy, &light, &deck));
    assert!(is_ready(Phase::PlayerTurn, Choice::Stand, &heavy, &light, &deck));
    assert!(is_ready(Phase::PlayerTurn, Choice::Invalid, &heavy, &light, &deck));
    assert!(is_ready(Phase::Deal, Choice::Stand, &heavy, &heavy, &deck));
    assert!(is_ready(Phase::Finished, Choice::Stand, &heavy, &heavy, &deck));
}

#[test]
fn a_hit_is_ready_while_the_next_card_still_fits() {
    let mut player = participant("Player", &[Value::Ace; 22]);
    player.hand.add_card(Card::new(Suit::Clubs, Value::Three));
    let house = participant("Dealer", &[Value::Two, Value::Two]);
    assert_eq!(player.hand.checked_total(), Some(245));
    let full = Deck::new();
    assert!(is_ready(Phase::PlayerTurn, Choice::Hit, &player, &house, &full));
    assert!(is_ready(Phase::PlayerTurn, Choice::Hit, &player, &house, &empty_deck()));
    let mut aces_up = Deck::new();
    aces_up.draw_multiple(12);
    assert_eq!(aces_up.cards()[39], Card::new(Suit::Diamonds, Value::Ace));
    assert!(!is_ready(Phase::PlayerTurn, Choice::Hit, &player, &house, &aces_up));
}
