use blackjack::{card_value, Card, Hand, Suit, Value};

fn hand_of(values: &[Value]) -> Hand {
    let mut hand = Hand::new();
    for value in values {
        hand.add_card(Card::new(Suit::Hearts, *value));
    }
    hand
}

#[test]
fn card_values_follow_the_ranks() {
    let expected: [u8; 13] = [11, 2, 3, 4, 5, 6, 7, 8, 9, 10, 10, 10, 10];
    for suit in Suit::iter() {
        for (value, points) in Value::iter().into_iter().zip(expected) {
            assert_eq!(card_value(&Card::new(suit, value)), points);
        }
    }
}

#[test]
fn ace_and_king_make_twenty_one() {
    assert_eq!(hand_of(&[Value::Ace, Value::King]).get_value(), 21);
    assert_eq!(hand_of(&[Value::King, Value::Ace]).get_value(), 21);
}

#[test]
fn two_aces_and_nine_make_twenty_one() {
    assert_eq!(hand_of(&[Value::Ace, Value::Ace, Value::Nine]).get_value(), 21);
    assert_eq!(hand_of(&[Value::Nine, Value::Ace, Value::Ace]).get_value(), 21);
}

#[test]
fn three_aces_and_eight_make_twenty_one() {
    assert_eq!(
        hand_of(&[Value::Ace, Value::Ace, Value::Ace, Value::Eight]).get_value(),
        21
    );
}

#[test]
fn king_and_queen_make_twenty() {
    assert_eq!(hand_of(&[Value::King, Value::Queen]).get_value(), 20);
}

#[test]
fn small_cards_add_up() {
    assert_eq!(hand_of(&[Value::Two, Value::Three, Value::Four]).get_value(), 9);
}

#[test]
fn lone_ace_counts_eleven() {
    assert_eq!(hand_of(&[Value::Ace]).get_value(), 11);
}

#[test]
fn empty_hand_is_worth_nothing() {
    assert_eq!(Hand::new().get_value(), 0);
    assert_eq!(Hand::new().cards.len(), 0);
}

#[test]
fn aces_count_low_only_as_far_as_needed() {
    assert_eq!(hand_of(&[Value::Ace, Value::Ace]).get_value(), 12);
    assert_eq!(hand_of(&[Value::Ace, Value::Five, Value::Six]).get_value(), 12);
    assert_eq!(hand_of(&[Value::Ace, Value::Five, Value::Five]).get_value(), 21);
    assert_eq!(hand_of(&[Value::Ace, Value::Ace, Value::King, Value::Nine]).get_value(), 21);
    assert_eq!(hand_of(&[Value::Ace, Value::King, Value::Queen]).get_value(), 21);
    assert_eq!(hand_of(&[Value::Ace, Value::King, Value::Queen, Value::Two]).get_value(), 23);
    assert_eq!(hand_of(&[Value::King, Value::Queen, Value::Two]).get_value(), 22);
    assert_eq!(hand_of(&[Value::Ace; 21]).get_value(), 21);
    assert_eq!(hand_of(&[Value::Ace; 22]).get_value(), 22);
}

#[test]
fn value_does_not_depend_on_where_the_aces_stand() {
    let a = hand_of(&[Value::Ace, Value::Seven, Value::Ace, Value::Six]);
    let b = hand_of(&[Value::Seven, Value::Six, Value::Ace, Value::Ace]);
    let c = hand_of(&[Value::Ace, Value::Ace, Value::Six, Value::Seven]);
    assert_eq!(a.get_value(), 15);
    assert_eq!(b.get_value(), 15);
    assert_eq!(c.get_value(), 15);
}

#[test]
fn add_card_appends_and_clear_empties() {
    let mut hand = Hand::new();
    hand.add_card(Card::new(Suit::Clubs, Value::Two));
    hand.add_card(Card::new(Suit::Spades, Value::Jack));
    assert_eq!(
        hand.cards,
        vec![Card::new(Suit::Clubs, Value::Two), Card::new(Suit::Spades, Value::Jack)]
    );
    assert_eq!(hand.get_value(), 12);
    hand.clear();
    assert_eq!(hand, Hand::new());
}

#[test]
fn checked_total_counts_every_ace_high() {
    assert_eq!(Hand::new().checked_total(), Some(0));
    assert_eq!(hand_of(&[Value::Ace, Value::Ace, Value::Nine]).checked_total(), Some(31));
    assert_eq!(hand_of(&[Value::Ace; 23]).checked_total(), Some(253));
    let mut edge = hand_of(&[Value::Ace; 23]);
    edge.add_card(Card::new(Suit::Clubs, Value::Two));
    assert_eq!(edge.checked_total(), Some(255));
    assert_eq!(edge.get_value(), 25);
    assert_eq!(hand_of(&[Value::Ace; 24]).checked_total(), None);
    assert_eq!(hand_of(&[Value::King; 26]).checked_total(), None);
}
