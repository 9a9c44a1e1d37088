use blackjack::input::declines;
use blackjack::{plays_again, read_choice, Choice};

#[test]
fn h_is_a_hit_and_s_a_stand() {
    assert_eq!(read_choice("h"), Choice::Hit);
    assert_eq!(read_choice("s"), Choice::Stand);
    assert_eq!(read_choice("h\n"), Choice::Hit);
    assert_eq!(read_choice("s\r\n"), Choice::Stand);
}

#[test]
fn case_and_surrounding_whitespace_do_not_count() {
    assert_eq!(read_choice("H"), Choice::Hit);
    assert_eq!(read_choice("S"), Choice::Stand);
    assert_eq!(read_choice("  h  "), Choice::Hit);
    assert_eq!(read_choice("\t S \n"), Choice::Stand);
}

#[test]
fn other_input_is_invalid() {
    assert_eq!(read_choice(""), Choice::Invalid);
    assert_eq!(read_choice("\n"), Choice::Invalid);
    assert_eq!(read_choice("hit"), Choice::Invalid);
    assert_eq!(read_choice("stand"), Choice::Invalid);
    assert_eq!(read_choice("h s"), Choice::Invalid);
    assert_eq!(read_choice("hh"), Choice::Invalid);
    assert_eq!(read_choice("x"), Choice::Invalid);
    assert_eq!(read_choice("n"), Choice::Invalid);
}

#[test]
fn tokens_are_taken_as_they_are() {
    assert_eq!(Choice::from_token("h"), Choice::Hit);
    assert_eq!(Choice::from_token("s"), Choice::Stand);
    assert_eq!(Choice::from_token("H"), Choice::Invalid);
    assert_eq!(Choice::from_token(" h"), Choice::Invalid);
    assert_eq!(Choice::from_token(""), Choice::Invalid);
    assert!(declines("n"));
    assert!(!declines("N"));
    assert!(!declines("n "));
    assert!(!declines(""));
}

#[test]
fn only_n_ends_the_game() {
    assert!(!plays_again("n"));
    assert!(!plays_again("N"));
    assert!(!plays_again(" n \n"));
    assert!(plays_again("y"));
    assert!(plays_again(""));
    assert!(plays_again("no"));
    assert!(plays_again("nn"));
    assert!(plays_again("h"));
}
