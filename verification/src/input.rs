//! What the player typed, read as a move or as the answer to "play again?".

use crate::round::Choice;
use vstd::prelude::*;

verus! {

/// The text without the whitespace at its two ends, as `str::trim` gives it.
pub uninterp spec fn trimmed(text: Seq<char>) -> Seq<char>;

/// The text in lower case, as `str::to_lowercase` gives it.
pub uninterp spec fn lowercased(text: Seq<char>) -> Seq<char>;

/// A typed line as it is compared: trimmed, then in lower case.
pub open spec fn normalized(line: Seq<char>) -> Seq<char> {
    lowercased(trimmed(line))
}

/// Calls `str::trim`, which hands back the part of the text between its leading
/// and trailing whitespace.
///
/// Trusted: the result depends on the text alone and is what `trimmed` names.
#[verifier::external_body]
fn trim(line: &str) -> (token: &str)
    ensures
        token@ == trimmed(line@),
{
    line.trim()
}

/// Calls `str::to_lowercase`, which hands back the lower-case form of the text
/// as a new string.
///
/// Trusted: the result depends on the text alone and is what `lowercased` names.
#[verifier::external_body]
fn to_lowercase(text: &str) -> (lower: String)
    ensures
        lower@ == lowercased(text@),
{
    text.to_lowercase()
}

/// Whether the text is the one character `letter`.
fn is_letter(token: &str, letter: char) -> (same: bool)
    ensures
        same == (token@ == seq![letter]),
{
    let same = token.unicode_len() == 1 && token.get_char(0) == letter;
    assert(same == (token@ =~= seq![letter]));
    same
}

impl Choice {
    /// The move that a normalized answer stands for: "h" a hit, "s" a stand,
    /// anything else no move.
    pub open spec fn of_token(token: Seq<char>) -> Choice {
        if token == seq!['h'] {
            Choice::Hit
        } else if token == seq!['s'] {
            Choice::Stand
        } else {
            Choice::Invalid
        }
    }

    /// The move that a normalized answer stands for.
    pub fn from_token(token: &str) -> (choice: Choice)
        ensures
            choice == Choice::of_token(token@),
    {
        if is_letter(token, 'h') {
            Choice::Hit
        } else if is_letter(token, 's') {
            Choice::Stand
        } else {
            Choice::Invalid
        }
    }
}

/// The move that a typed line asks for, whatever its case and the whitespace
/// around it.
pub fn read_choice(line: &str) -> (choice: Choice)
    ensures
        choice == Choice::of_token(normalized(line@)),
{
    let lower = to_lowercase(trim(line));
    Choice::from_token(lower.as_str())
}

/// Whether a normalized answer to "play again?" says no: only "n" does.
pub fn declines(token: &str) -> (no: bool)
    ensures
        no == (token@ == seq!['n']),
{
    is_letter(token, 'n')
}

/// Whether a typed line asks for another round: every line does but "n",
/// whatever its case and the whitespace around it.
pub fn plays_again(line: &str) -> (again: bool)
    ensures
        again == (normalized(line@) != seq!['n']),
{
    let lower = to_lowercase(trim(line));
    !declines(lower.as_str())
}

} // verus!
