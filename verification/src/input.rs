//! What the player typed, read as a move.

use crate::round::Choice;
use crate::text::{trim, trimmed};
use vstd::prelude::*;
use vstd::string::*;

verus! {

/// How a line of input, or its absence, is taken.
#[derive(Clone, Copy, Debug, PartialEq, Eq, Hash, Structural)]
pub enum Reply {
    /// The line names a move.
    Play(Choice),
    /// The line names no move: the player is asked again.
    Retry,
    /// The input has come to its end: the player stands, and the session
    /// ends with this round.
    Closed,
}

/// The move that a token names: the lower-case letter `h` is a hit, `s` is
/// a stand, and no other token is a move.
pub open spec fn choice_of(token: Seq<char>) -> Option<Choice> {
    if token == seq!['h'] {
        Some(Choice::Hit)
    } else if token == seq!['s'] {
        Some(Choice::Stand)
    } else {
        None
    }
}

/// How a line of input is taken, or the end of input where there is none.
pub open spec fn reply_of(line: Option<Seq<char>>) -> Reply {
    match line {
        None => Reply::Closed,
        Some(text) => match choice_of(trimmed(text)) {
            Some(choice) => Reply::Play(choice),
            None => Reply::Retry,
        },
    }
}

impl Reply {
    /// The move to make on this reply: the one named, a stand at the end
    /// of input, none where the player is asked again.
    pub open spec fn spec_choice(self) -> Option<Choice> {
        match self {
            Reply::Play(choice) => Some(choice),
            Reply::Retry => None,
            Reply::Closed => Some(Choice::Stand),
        }
    }

    pub fn choice(self) -> (choice: Option<Choice>)
        ensures
            choice == self.spec_choice(),
    {
        match self {
            Reply::Play(choice) => Some(choice),
            Reply::Retry => None,
            Reply::Closed => Some(Choice::Stand),
        }
    }

    /// Whether the session ends once this reply is acted on.
    pub fn ends_session(self) -> (yes: bool)
        ensures
            yes == (self == Reply::Closed),
    {
        match self {
            Reply::Closed => true,
            _ => false,
        }
    }
}

/// Reads a token, with nothing around it, as a move.
pub fn choice_of_token(token: &str) -> (choice: Option<Choice>)
    ensures
        choice == choice_of(token@),
{
    if token.unicode_len() != 1 {
        return None;
    }
    let letter = token.get_char(0);
    if letter == 'h' {
        assert(token@ =~= seq!['h']);
        Some(Choice::Hit)
    } else if letter == 's' {
        assert(token@ =~= seq!['s']);
        Some(Choice::Stand)
    } else {
        None
    }
}

/// Reads a line as a move, whatever whitespace surrounds it.
pub fn parse_choice(line: &str) -> (choice: Option<Choice>)
    ensures
        choice == choice_of(trimmed(line@)),
{
    choice_of_token(trim(line))
}

/// Takes a line of input, or the end of input where `line` is `None`.
pub fn interpret_reply(line: Option<&str>) -> (reply: Reply)
    ensures
        reply == reply_of(
            match line {
                Some(text) => Some(text@),
                None => None,
            },
        ),
{
    match line {
        None => Reply::Closed,
        Some(text) => match parse_choice(text) {
            Some(choice) => Reply::Play(choice),
            None => Reply::Retry,
        },
    }
}

} // verus!
