//! What a parser of policy files reports of a text that it cannot take.
use vstd::prelude::*;

use crate::text::{copy_texts, lemma_texts, texts};

verus! {

/// An error that an action of the grammar raised itself.
#[derive(Debug)]
pub struct ParseErrorMsg {
    pub message: String,
}

/// One syntax error. Positions are byte offsets into the text.
#[derive(Debug)]
pub enum SyntaxError {
    /// The text at `location` starts no token.
    InvalidToken { location: usize },
    /// The text ended where one of the `expected` tokens had to follow.
    UnrecognizedEOF { location: usize, expected: Vec<String> },
    /// A token that is none of the `expected` ones.
    UnrecognizedToken { start: usize, token: String, end: usize, expected: Vec<String> },
    /// A token behind the end of a complete policy.
    ExtraToken { start: usize, token: String, end: usize },
    /// An error of the grammar's own.
    User { error: ParseErrorMsg },
}

/// A [`SyntaxError`] with texts in place of strings.
pub enum SyntaxErrorView {
    InvalidToken { location: usize },
    UnrecognizedEOF { location: usize, expected: Seq<Seq<char>> },
    UnrecognizedToken { start: usize, token: Seq<char>, end: usize, expected: Seq<Seq<char>> },
    ExtraToken { start: usize, token: Seq<char>, end: usize },
    User { message: Seq<char> },
}

/// An error that the parser got over by dropping tokens.
#[derive(Debug)]
pub struct ErrorRecovery {
    pub error: SyntaxError,
    /// The tokens that were dropped, each between its two positions.
    pub dropped_tokens: Vec<(usize, String, usize)>,
}

impl View for SyntaxError {
    type V = SyntaxErrorView;

    open spec fn view(&self) -> SyntaxErrorView {
        match *self {
            SyntaxError::InvalidToken { location } => SyntaxErrorView::InvalidToken { location },
            SyntaxError::UnrecognizedEOF { location, expected } => {
                SyntaxErrorView::UnrecognizedEOF { location, expected: texts(expected@) }
            },
            SyntaxError::UnrecognizedToken { start, token, end, expected } => {
                SyntaxErrorView::UnrecognizedToken {
                    start,
                    token: token@,
                    end,
                    expected: texts(expected@),
                }
            },
            SyntaxError::ExtraToken { start, token, end } => {
                SyntaxErrorView::ExtraToken { start, token: token@, end }
            },
            SyntaxError::User { error } => SyntaxErrorView::User { message: error.message@ },
        }
    }
}

impl SyntaxErrorView {
    /// The headline under which the error is shown.
    pub open spec fn message(self) -> Seq<char> {
        match self {
            SyntaxErrorView::InvalidToken { .. } => "Unknown character"@,
            SyntaxErrorView::UnrecognizedEOF { .. } => "Unexpected end of file"@,
            SyntaxErrorView::UnrecognizedToken { token, .. } => unexpected(token),
            SyntaxErrorView::ExtraToken { token, .. } => unexpected(token),
            SyntaxErrorView::User { message } => message,
        }
    }
}

/// The headline for a token that has no place where it stands.
pub open spec fn unexpected(token: Seq<char>) -> Seq<char> {
    "Unexpected character \""@ + token + "\""@
}

impl SyntaxError {
    /// The headline under which the error is shown.
    pub fn message(&self) -> (message: String)
        ensures
            message@ == self@.message(),
    {
        match self {
            SyntaxError::InvalidToken { .. } => "Unknown character".to_string(),
            SyntaxError::UnrecognizedEOF { .. } => "Unexpected end of file".to_string(),
            SyntaxError::UnrecognizedToken { token, .. } => Self::unexpected_message(token),
            SyntaxError::ExtraToken { token, .. } => Self::unexpected_message(token),
            SyntaxError::User { error } => error.message.clone(),
        }
    }

    fn unexpected_message(token: &String) -> (message: String)
        ensures
            message@ == unexpected(token@),
    {
        let mut message = "Unexpected character \"".to_string();
        message.append(token.as_str());
        message.append("\"");
        message
    }
}

impl Clone for SyntaxError {
    fn clone(&self) -> (copy: Self)
        ensures
            copy@ == self@,
    {
        match self {
            SyntaxError::InvalidToken { location } => {
                SyntaxError::InvalidToken { location: *location }
            },
            SyntaxError::UnrecognizedEOF { location, expected } => {
                SyntaxError::UnrecognizedEOF {
                    location: *location,
                    expected: copy_texts(expected),
                }
            },
            SyntaxError::UnrecognizedToken { start, token, end, expected } => {
                SyntaxError::UnrecognizedToken {
                    start: *start,
                    token: token.clone(),
                    end: *end,
                    expected: copy_texts(expected),
                }
            },
            SyntaxError::ExtraToken { start, token, end } => {
                SyntaxError::ExtraToken { start: *start, token: token.clone(), end: *end }
            },
            SyntaxError::User { error } => {
                SyntaxError::User { error: ParseErrorMsg { message: error.message.clone() } }
            },
        }
    }
}

/// What the headline of each kind of error says, and that a token that it is about stands in it
/// whole, between quotes.
pub proof fn lemma_headlines(error: SyntaxError)
    ensures
        match error {
            SyntaxError::InvalidToken { .. } => error@.message() == "Unknown character"@,
            SyntaxError::UnrecognizedEOF { .. } => error@.message() == "Unexpected end of file"@,
            SyntaxError::UnrecognizedToken { token, .. } => error@.message()
                == "Unexpected character \""@ + token@ + "\""@,
            SyntaxError::ExtraToken { token, .. } => error@.message()
                == "Unexpected character \""@ + token@ + "\""@,
            SyntaxError::User { error: raised } => error@.message() == raised.message@,
        },
{
}

/// Two syntax errors that are the same to the contracts are of one kind, at the same positions and
/// with the same texts.
pub proof fn lemma_syntax_error_view(error: SyntaxError, other: SyntaxError)
    requires
        error@ == other@,
    ensures
        match (error, other) {
            (
                SyntaxError::InvalidToken { location },
                SyntaxError::InvalidToken { location: other_location },
            ) => location == other_location,
            (
                SyntaxError::UnrecognizedEOF { location, expected },
                SyntaxError::UnrecognizedEOF { location: other_location, expected: other_expected },
            ) => {
                &&& location == other_location
                &&& same_strings(expected@, other_expected@)
            },
            (
                SyntaxError::UnrecognizedToken { start, token, end, expected },
                SyntaxError::UnrecognizedToken {
                    start: other_start,
                    token: other_token,
                    end: other_end,
                    expected: other_expected,
                },
            ) => {
                &&& start == other_start
                &&& end == other_end
                &&& token@ == other_token@
                &&& same_strings(expected@, other_expected@)
            },
            (
                SyntaxError::ExtraToken { start, token, end },
                SyntaxError::ExtraToken { start: other_start, token: other_token, end: other_end },
            ) => start == other_start && end == other_end && token@ == other_token@,
            (
                SyntaxError::User { error: raised },
                SyntaxError::User { error: other_raised },
            ) => raised.message@ == other_raised.message@,
            _ => false,
        },
{
    match (error, other) {
        (
            SyntaxError::UnrecognizedEOF { expected, .. },
            SyntaxError::UnrecognizedEOF { expected: other_expected, .. },
        ) => {
            lemma_same_strings(expected@, other_expected@);
        },
        (
            SyntaxError::UnrecognizedToken { expected, .. },
            SyntaxError::UnrecognizedToken { expected: other_expected, .. },
        ) => {
            lemma_same_strings(expected@, other_expected@);
        },
        _ => {},
    }
}

/// Two lists hold the same strings at the same places.
pub open spec fn same_strings(list: Seq<String>, other: Seq<String>) -> bool {
    &&& list.len() == other.len()
    &&& forall|i: int| 0 <= i < list.len() ==> (#[trigger] list[i])@ == other[i]@
}

proof fn lemma_same_strings(list: Seq<String>, other: Seq<String>)
    requires
        texts(list) == texts(other),
    ensures
        same_strings(list, other),
{
    lemma_texts(list);
    lemma_texts(other);
    assert forall|i: int| 0 <= i < list.len() implies (#[trigger] list[i])@ == other[i]@ by {
        assert(list[i]@ == texts(list)[i]);
        assert(other[i]@ == texts(other)[i]);
    }
}

} // verus!
