//! The failure taxonomy. A parse yields exactly one outcome: the complete
//! forest or the first error met. Malformed markup never self-heals.

use crate::position::{PosView, Position};
use crate::tokenizer::{Token, TokenKind, TokenView};
use vstd::prelude::*;

verus! {

/// A structured failure of tokenizing or parsing.
///
/// `TagMissMatch` carries the case-folded open and close names that failed to
/// agree; `UnexpectedToken` the kind that was demanded and the token found in
/// its place; `UnexpectedText` the literal text that was demanded and the
/// token found; `UnterminatedString` the position of a quote whose partner is
/// missing; `NestingTooDeep` reports that elements nest past the fixed bound.
#[derive(Debug, PartialEq)]
pub enum ParseError {
    TagMissMatch { open: String, close: String },
    UnexpectedToken { expected: TokenKind, found: Token },
    UnexpectedText { expected: String, found: Option<Box<Token>> },
    UnterminatedString { pos: Position },
    NestingTooDeep,
}

/// The mathematical value of a `ParseError`.
pub enum ErrorView {
    TagMissMatch { open: Seq<char>, close: Seq<char> },
    UnexpectedToken { expected: TokenKind, found: TokenView },
    UnexpectedText { expected: Seq<char>, found: Option<TokenView> },
    UnterminatedString { pos: PosView },
    NestingTooDeep,
}

impl View for ParseError {
    type V = ErrorView;

    open spec fn view(&self) -> ErrorView {
        match self {
            ParseError::TagMissMatch { open, close } => ErrorView::TagMissMatch {
                open: open@,
                close: close@,
            },
            ParseError::UnexpectedToken { expected, found } => ErrorView::UnexpectedToken {
                expected: *expected,
                found: found@,
            },
            ParseError::UnexpectedText { expected, found } => ErrorView::UnexpectedText {
                expected: expected@,
                found: match found {
                    Some(t) => Some((**t)@),
                    None => None,
                },
            },
            ParseError::UnterminatedString { pos } => ErrorView::UnterminatedString { pos: pos@ },
            ParseError::NestingTooDeep => ErrorView::NestingTooDeep,
        }
    }
}

} // verus!
