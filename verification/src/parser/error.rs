//! Parse errors.

use crate::token::{Token, TokenView};
use vstd::prelude::*;

verus! {

/// Why a statement could not be parsed.
#[derive(Debug)]
pub enum ParseError {
    /// The token found, and what was expected in its place.
    TokenMismatch(Token, String),
    /// The `=` whose left-hand side is not a variable.
    InvalidAssignmentTarget(Token),
}

/// The mathematical model of a [`ParseError`].
pub enum ParseErrorView {
    TokenMismatch(TokenView, Seq<char>),
    InvalidAssignmentTarget(TokenView),
}

impl View for ParseError {
    type V = ParseErrorView;

    open spec fn view(&self) -> ParseErrorView {
        match self {
            ParseError::TokenMismatch(token, msg) => ParseErrorView::TokenMismatch(token@, msg@),
            ParseError::InvalidAssignmentTarget(token) => ParseErrorView::InvalidAssignmentTarget(
                token@,
            ),
        }
    }
}

/// The models of a sequence of parse errors, in order.
pub open spec fn parse_error_views(errors: Seq<ParseError>) -> Seq<ParseErrorView> {
    errors.map_values(|e: ParseError| e@)
}

impl ParseError {
    /// The failure that reports `token` where `msg` says what was expected.
    pub fn token_mismatch<T>(token: &Token, msg: &str) -> (r: Result<T, ParseError>)
        ensures
            r matches Err(e) && e@ == ParseErrorView::TokenMismatch(token@, msg@),
    {
        Err(ParseError::TokenMismatch(token.clone(), msg.to_owned()))
    }

    /// What the error says: what was expected in place of the token, or
    /// that the target of an assignment is no variable.
    pub fn message(&self) -> (r: String)
        ensures
            r@ == match self@ {
                ParseErrorView::TokenMismatch(_, msg) => msg,
                ParseErrorView::InvalidAssignmentTarget(_) => "Invalid assignment target"@,
            },
    {
        match self {
            ParseError::TokenMismatch(_, msg) => msg.clone(),
            ParseError::InvalidAssignmentTarget(_) => "Invalid assignment target".to_owned(),
        }
    }

    /// The line of the token that the error reports.
    pub fn line(&self) -> (r: usize)
        ensures
            r == match self@ {
                ParseErrorView::TokenMismatch(token, _) => token.line,
                ParseErrorView::InvalidAssignmentTarget(token) => token.line,
            },
    {
        match self {
            ParseError::TokenMismatch(token, _) => token.line,
            ParseError::InvalidAssignmentTarget(token) => token.line,
        }
    }
}

} // verus!
