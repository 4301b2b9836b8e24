//! Lexical errors.

use vstd::prelude::*;

verus! {

/// What went wrong while scanning, and on which line.
#[derive(Debug)]
pub struct LexerError {
    pub msg: String,
    pub line: usize,
}

/// The mathematical model of a [`LexerError`].
pub struct LexerErrorView {
    pub msg: Seq<char>,
    pub line: int,
}

impl View for LexerError {
    type V = LexerErrorView;

    open spec fn view(&self) -> LexerErrorView {
        LexerErrorView { msg: self.msg@, line: self.line as int }
    }
}

impl LexerError {
    pub fn new(msg: String, line: usize) -> (r: Self)
        ensures
            r.msg == msg,
            r.line == line,
    {
        Self { msg, line }
    }
}

/// The models of a sequence of lexical errors, in order.
pub open spec fn error_views(errors: Seq<LexerError>) -> Seq<LexerErrorView> {
    errors.map_values(|e: LexerError| e@)
}

} // verus!
