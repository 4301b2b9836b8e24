//! A tree-walking interpreter for a small dynamically typed scripting
//! language: a lexer, a recursive-descent parser, the syntax tree they meet
//! on, and an evaluator over a stack of lexical scopes.
//!
//! Numbers are IEEE 754 binary64 values held as their bit patterns. The
//! library compares, negates and classifies them itself; decimal parsing,
//! the four arithmetic operations and decimal printing are handed in by the
//! caller as functions over bit patterns.

pub mod expr;
pub mod interpreter;
pub mod lexer;
pub mod literal;
pub mod number;
pub mod parser;
pub mod text;
pub mod token;

use crate::expr::{stmt_views, Stmt};
use crate::lexer::error::{error_views, LexerError};
use crate::lexer::{reads_numbers, scanned, Lexer};
use crate::parser::error::{parse_error_views, ParseError};
use crate::parser::{program, Parser};
use vstd::prelude::*;

verus! {

/// Why a source text is not a program: the lexical errors, where there are
/// any, and otherwise the parse errors.
#[derive(Debug)]
pub enum SyntaxErrors {
    Lexical(Vec<LexerError>),
    Parse(Vec<ParseError>),
}

/// Turns source text into statements. Numbers are read by `parse`.
///
/// Text with lexical errors is not parsed: all of them are returned. Text
/// without them is parsed, and where a statement fails to parse, all the
/// parse errors are returned.
pub fn scan_and_parse<P: Fn(String) -> Result<u64, String>>(source: &str, parse: &P) -> (r: Result<
    Vec<Stmt>,
    SyntaxErrors,
>)
    requires
        source@.len() < usize::MAX,
        reads_numbers(*parse),
    ensures
        match r {
            Ok(stmts) => {
                &&& scanned(source@, *parse).errors.len() == 0
                &&& program(scanned(source@, *parse).tokens).errors.len() == 0
                &&& stmt_views(stmts@) == program(scanned(source@, *parse).tokens).stmts
            },
            Err(SyntaxErrors::Lexical(errors)) => {
                &&& errors@.len() > 0
                &&& error_views(errors@) == scanned(source@, *parse).errors
            },
            Err(SyntaxErrors::Parse(errors)) => {
                &&& scanned(source@, *parse).errors.len() == 0
                &&& errors@.len() > 0
                &&& parse_error_views(errors@) == program(scanned(source@, *parse).tokens).errors
            },
        },
{
    let mut lexer = Lexer::new();
    let tokens = match lexer.scan(source.to_owned(), parse) {
        Ok(tokens) => tokens,
        Err(errors) => {
            return Err(SyntaxErrors::Lexical(errors));
        },
    };
    let mut parser = Parser::new();
    match parser.parse(tokens) {
        Ok(stmts) => Ok(stmts),
        Err(errors) => Err(SyntaxErrors::Parse(errors)),
    }
}

} // verus!
