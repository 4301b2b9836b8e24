//! Tokens: the lexical units that the lexer hands to the parser.

use crate::literal::{Literal, Value};
use vstd::prelude::*;

verus! {

/// The kind of a token.
#[derive(Debug, Clone, Copy, PartialEq, Eq, Structural)]
pub enum TokenType {
    // Single-character tokens.
    LeftParen,
    RightParen,
    LeftBrace,
    RightBrace,
    Comma,
    Dot,
    Minus,
    Plus,
    Slash,
    Star,
    Semicolon,
    NewLine,
    // One or two character tokens.
    Bang,
    BangEqual,
    Equal,
    EqualEqual,
    Greater,
    GreaterEqual,
    Less,
    LessEqual,
    // Literals.
    Identifier,
    String,
    Number,
    // Keywords.
    And,
    Struct,
    Else,
    False,
    Fun,
    For,
    If,
    Or,
    Print,
    Return,
    Super,
    This,
    True,
    Let,
    Const,
    Mut,
    While,
    Loop,
    // End of input.
    Eof,
}

/// A classified lexeme with its decoded value, if it has one, and the line
/// on which it ends.
#[derive(Debug)]
pub struct Token {
    pub typ: TokenType,
    pub lexeme: String,
    pub literal: Option<Literal>,
    pub line: usize,
}

/// The mathematical model of a [`Token`].
pub struct TokenView {
    pub typ: TokenType,
    pub lexeme: Seq<char>,
    pub literal: Option<Value>,
    pub line: int,
}

impl View for Token {
    type V = TokenView;

    open spec fn view(&self) -> TokenView {
        TokenView {
            typ: self.typ,
            lexeme: self.lexeme@,
            literal: match self.literal {
                Some(l) => Some(l@),
                None => None,
            },
            line: self.line as int,
        }
    }
}

impl Clone for Token {
    fn clone(&self) -> (r: Self)
        ensures
            r == *self,
    {
        Token {
            typ: self.typ,
            lexeme: self.lexeme.clone(),
            literal: match &self.literal {
                Some(l) => Some(l.clone()),
                None => None,
            },
            line: self.line,
        }
    }
}

/// The models of a sequence of tokens, in order.
pub open spec fn token_views(tokens: Seq<Token>) -> Seq<TokenView> {
    tokens.map_values(|t: Token| t@)
}

/// The source text of a token kind that is always spelled the same way:
/// punctuation, operators and keywords. `None` for identifiers, literals,
/// line breaks and the end of input.
pub open spec fn fixed_text(typ: TokenType) -> Option<Seq<char>> {
    match typ {
        TokenType::LeftParen => Some(seq!['(']),
        TokenType::RightParen => Some(seq![')']),
        TokenType::LeftBrace => Some(seq!['{']),
        TokenType::RightBrace => Some(seq!['}']),
        TokenType::Comma => Some(seq![',']),
        TokenType::Dot => Some(seq!['.']),
        TokenType::Minus => Some(seq!['-']),
        TokenType::Plus => Some(seq!['+']),
        TokenType::Slash => Some(seq!['/']),
        TokenType::Star => Some(seq!['*']),
        TokenType::Semicolon => Some(seq![';']),
        TokenType::Bang => Some(seq!['!']),
        TokenType::BangEqual => Some(seq!['!', '=']),
        TokenType::Equal => Some(seq!['=']),
        TokenType::EqualEqual => Some(seq!['=', '=']),
        TokenType::Greater => Some(seq!['>']),
        TokenType::GreaterEqual => Some(seq!['>', '=']),
        TokenType::Less => Some(seq!['<']),
        TokenType::LessEqual => Some(seq!['<', '=']),
        TokenType::And => Some("and"@),
        TokenType::Struct => Some("struct"@),
        TokenType::Else => Some("else"@),
        TokenType::False => Some("false"@),
        TokenType::Fun => Some("fun"@),
        TokenType::For => Some("for"@),
        TokenType::If => Some("if"@),
        TokenType::Or => Some("or"@),
        TokenType::Print => Some("print"@),
        TokenType::Return => Some("return"@),
        TokenType::Super => Some("super"@),
        TokenType::This => Some("this"@),
        TokenType::True => Some("true"@),
        TokenType::Let => Some("let"@),
        TokenType::Const => Some("const"@),
        TokenType::Mut => Some("mut"@),
        TokenType::While => Some("while"@),
        TokenType::Loop => Some("loop"@),
        TokenType::NewLine | TokenType::Identifier | TokenType::String | TokenType::Number
        | TokenType::Eof => None,
    }
}

} // verus!
