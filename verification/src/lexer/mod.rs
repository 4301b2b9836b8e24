//! The lexer: source text to tokens, in one pass from left to right.
//!
//! A line feed only advances the line counter; it yields no token, so in
//! scanned text a statement ends with `;` or with the text.

pub mod error;
pub mod unescape;

use crate::lexer::error::{error_views, LexerError, LexerErrorView};
use crate::lexer::unescape::{unescape, unescaped};
use crate::literal::{Literal, Value};
use crate::text;
use crate::token::{fixed_text, token_views, Token, TokenType, TokenView};
use vstd::prelude::*;
use vstd::slice::slice_subrange;
use vstd::string::StrSliceExecFns;

verus! {

/// A place in the source: an offset in characters and the line it is on.
pub struct Cursor {
    pub pos: int,
    pub line: int,
}

/// What scanning one lexical unit does: where it stops, on which line, and
/// the token or the error that it yields, if any.
pub struct Step {
    pub pos: int,
    pub line: int,
    pub token: Option<TokenView>,
    pub error: Option<LexerErrorView>,
}

/// The character at offset `i`, or NUL past the end.
pub open spec fn char_at(src: Seq<char>, i: int) -> char {
    if 0 <= i < src.len() {
        src[i]
    } else {
        '\0'
    }
}

/// Where a line comment that is being read at `pos` stops: at the next line
/// feed, which is left unread, or at the end of the text.
pub open spec fn line_comment_end(src: Seq<char>, pos: int) -> int
    decreases src.len() - pos,
{
    if pos < 0 || pos >= src.len() || src[pos] == '\n' {
        pos
    } else {
        line_comment_end(src, pos + 1)
    }
}

/// Where a block comment stops that is being read at `pos` with `depth`
/// comments open inside it: behind the `*/` that closes it, or at the end
/// of the text. The scan moves one character at a time, so `/*/` opens one
/// comment and closes one.
pub open spec fn block_comment_end(src: Seq<char>, pos: int, depth: nat, line: int) -> Cursor
    decreases src.len() - pos,
{
    if pos < 0 || pos >= src.len() {
        Cursor { pos, line }
    } else if src[pos] == '\n' {
        block_comment_end(src, pos + 1, depth, line + 1)
    } else if src[pos] == '/' && char_at(src, pos + 1) == '*' {
        block_comment_end(src, pos + 1, depth + 1, line)
    } else if src[pos] == '*' && char_at(src, pos + 1) == '/' {
        if depth == 0 {
            Cursor { pos: pos + 2, line }
        } else {
            block_comment_end(src, pos + 1, (depth - 1) as nat, line)
        }
    } else {
        block_comment_end(src, pos + 1, depth, line)
    }
}

/// Where the body of a string literal that is being read at `pos` stops: at
/// the next `"` or at the end of the text, with the line reached there.
pub open spec fn string_end(src: Seq<char>, pos: int, line: int) -> Cursor
    decreases src.len() - pos,
{
    if pos < 0 || pos >= src.len() || src[pos] == '"' {
        Cursor { pos, line }
    } else {
        string_end(
            src,
            pos + 1,
            if src[pos] == '\n' {
                line + 1
            } else {
                line
            },
        )
    }
}

/// The end of the run of digits that starts at `pos`.
pub open spec fn digits_end(src: Seq<char>, pos: int) -> int
    decreases src.len() - pos,
{
    if pos < 0 || pos >= src.len() || !text::is_digit(src[pos]) {
        pos
    } else {
        digits_end(src, pos + 1)
    }
}

/// The end of the number that starts at `start`: a run of digits, and a
/// fraction only where a digit follows the dot.
pub open spec fn number_end(src: Seq<char>, start: int) -> int {
    let whole = digits_end(src, start + 1);
    if char_at(src, whole) == '.' && text::is_digit(char_at(src, whole + 1)) {
        digits_end(src, whole + 1)
    } else {
        whole
    }
}

/// Whether a character may continue an identifier.
pub open spec fn is_word_char(c: char) -> bool {
    text::is_alphanumeric(c) || c == '_'
}

/// The end of the run of identifier characters that starts at `pos`.
pub open spec fn word_end(src: Seq<char>, pos: int) -> int
    decreases src.len() - pos,
{
    if pos < 0 || pos >= src.len() || !is_word_char(src[pos]) {
        pos
    } else {
        word_end(src, pos + 1)
    }
}

/// The keyword that a word spells, if it spells one.
pub open spec fn keyword(word: Seq<char>) -> Option<TokenType> {
    if word == "and"@ {
        Some(TokenType::And)
    } else if word == "struct"@ {
        Some(TokenType::Struct)
    } else if word == "else"@ {
        Some(TokenType::Else)
    } else if word == "false"@ {
        Some(TokenType::False)
    } else if word == "for"@ {
        Some(TokenType::For)
    } else if word == "fun"@ {
        Some(TokenType::Fun)
    } else if word == "if"@ {
        Some(TokenType::If)
    } else if word == "or"@ {
        Some(TokenType::Or)
    } else if word == "print"@ {
        Some(TokenType::Print)
    } else if word == "return"@ {
        Some(TokenType::Return)
    } else if word == "super"@ {
        Some(TokenType::Super)
    } else if word == "this"@ {
        Some(TokenType::This)
    } else if word == "true"@ {
        Some(TokenType::True)
    } else if word == "let"@ {
        Some(TokenType::Let)
    } else if word == "const"@ {
        Some(TokenType::Const)
    } else if word == "mut"@ {
        Some(TokenType::Mut)
    } else if word == "while"@ {
        Some(TokenType::While)
    } else if word == "loop"@ {
        Some(TokenType::Loop)
    } else {
        None
    }
}

/// The token kind of a punctuation mark that is a token by itself.
pub open spec fn single(c: char) -> Option<TokenType> {
    if c == ';' {
        Some(TokenType::Semicolon)
    } else if c == '(' {
        Some(TokenType::LeftParen)
    } else if c == ')' {
        Some(TokenType::RightParen)
    } else if c == '{' {
        Some(TokenType::LeftBrace)
    } else if c == '}' {
        Some(TokenType::RightBrace)
    } else if c == ',' {
        Some(TokenType::Comma)
    } else if c == '.' {
        Some(TokenType::Dot)
    } else if c == '-' {
        Some(TokenType::Minus)
    } else if c == '+' {
        Some(TokenType::Plus)
    } else if c == '*' {
        Some(TokenType::Star)
    } else {
        None
    }
}

/// The model of what a number reader hands back.
pub open spec fn outcome_view(r: Result<u64, String>) -> Result<u64, Seq<char>> {
    match r {
        Ok(bits) => Ok(bits),
        Err(msg) => Err(msg@),
    }
}

/// What the number reader `parse` makes of the decimal text `digits`: the
/// bit pattern of the number, or the message of its refusal.
pub open spec fn parsed<P: Fn(String) -> Result<u64, String>>(parse: P, digits: Seq<char>) -> Result<
    u64,
    Seq<char>,
> {
    outcome_view(
        (choose|call: (String, Result<u64, String>)|
            call.0@ == digits && #[trigger] parse.ensures((call.0,), call.1)).1,
    )
}

/// `parse` can serve as a number reader: it accepts every text, and what it
/// hands back depends on the characters of the text alone.
pub open spec fn reads_numbers<P: Fn(String) -> Result<u64, String>>(parse: P) -> bool {
    &&& forall|s: String| #[trigger] parse.requires((s,))
    &&& forall|s: String, r: Result<u64, String>| #[trigger]
        parse.ensures((s,), r) ==> outcome_view(r) == parsed(parse, s@)
}

/// The message for a character that starts no token.
pub open spec fn unexpected_message(c: char) -> Seq<char> {
    "Unexpected character `"@.push(c).push('`')
}

/// A step that yields nothing.
pub open spec fn skip(end: int, line: int) -> Step {
    Step { pos: end, line, token: None, error: None }
}

/// A step that yields the token spelled by `src[start..end]`.
pub open spec fn emit(
    src: Seq<char>,
    start: int,
    end: int,
    line: int,
    typ: TokenType,
    literal: Option<Value>,
) -> Step {
    Step {
        pos: end,
        line,
        token: Some(TokenView { typ, lexeme: src.subrange(start, end), literal, line }),
        error: None,
    }
}

/// A step that yields an error reported on line `at`.
pub open spec fn fail(end: int, line: int, msg: Seq<char>, at: int) -> Step {
    Step { pos: end, line, token: None, error: Some(LexerErrorView { msg, line: at }) }
}

/// A token of one or two characters: `long` where `=` follows, else `short`.
pub open spec fn one_or_two(
    src: Seq<char>,
    start: int,
    line: int,
    short: TokenType,
    long: TokenType,
) -> Step {
    if char_at(src, start + 1) == '=' {
        emit(src, start, start + 2, line, long, None)
    } else {
        emit(src, start, start + 1, line, short, None)
    }
}

/// The step for a string literal whose opening quote is at `start`.
pub open spec fn string_step(src: Seq<char>, start: int, line: int) -> Step {
    let end = string_end(src, start + 1, line);
    if end.pos >= src.len() {
        fail(end.pos, end.line, "Unterminated string!"@, line)
    } else {
        emit(
            src,
            start,
            end.pos + 1,
            end.line,
            TokenType::String,
            Some(Value::Text(unescaped(src.subrange(start + 1, end.pos)))),
        )
    }
}

/// The step for a number whose first digit is at `start`.
pub open spec fn number_step<P: Fn(String) -> Result<u64, String>>(
    src: Seq<char>,
    start: int,
    line: int,
    parse: P,
) -> Step {
    let end = number_end(src, start);
    match parsed(parse, src.subrange(start, end)) {
        Ok(bits) => emit(src, start, end, line, TokenType::Number, Some(Value::Number(bits))),
        Err(msg) => fail(end, line, msg, line),
    }
}

/// The step for a word whose first character is at `start`: a keyword, with
/// the value it stands for where it is `true` or `false`, or an identifier.
pub open spec fn word_step(src: Seq<char>, start: int, line: int) -> Step {
    let end = word_end(src, start + 1);
    match keyword(src.subrange(start, end)) {
        Some(TokenType::True) => emit(src, start, end, line, TokenType::True, Some(Value::True)),
        Some(TokenType::False) => emit(
            src,
            start,
            end,
            line,
            TokenType::False,
            Some(Value::False),
        ),
        Some(typ) => emit(src, start, end, line, typ, None),
        None => emit(src, start, end, line, TokenType::Identifier, None),
    }
}

/// The step for a `/` at `start`: a comment or the operator.
pub open spec fn slash_step(src: Seq<char>, start: int, line: int) -> Step {
    let next = char_at(src, start + 1);
    if next == '/' {
        skip(line_comment_end(src, start + 2), line)
    } else if next == '*' {
        let end = block_comment_end(src, start + 2, 0, line);
        skip(end.pos, end.line)
    } else {
        emit(src, start, start + 1, line, TokenType::Slash, None)
    }
}

/// What scanning does at offset `start` of `src`, on line `line`.
pub open spec fn scan_step<P: Fn(String) -> Result<u64, String>>(
    src: Seq<char>,
    start: int,
    line: int,
    parse: P,
) -> Step
    recommends
        0 <= start < src.len(),
{
    let c = src[start];
    if c == '\n' {
        skip(start + 1, line + 1)
    } else if c == '\t' || c == '\r' || c == ' ' {
        skip(start + 1, line)
    } else if single(c) is Some {
        emit(src, start, start + 1, line, single(c)->0, None)
    } else if c == '!' {
        one_or_two(src, start, line, TokenType::Bang, TokenType::BangEqual)
    } else if c == '=' {
        one_or_two(src, start, line, TokenType::Equal, TokenType::EqualEqual)
    } else if c == '<' {
        one_or_two(src, start, line, TokenType::Less, TokenType::LessEqual)
    } else if c == '>' {
        one_or_two(src, start, line, TokenType::Greater, TokenType::GreaterEqual)
    } else if c == '/' {
        slash_step(src, start, line)
    } else if c == '"' {
        string_step(src, start, line)
    } else if text::is_digit(c) {
        number_step(src, start, line, parse)
    } else if text::is_alphabetic(c) {
        word_step(src, start, line)
    } else {
        fail(start + 1, line, unexpected_message(c), line)
    }
}

/// The sequence with `item` appended where there is one.
pub open spec fn with<T>(items: Seq<T>, item: Option<T>) -> Seq<T> {
    match item {
        Some(x) => items.push(x),
        None => items,
    }
}

/// The token that ends every scan.
pub open spec fn eof_token(line: int) -> TokenView {
    TokenView { typ: TokenType::Eof, lexeme: Seq::<char>::empty(), literal: None, line }
}

/// All that a scan yields.
pub struct Scanned {
    pub tokens: Seq<TokenView>,
    pub errors: Seq<LexerErrorView>,
}


/// A line comment stops within the text, at or behind where it is read.
pub proof fn lemma_line_comment_end(src: Seq<char>, pos: int)
    requires
        0 <= pos <= src.len(),
    ensures
        pos <= line_comment_end(src, pos) <= src.len(),
    decreases src.len() - pos,
{
    if pos < src.len() && src[pos] != '\n' {
        lemma_line_comment_end(src, pos + 1);
    }
}

/// A block comment stops within the text, at or behind where it is read,
/// and passes no more lines than characters.
pub proof fn lemma_block_comment_end(src: Seq<char>, pos: int, depth: nat, line: int)
    requires
        0 <= pos <= src.len(),
    ensures
        pos <= block_comment_end(src, pos, depth, line).pos <= src.len(),
        0 <= block_comment_end(src, pos, depth, line).line - line <= block_comment_end(
            src,
            pos,
            depth,
            line,
        ).pos - pos,
    decreases src.len() - pos,
{
    if pos < src.len() {
        if src[pos] == '\n' {
            lemma_block_comment_end(src, pos + 1, depth, line + 1);
        } else if src[pos] == '/' && char_at(src, pos + 1) == '*' {
            lemma_block_comment_end(src, pos + 1, depth + 1, line);
        } else if src[pos] == '*' && char_at(src, pos + 1) == '/' {
            if depth != 0 {
                lemma_block_comment_end(src, pos + 1, (depth - 1) as nat, line);
            }
        } else {
            lemma_block_comment_end(src, pos + 1, depth, line);
        }
    }
}

/// A string's body stops within the text, at or behind where it is read,
/// and passes no more lines than characters.
pub proof fn lemma_string_end(src: Seq<char>, pos: int, line: int)
    requires
        0 <= pos <= src.len(),
    ensures
        pos <= string_end(src, pos, line).pos <= src.len(),
        0 <= string_end(src, pos, line).line - line <= string_end(src, pos, line).pos - pos,
    decreases src.len() - pos,
{
    if pos < src.len() && src[pos] != '"' {
        lemma_string_end(
            src,
            pos + 1,
            if src[pos] == '\n' {
                line + 1
            } else {
                line
            },
        );
    }
}

/// A run of digits stops within the text, at or behind where it starts.
pub proof fn lemma_digits_end(src: Seq<char>, pos: int)
    requires
        0 <= pos <= src.len(),
    ensures
        pos <= digits_end(src, pos) <= src.len(),
    decreases src.len() - pos,
{
    if pos < src.len() && text::is_digit(src[pos]) {
        lemma_digits_end(src, pos + 1);
    }
}

/// A run of identifier characters stops within the text, at or behind where
/// it starts.
pub proof fn lemma_word_end(src: Seq<char>, pos: int)
    requires
        0 <= pos <= src.len(),
    ensures
        pos <= word_end(src, pos) <= src.len(),
    decreases src.len() - pos,
{
    if pos < src.len() && is_word_char(src[pos]) {
        lemma_word_end(src, pos + 1);
    }
}

/// Every step consumes at least one character, stays within the text, and
/// passes no more lines than characters.
pub proof fn lemma_step_advances<P: Fn(String) -> Result<u64, String>>(
    src: Seq<char>,
    start: int,
    line: int,
    parse: P,
)
    requires
        0 <= start < src.len(),
    ensures
        start < scan_step(src, start, line, parse).pos <= src.len(),
        0 <= scan_step(src, start, line, parse).line - line <= scan_step(
            src,
            start,
            line,
            parse,
        ).pos - start,
{
    let c = src[start];
    if c == '/' {
        if char_at(src, start + 1) == '/' {
            lemma_line_comment_end(src, start + 2);
        } else if char_at(src, start + 1) == '*' {
            lemma_block_comment_end(src, start + 2, 0, line);
        }
    } else if c == '"' {
        lemma_string_end(src, start + 1, line);
    } else if text::is_digit(c) {
        let whole = digits_end(src, start + 1);
        lemma_digits_end(src, start + 1);
        if char_at(src, whole) == '.' {
            lemma_digits_end(src, whole + 1);
        }
    } else if text::is_alphabetic(c) {
        lemma_word_end(src, start + 1);
    }
}

/// What scanning yields from offset `pos` on, after `so_far`: the steps in
/// turn, then the token that marks the end.
pub open spec fn scan_from<P: Fn(String) -> Result<u64, String>>(
    src: Seq<char>,
    pos: int,
    line: int,
    so_far: Scanned,
    parse: P,
) -> Scanned
    decreases src.len() - pos,
    via scan_from_decreases::<P>
{
    if pos < 0 || pos >= src.len() {
        Scanned { tokens: so_far.tokens.push(eof_token(line)), errors: so_far.errors }
    } else {
        let st = scan_step(src, pos, line, parse);
        scan_from(
            src,
            st.pos,
            st.line,
            Scanned {
                tokens: with(so_far.tokens, st.token),
                errors: with(so_far.errors, st.error),
            },
            parse,
        )
    }
}

#[via_fn]
proof fn scan_from_decreases<P: Fn(String) -> Result<u64, String>>(
    src: Seq<char>,
    pos: int,
    line: int,
    so_far: Scanned,
    parse: P,
) {
    if 0 <= pos < src.len() {
        lemma_step_advances(src, pos, line, parse);
    }
}

/// All that scanning `src` yields: its tokens, the last of which marks the
/// end of input, and every lexical error found on the way.
pub open spec fn scanned<P: Fn(String) -> Result<u64, String>>(src: Seq<char>, parse: P) -> Scanned {
    scan_from(
        src,
        0,
        1,
        Scanned { tokens: Seq::<TokenView>::empty(), errors: Seq::<LexerErrorView>::empty() },
        parse,
    )
}

/// Whether `lexeme` is the text that stands in `src` at offset `start`.
pub open spec fn stands_at(src: Seq<char>, start: int, lexeme: Seq<char>) -> bool {
    0 <= start && start + lexeme.len() <= src.len() && src.subrange(start, start + lexeme.len())
        == lexeme
}

/// Whether a token is true to the source: it is not the end marker, its
/// lexeme is a piece of the source, a token of a kind that is always
/// spelled the same way is spelled that way, and a token of a kind that
/// stands for a value carries one.
pub open spec fn faithful(src: Seq<char>, t: TokenView) -> bool {
    &&& t.typ != TokenType::Eof
    &&& t.lexeme.len() > 0
    &&& exists|start: int| stands_at(src, start, t.lexeme)
    &&& fixed_text(t.typ) matches Some(spelling) ==> t.lexeme == spelling
    &&& (t.typ == TokenType::True || t.typ == TokenType::False || t.typ == TokenType::Number
        || t.typ == TokenType::String) ==> t.literal is Some
}

/// The token of a step is true to the source.
pub proof fn lemma_step_faithful<P: Fn(String) -> Result<u64, String>>(
    src: Seq<char>,
    start: int,
    line: int,
    parse: P,
)
    requires
        0 <= start < src.len(),
    ensures
        scan_step(src, start, line, parse).token matches Some(t) ==> faithful(src, t),
{
    let st = scan_step(src, start, line, parse);
    lemma_step_advances(src, start, line, parse);
    if st.token is Some {
        let t = st.token->0;
        assert(t.lexeme == src.subrange(start, st.pos));
        assert(stands_at(src, start, t.lexeme));
        assert(src.subrange(start, start + 1) =~= seq![src[start]]);
        if start + 1 < src.len() {
            assert(src.subrange(start, start + 2) =~= seq![src[start], src[start + 1]]);
        }
    }
}

/// Scanning on from tokens that are true to the source yields such tokens
/// and then the end marker.
proof fn lemma_scan_from_faithful<P: Fn(String) -> Result<u64, String>>(
    src: Seq<char>,
    pos: int,
    line: int,
    so_far: Scanned,
    parse: P,
)
    requires
        0 <= pos <= src.len(),
        forall|i: int| 0 <= i < so_far.tokens.len() ==> faithful(src, #[trigger] so_far.tokens[i]),
    ensures
        ends_faithfully(src, scan_from(src, pos, line, so_far, parse).tokens),
    decreases src.len() - pos,
{
    if pos < src.len() {
        lemma_step_advances(src, pos, line, parse);
        lemma_step_faithful(src, pos, line, parse);
        let st = scan_step(src, pos, line, parse);
        let next = Scanned {
            tokens: with(so_far.tokens, st.token),
            errors: with(so_far.errors, st.error),
        };
        lemma_scan_from_faithful(src, st.pos, st.line, next, parse);
    }
}

/// Whether all tokens but the last are true to the source, and the last is
/// the end marker with an empty lexeme.
pub open spec fn ends_faithfully(src: Seq<char>, tokens: Seq<TokenView>) -> bool {
    &&& tokens.len() >= 1
    &&& tokens.last().typ == TokenType::Eof
    &&& tokens.last().lexeme.len() == 0
    &&& forall|i: int| 0 <= i < tokens.len() - 1 ==> faithful(src, #[trigger] tokens[i])
}

/// Lexemes are captured exactly: every token that a scan yields is spelled
/// by a piece of the source, punctuation, operators and keywords by the one
/// text of their kind, and the scan ends with the end marker.
pub proof fn lemma_lexemes_round_trip<P: Fn(String) -> Result<u64, String>>(
    src: Seq<char>,
    parse: P,
)
    ensures
        ends_faithfully(src, scanned(src, parse).tokens),
{
    lemma_scan_from_faithful(
        src,
        0,
        1,
        Scanned { tokens: Seq::<TokenView>::empty(), errors: Seq::<LexerErrorView>::empty() },
        parse,
    );
}

/// Reads a line comment from `pos` on.
fn line_comment(source: &Vec<char>, pos: usize) -> (r: usize)
    requires
        pos <= source.len(),
    ensures
        r == line_comment_end(source@, pos as int),
        pos <= r <= source.len(),
{
    let mut p: usize = pos;
    while p < source.len() && source[p] != '\n'
        invariant
            pos <= p <= source.len(),
            line_comment_end(source@, p as int) == line_comment_end(source@, pos as int),
        decreases source.len() - p,
    {
        p += 1;
    }
    p
}

/// Reads a block comment from `pos` on, behind its opening `/*`.
fn block_comment(source: &Vec<char>, pos: usize, line: usize) -> (r: (usize, usize))
    requires
        pos <= source.len() < usize::MAX,
        line <= pos + 1,
    ensures
        (Cursor { pos: r.0 as int, line: r.1 as int }) == block_comment_end(
            source@,
            pos as int,
            0,
            line as int,
        ),
        pos <= r.0 <= source.len(),
        line <= r.1 <= r.0 + 1,
{
    let n: usize = source.len();
    let mut p: usize = pos;
    let mut l: usize = line;
    let mut depth: usize = 0;
    while p < n
        invariant
            n == source.len(),
            n < usize::MAX,
            pos <= p <= n,
            line <= l <= p + 1,
            depth <= p - pos,
            block_comment_end(source@, p as int, depth as nat, l as int) == block_comment_end(
                source@,
                pos as int,
                0,
                line as int,
            ),
        decreases n - p,
    {
        let c: char = source[p];
        if c == '\n' {
            l += 1;
        } else if c == '/' && p + 1 < n && source[p + 1] == '*' {
            depth += 1;
        } else if c == '*' && p + 1 < n && source[p + 1] == '/' {
            if depth == 0 {
                return (p + 2, l);
            }
            depth -= 1;
        }
        p += 1;
    }
    (p, l)
}

/// Reads the body of a string literal from `pos` on.
fn string_body(source: &Vec<char>, pos: usize, line: usize) -> (r: (usize, usize))
    requires
        pos <= source.len() < usize::MAX,
        line <= pos + 1,
    ensures
        (Cursor { pos: r.0 as int, line: r.1 as int }) == string_end(
            source@,
            pos as int,
            line as int,
        ),
        pos <= r.0 <= source.len(),
        line <= r.1 <= r.0 + 1,
{
    let n: usize = source.len();
    let mut p: usize = pos;
    let mut l: usize = line;
    while p < n && source[p] != '"'
        invariant
            n == source.len(),
            n < usize::MAX,
            pos <= p <= n,
            line <= l <= p + 1,
            string_end(source@, p as int, l as int) == string_end(
                source@,
                pos as int,
                line as int,
            ),
        decreases n - p,
    {
        if source[p] == '\n' {
            l += 1;
        }
        p += 1;
    }
    (p, l)
}

/// Reads a run of digits from `pos` on.
fn digits(source: &Vec<char>, pos: usize) -> (r: usize)
    requires
        pos <= source.len(),
    ensures
        r == digits_end(source@, pos as int),
        pos <= r <= source.len(),
{
    let mut p: usize = pos;
    while p < source.len() && text::digit(source[p])
        invariant
            pos <= p <= source.len(),
            digits_end(source@, p as int) == digits_end(source@, pos as int),
        decreases source.len() - p,
    {
        p += 1;
    }
    p
}

/// Reads a run of identifier characters from `pos` on.
fn word(source: &Vec<char>, pos: usize) -> (r: usize)
    requires
        pos <= source.len(),
    ensures
        r == word_end(source@, pos as int),
        pos <= r <= source.len(),
{
    let mut p: usize = pos;
    while p < source.len() && (source[p].is_alphanumeric() || source[p] == '_')
        invariant
            pos <= p <= source.len(),
            word_end(source@, p as int) == word_end(source@, pos as int),
        decreases source.len() - p,
    {
        p += 1;
    }
    p
}

/// Tells whether `chars[from..to]` spells `word`.
fn spells(chars: &Vec<char>, from: usize, to: usize, word: &str) -> (r: bool)
    requires
        from <= to <= chars.len(),
    ensures
        r == (chars@.subrange(from as int, to as int) == word@),
{
    let n: usize = word.unicode_len();
    let ghost sub = chars@.subrange(from as int, to as int);
    if to - from != n {
        return false;
    }
    let mut i: usize = 0;
    while i < n
        invariant
            i <= n,
            n == word@.len(),
            to - from == n,
            from <= to <= chars.len(),
            sub == chars@.subrange(from as int, to as int),
            forall|j: int| 0 <= j < i ==> sub[j] == word@[j],
        decreases n - i,
    {
        if chars[from + i] != word.get_char(i) {
            assert(sub[i as int] != word@[i as int]);
            return false;
        }
        i += 1;
    }
    assert(sub =~= word@);
    true
}

/// Looks `chars[from..to]` up among the keywords.
fn keyword_of(chars: &Vec<char>, from: usize, to: usize) -> (r: Option<TokenType>)
    requires
        from <= to <= chars.len(),
    ensures
        r == keyword(chars@.subrange(from as int, to as int)),
{
    if spells(chars, from, to, "and") {
        Some(TokenType::And)
    } else if spells(chars, from, to, "struct") {
        Some(TokenType::Struct)
    } else if spells(chars, from, to, "else") {
        Some(TokenType::Else)
    } else if spells(chars, from, to, "false") {
        Some(TokenType::False)
    } else if spells(chars, from, to, "for") {
        Some(TokenType::For)
    } else if spells(chars, from, to, "fun") {
        Some(TokenType::Fun)
    } else if spells(chars, from, to, "if") {
        Some(TokenType::If)
    } else if spells(chars, from, to, "or") {
        Some(TokenType::Or)
    } else if spells(chars, from, to, "print") {
        Some(TokenType::Print)
    } else if spells(chars, from, to, "return") {
        Some(TokenType::Return)
    } else if spells(chars, from, to, "super") {
        Some(TokenType::Super)
    } else if spells(chars, from, to, "this") {
        Some(TokenType::This)
    } else if spells(chars, from, to, "true") {
        Some(TokenType::True)
    } else if spells(chars, from, to, "let") {
        Some(TokenType::Let)
    } else if spells(chars, from, to, "const") {
        Some(TokenType::Const)
    } else if spells(chars, from, to, "mut") {
        Some(TokenType::Mut)
    } else if spells(chars, from, to, "while") {
        Some(TokenType::While)
    } else if spells(chars, from, to, "loop") {
        Some(TokenType::Loop)
    } else {
        None
    }
}

/// The token kind of a punctuation mark that is a token by itself.
fn single_of(c: char) -> (r: Option<TokenType>)
    ensures
        r == single(c),
{
    if c == ';' {
        Some(TokenType::Semicolon)
    } else if c == '(' {
        Some(TokenType::LeftParen)
    } else if c == ')' {
        Some(TokenType::RightParen)
    } else if c == '{' {
        Some(TokenType::LeftBrace)
    } else if c == '}' {
        Some(TokenType::RightBrace)
    } else if c == ',' {
        Some(TokenType::Comma)
    } else if c == '.' {
        Some(TokenType::Dot)
    } else if c == '-' {
        Some(TokenType::Minus)
    } else if c == '+' {
        Some(TokenType::Plus)
    } else if c == '*' {
        Some(TokenType::Star)
    } else {
        None
    }
}


/// Appending a token appends its model.
pub proof fn lemma_token_views_push(tokens: Seq<Token>, token: Token)
    ensures
        token_views(tokens.push(token)) == token_views(tokens).push(token@),
{
    assert(token_views(tokens.push(token)) =~= token_views(tokens).push(token@));
}

/// Appending an error appends its model.
pub proof fn lemma_error_views_push(errors: Seq<LexerError>, error: LexerError)
    ensures
        error_views(errors.push(error)) == error_views(errors).push(error@),
{
    assert(error_views(errors.push(error)) =~= error_views(errors).push(error@));
}

/// The model of an optional value.
pub open spec fn literal_view(literal: Option<Literal>) -> Option<Value> {
    match literal {
        Some(l) => Some(l@),
        None => None,
    }
}

/// The scanner. It keeps nothing from one scan to the next.
pub struct Lexer {
    source: Vec<char>,
    tokens: Vec<Token>,
    errors: Vec<LexerError>,
    line: usize,
    start: usize,
    current: usize,
}

impl Default for Lexer {
    fn default() -> (r: Self)
        ensures
            r.is_fresh(),
    {
        Self::new()
    }
}

impl Lexer {
    /// Whether the scanner is in its initial state.
    pub closed spec fn is_fresh(&self) -> bool {
        &&& self.source@.len() == 0
        &&& self.tokens@.len() == 0
        &&& self.errors@.len() == 0
        &&& self.line == 1
        &&& self.start == 0
        &&& self.current == 0
    }

    spec fn wf(&self) -> bool {
        &&& self.start <= self.current <= self.source.len() < usize::MAX
        &&& self.line <= self.current + 1
    }

    /// `self` is `before` with the reading position moved to `to`.
    spec fn moved(&self, before: &Lexer, to: int) -> bool {
        &&& self.source == before.source
        &&& self.tokens == before.tokens
        &&& self.errors == before.errors
        &&& self.line == before.line
        &&& self.start == before.start
        &&& self.current == to
    }

    /// `self` is `before` after the step `st`, but for the error list, which
    /// a step leaves alone.
    spec fn stepped(&self, before: &Lexer, st: Step) -> bool {
        &&& self.wf()
        &&& self.source == before.source
        &&& self.errors == before.errors
        &&& self.start == before.start
        &&& self.current == st.pos
        &&& self.line == st.line
        &&& token_views(self.tokens@) == with(token_views(before.tokens@), st.token)
    }

    /// `r` hands back the error of the step `st`, if it has one.
    spec fn reported(r: Result<(), LexerError>, st: Step) -> bool {
        match r {
            Ok(_) => st.error is None,
            Err(e) => st.error == Some(e@),
        }
    }

    /// A scanner in its initial state.
    pub fn new() -> (r: Self)
        ensures
            r.is_fresh(),
    {
        Self {
            source: Vec::new(),
            tokens: Vec::new(),
            errors: Vec::new(),
            line: 1,
            start: 0,
            current: 0,
        }
    }

    /// Scans `input`. Numbers are read by `parse`, which is handed the text
    /// of each number and returns its bit pattern or a message.
    ///
    /// Returns the tokens, ending in the end-of-input token, where the text
    /// holds no lexical error, and otherwise every error in the order found.
    /// Every token but the last is spelled by a piece of the input.
    pub fn scan<P: Fn(String) -> Result<u64, String>>(&mut self, input: String, parse: &P) -> (r:
        Result<Vec<Token>, Vec<LexerError>>)
        requires
            input@.len() < usize::MAX,
            reads_numbers(*parse),
        ensures
            final(self).is_fresh(),
            r matches Ok(tokens) ==> ends_faithfully(input@, token_views(tokens@)),
            match r {
                Ok(tokens) => scanned(input@, *parse).errors.len() == 0 && token_views(tokens@)
                    == scanned(input@, *parse).tokens,
                Err(errors) => errors@.len() > 0 && error_views(errors@) == scanned(
                    input@,
                    *parse,
                ).errors,
            },
    {
        self.errors = Vec::new();
        self.tokens = Vec::new();
        self.line = 1;
        self.start = 0;
        self.current = 0;
        self.source = text::to_chars(input.as_str());
        assert(token_views(self.tokens@) =~= Seq::<TokenView>::empty());
        assert(error_views(self.errors@) =~= Seq::<LexerErrorView>::empty());
        while !self.is_at_end()
            invariant
                self.wf(),
                self.source@ == input@,
                reads_numbers(*parse),
                scan_from(
                    input@,
                    self.current as int,
                    self.line as int,
                    (Scanned {
                        tokens: token_views(self.tokens@),
                        errors: error_views(self.errors@),
                    }),
                    *parse,
                ) == scanned(input@, *parse),
            decreases self.source.len() - self.current,
        {
            self.start = self.current;
            proof {
                lemma_step_advances(input@, self.current as int, self.line as int, *parse);
            }
            match self.scan_token(parse) {
                Ok(_) => {},
                Err(err) => {
                    proof {
                        lemma_error_views_push(self.errors@, err);
                    }
                    self.errors.push(err);
                },
            }
        }
        let eof = Token {
            typ: TokenType::Eof,
            lexeme: String::new(),
            literal: None,
            line: self.line,
        };
        proof {
            lemma_token_views_push(self.tokens@, eof);
            assert(eof@ == eof_token(self.line as int));
        }
        self.tokens.push(eof);
        proof {
            lemma_lexemes_round_trip(input@, *parse);
        }
        let mut tokens: Vec<Token> = Vec::new();
        let mut errors: Vec<LexerError> = Vec::new();
        std::mem::swap(&mut self.tokens, &mut tokens);
        std::mem::swap(&mut self.errors, &mut errors);
        self.source = Vec::new();
        self.line = 1;
        self.start = 0;
        self.current = 0;
        if errors.len() == 0 {
            Ok(tokens)
        } else {
            Err(errors)
        }
    }

    /// Scans the lexical unit that starts at the reading position.
    fn scan_token<P: Fn(String) -> Result<u64, String>>(&mut self, parse: &P) -> (r: Result<
        (),
        LexerError,
    >)
        requires
            old(self).wf(),
            old(self).start == old(self).current,
            old(self).current < old(self).source.len(),
            reads_numbers(*parse),
        ensures
            final(self).stepped(
                old(self),
                scan_step(
                    old(self).source@,
                    old(self).current as int,
                    old(self).line as int,
                    *parse,
                ),
            ),
            Self::reported(
                r,
                scan_step(
                    old(self).source@,
                    old(self).current as int,
                    old(self).line as int,
                    *parse,
                ),
            ),
    {
        let c: char = self.advance();
        if c == '\n' {
            self.line += 1;
            Ok(())
        } else if c == '\t' || c == '\r' || c == ' ' {
            Ok(())
        } else if let Some(typ) = single_of(c) {
            self.push_token(typ, None);
            Ok(())
        } else if c == '!' {
            if self.matches('=') {
                self.push_token(TokenType::BangEqual, None);
            } else {
                self.push_token(TokenType::Bang, None);
            }
            Ok(())
        } else if c == '=' {
            if self.matches('=') {
                self.push_token(TokenType::EqualEqual, None);
            } else {
                self.push_token(TokenType::Equal, None);
            }
            Ok(())
        } else if c == '<' {
            if self.matches('=') {
                self.push_token(TokenType::LessEqual, None);
            } else {
                self.push_token(TokenType::Less, None);
            }
            Ok(())
        } else if c == '>' {
            if self.matches('=') {
                self.push_token(TokenType::GreaterEqual, None);
            } else {
                self.push_token(TokenType::Greater, None);
            }
            Ok(())
        } else if c == '/' {
            if self.matches('/') {
                self.current = line_comment(&self.source, self.current);
            } else if self.matches('*') {
                let end: (usize, usize) = block_comment(&self.source, self.current, self.line);
                self.current = end.0;
                self.line = end.1;
            } else {
                self.push_token(TokenType::Slash, None);
            }
            Ok(())
        } else if c == '"' {
            self.string()
        } else if text::digit(c) {
            self.number(parse)
        } else if c.is_alphabetic() {
            self.identifier();
            Ok(())
        } else {
            let mut msg = "Unexpected character `".to_owned();
            msg.push(c);
            msg.push('`');
            Err(LexerError::new(msg, self.line))
        }
    }

    /// Scans a word whose first character has been read.
    fn identifier(&mut self)
        requires
            old(self).wf(),
            old(self).current == old(self).start + 1,
        ensures
            final(self).stepped(
                old(self),
                word_step(old(self).source@, old(self).start as int, old(self).line as int),
            ),
    {
        self.current = word(&self.source, self.current);
        match keyword_of(&self.source, self.start, self.current) {
            Some(TokenType::True) => self.push_token(TokenType::True, Some(Literal::True)),
            Some(TokenType::False) => self.push_token(TokenType::False, Some(Literal::False)),
            Some(typ) => self.push_token(typ, None),
            None => self.push_token(TokenType::Identifier, None),
        }
    }

    /// Appends the token spelled by the text between the start of the unit
    /// and the reading position.
    fn push_token(&mut self, typ: TokenType, literal: Option<Literal>)
        requires
            old(self).wf(),
        ensures
            final(self).stepped(
                old(self),
                emit(
                    old(self).source@,
                    old(self).start as int,
                    old(self).current as int,
                    old(self).line as int,
                    typ,
                    literal_view(literal),
                ),
            ),
    {
        let token = Token {
            typ,
            literal,
            lexeme: text::from_chars(&self.source, self.start, self.current),
            line: self.line,
        };
        proof {
            lemma_token_views_push(self.tokens@, token);
        }
        self.tokens.push(token);
    }

    /// Scans a string literal whose opening quote has been read.
    fn string(&mut self) -> (r: Result<(), LexerError>)
        requires
            old(self).wf(),
            old(self).current == old(self).start + 1,
        ensures
            final(self).stepped(
                old(self),
                string_step(old(self).source@, old(self).start as int, old(self).line as int),
            ),
            Self::reported(
                r,
                string_step(old(self).source@, old(self).start as int, old(self).line as int),
            ),
    {
        let line_at_start: usize = self.line;
        let end: (usize, usize) = string_body(&self.source, self.current, self.line);
        self.current = end.0;
        self.line = end.1;
        if self.is_at_end() {
            return Err(LexerError::new("Unterminated string!".to_owned(), line_at_start));
        }
        // The closing quote.
        self.advance();
        let body = slice_subrange(self.source.as_slice(), self.start + 1, self.current - 1);
        let value = unescape(body);
        self.push_token(TokenType::String, Some(Literal::String(value)));
        Ok(())
    }

    /// Scans a number whose first digit has been read.
    fn number<P: Fn(String) -> Result<u64, String>>(&mut self, parse: &P) -> (r: Result<
        (),
        LexerError,
    >)
        requires
            old(self).wf(),
            old(self).current == old(self).start + 1,
            reads_numbers(*parse),
        ensures
            final(self).stepped(
                old(self),
                number_step(
                    old(self).source@,
                    old(self).start as int,
                    old(self).line as int,
                    *parse,
                ),
            ),
            Self::reported(
                r,
                number_step(
                    old(self).source@,
                    old(self).start as int,
                    old(self).line as int,
                    *parse,
                ),
            ),
    {
        let whole: usize = digits(&self.source, self.current);
        self.current = whole;
        if self.peek() == '.' && text::digit(self.peek_next()) {
            self.current = digits(&self.source, whole + 1);
        }
        let digits_text = text::from_chars(&self.source, self.start, self.current);
        match parse(digits_text) {
            Ok(bits) => {
                self.push_token(TokenType::Number, Some(Literal::Number(bits)));
                Ok(())
            },
            Err(msg) => Err(LexerError::new(msg, self.line)),
        }
    }

    /// Reads one character.
    fn advance(&mut self) -> (c: char)
        requires
            old(self).wf(),
            old(self).current < old(self).source.len(),
        ensures
            final(self).wf(),
            final(self).moved(old(self), old(self).current + 1),
            c == old(self).source@[old(self).current as int],
    {
        self.current += 1;
        self.source[self.current - 1]
    }

    /// Reads the next character where it is `expected`.
    fn matches(&mut self, expected: char) -> (r: bool)
        requires
            old(self).wf(),
            expected != '\0',
        ensures
            final(self).wf(),
            r == (char_at(old(self).source@, old(self).current as int) == expected),
            final(self).moved(
                old(self),
                if r {
                    old(self).current + 1
                } else {
                    old(self).current as int
                },
            ),
    {
        if self.is_at_end() {
            return false;
        }
        if self.source[self.current] != expected {
            return false;
        }
        self.current += 1;
        true
    }

    /// The next character, or NUL at the end.
    fn peek(&self) -> (c: char)
        ensures
            c == char_at(self.source@, self.current as int),
    {
        if self.is_at_end() {
            '\0'
        } else {
            self.source[self.current]
        }
    }

    /// The character behind the next, or NUL at the end.
    fn peek_next(&self) -> (c: char)
        requires
            self.current < usize::MAX,
        ensures
            c == char_at(self.source@, self.current + 1),
    {
        if self.current + 1 >= self.source.len() {
            '\0'
        } else {
            self.source[self.current + 1]
        }
    }

    /// Whether all of the source has been read.
    fn is_at_end(&self) -> (r: bool)
        ensures
            r == (self.current >= self.source.len()),
    {
        self.current >= self.source.len()
    }
}

} // verus!
