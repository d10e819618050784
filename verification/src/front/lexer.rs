//! The lexer: KERN source text to tokens.
//!
//! A token's place is the lexer's place once the token was read (for
//! strings, numbers and words: once their first character was read).
//! A line break outside a string literal, and one inside it, each count as
//! two lines; a comment runs from `//` to the end of its line.
use vstd::prelude::*;
use crate::front::token::{SourceLocation, Token, TokenKind, TokenV, token_views};
use crate::front::keywords::{is_keyword, keyword_kind};
use crate::text::chars_of;

verus! {

/// Whether `char::is_alphanumeric` holds of a character.
pub uninterp spec fn alphanumeric(c: char) -> bool;

/// `char::is_alphanumeric`: Unicode's Alphabetic or Numeric property. Of the
/// characters below 128 it holds of the ASCII letters and digits alone.
#[verifier::external_body]
fn is_alphanumeric(c: char) -> (r: bool)
    ensures
        r == alphanumeric(c),
        (c as u32) < 128 ==> (r <==> (('a' <= c && c <= 'z') || ('A' <= c && c <= 'Z') || ('0' <= c && c <= '9'))),
{
    c.is_alphanumeric()
}

/// Where the lexer stands: the index of the next character, the line and the column.
pub struct LexState {
    pub pos: int,
    pub line: int,
    pub col: int,
}

pub open spec fn location_of(st: LexState) -> SourceLocation {
    SourceLocation { line: st.line as usize, column: st.col as usize, offset: st.pos as usize }
}

pub open spec fn is_digit(c: char) -> bool {
    '0' <= c && c <= '9'
}

pub open spec fn starts_word(c: char) -> bool {
    ('a' <= c && c <= 'z') || ('A' <= c && c <= 'Z') || c == '_'
}

pub open spec fn continues_word(c: char) -> bool {
    alphanumeric(c) || c == '_'
}

/// The first index from `i` on that holds no digit (or the end).
pub open spec fn digits_end(src: Seq<char>, i: int) -> int
    decreases src.len() - i,
{
    if 0 <= i < src.len() && is_digit(src[i]) {
        digits_end(src, i + 1)
    } else {
        i
    }
}

/// The first index from `i` on that holds no word character (or the end).
pub open spec fn word_end(src: Seq<char>, i: int) -> int
    decreases src.len() - i,
{
    if 0 <= i < src.len() && continues_word(src[i]) {
        word_end(src, i + 1)
    } else {
        i
    }
}

/// The first index from `i` on that holds `c` (or the end).
pub open spec fn find_from(src: Seq<char>, i: int, c: char) -> int
    decreases src.len() - i,
{
    if 0 <= i < src.len() && src[i] != c {
        find_from(src, i + 1, c)
    } else {
        i
    }
}

/// The end of a number whose first digit stands before `i`: digits, then
/// optionally a point and more digits.
pub open spec fn number_end(src: Seq<char>, i: int) -> int {
    let j = digits_end(src, i);
    if j + 1 < src.len() && src[j] == '.' && is_digit(src[j + 1]) {
        digits_end(src, j + 1)
    } else {
        j
    }
}

/// Line and column once the characters `src[a..b]` of a string literal were read.
pub open spec fn string_span(src: Seq<char>, a: int, b: int, line: int, col: int) -> (int, int)
    decreases b - a,
{
    if b <= a {
        (line, col)
    } else {
        let lc = string_span(src, a, b - 1, line, col);
        if src[b - 1] == '\n' {
            (lc.0 + 2, 1)
        } else {
            (lc.0, lc.1 + 1)
        }
    }
}

/// The place after reading one character.
pub open spec fn after_char(c: char, st: LexState) -> LexState {
    if c == '\n' {
        LexState { pos: st.pos + 1, line: st.line + 1, col: 1 }
    } else {
        LexState { pos: st.pos + 1, line: st.line, col: st.col + 1 }
    }
}

/// A token of `kind` made of `src[start..end.pos]`, found at `end`.
pub open spec fn emit(src: Seq<char>, start: int, end: LexState, kind: TokenKind) -> (Option<TokenV>, LexState) {
    (Some(TokenV { kind, lexeme: src.subrange(start, end.pos), location: location_of(end) }), end)
}

/// A token of kind `two` when `second` follows, else one of kind `one`.
pub open spec fn emit_pair(src: Seq<char>, start: int, p1: LexState, second: char, two: TokenKind, one: TokenKind) -> (Option<TokenV>, LexState) {
    if p1.pos < src.len() && src[p1.pos] == second {
        emit(src, start, LexState { pos: p1.pos + 1, line: p1.line, col: p1.col + 1 }, two)
    } else {
        emit(src, start, p1, one)
    }
}

/// A string literal whose opening quote was read, leaving the lexer at `p1`.
pub open spec fn scan_string(src: Seq<char>, p1: LexState) -> (Option<TokenV>, LexState) {
    let q = find_from(src, p1.pos, '"');
    let lc = string_span(src, p1.pos, q, p1.line, p1.col);
    if q >= src.len() {
        (Some(TokenV { kind: TokenKind::Error, lexeme: "Unterminated string"@, location: location_of(p1) }),
         LexState { pos: q, line: lc.0, col: lc.1 })
    } else {
        (Some(TokenV { kind: TokenKind::StringLiteral, lexeme: src.subrange(p1.pos, q), location: location_of(p1) }),
         LexState { pos: q + 1, line: lc.0, col: lc.1 + 1 })
    }
}

/// A number whose first digit was read, leaving the lexer at `p1`.
pub open spec fn scan_number(src: Seq<char>, p1: LexState) -> (Option<TokenV>, LexState) {
    let e = number_end(src, p1.pos);
    (Some(TokenV { kind: TokenKind::NumberLiteral, lexeme: src.subrange(p1.pos - 1, e), location: location_of(p1) }),
     LexState { pos: e, line: p1.line, col: p1.col + (e - p1.pos) })
}

/// A word whose first character was read, leaving the lexer at `p1`: a
/// reserved word or an identifier.
pub open spec fn scan_word(src: Seq<char>, p1: LexState) -> (Option<TokenV>, LexState) {
    let e = word_end(src, p1.pos);
    let text = src.subrange(p1.pos - 1, e);
    let kind = match keyword_kind(text) {
        Some(k) => k,
        None => TokenKind::Identifier,
    };
    (Some(TokenV { kind, lexeme: text, location: location_of(p1) }),
     LexState { pos: e, line: p1.line, col: p1.col + (e - p1.pos) })
}

/// What reading from `st` gives: a token or none (white space, a comment,
/// a line break), and where the lexer then stands.
pub open spec fn scan(src: Seq<char>, st: LexState) -> (Option<TokenV>, LexState) {
    let c = src[st.pos];
    let p1 = after_char(c, st);
    let s = st.pos;
    if c == '(' {
        emit(src, s, p1, TokenKind::LeftParen)
    } else if c == ')' {
        emit(src, s, p1, TokenKind::RightParen)
    } else if c == '{' {
        emit(src, s, p1, TokenKind::LeftBrace)
    } else if c == '}' {
        emit(src, s, p1, TokenKind::RightBrace)
    } else if c == '[' {
        emit(src, s, p1, TokenKind::LeftBracket)
    } else if c == ']' {
        emit(src, s, p1, TokenKind::RightBracket)
    } else if c == ';' {
        emit(src, s, p1, TokenKind::Semicolon)
    } else if c == ',' {
        emit(src, s, p1, TokenKind::Comma)
    } else if c == '.' {
        emit(src, s, p1, TokenKind::Dot)
    } else if c == '-' {
        emit_pair(src, s, p1, '>', TokenKind::Arrow, TokenKind::Minus)
    } else if c == '+' {
        emit(src, s, p1, TokenKind::Plus)
    } else if c == '*' {
        emit(src, s, p1, TokenKind::Star)
    } else if c == '/' {
        if p1.pos < src.len() && src[p1.pos] == '/' {
            let e = find_from(src, p1.pos + 1, '\n');
            (None, LexState { pos: e, line: st.line, col: st.col + (e - s) })
        } else {
            emit(src, s, p1, TokenKind::Slash)
        }
    } else if c == '!' {
        emit_pair(src, s, p1, '=', TokenKind::BangEqual, TokenKind::Bang)
    } else if c == '=' {
        emit_pair(src, s, p1, '=', TokenKind::EqualEqual, TokenKind::Equal)
    } else if c == '<' {
        emit_pair(src, s, p1, '=', TokenKind::LessEqual, TokenKind::Less)
    } else if c == '>' {
        emit_pair(src, s, p1, '=', TokenKind::GreaterEqual, TokenKind::Greater)
    } else if c == '&' {
        emit_pair(src, s, p1, '&', TokenKind::AmpersandAmpersand, TokenKind::Ampersand)
    } else if c == '|' {
        emit_pair(src, s, p1, '|', TokenKind::PipePipe, TokenKind::Pipe)
    } else if c == '%' {
        emit(src, s, p1, TokenKind::Percent)
    } else if c == ':' {
        emit(src, s, p1, TokenKind::Colon)
    } else if c == ' ' || c == '\r' || c == '\t' {
        (None, p1)
    } else if c == '\n' {
        (None, LexState { pos: s + 1, line: st.line + 2, col: 1 })
    } else if c == '"' {
        scan_string(src, p1)
    } else if is_digit(c) {
        scan_number(src, p1)
    } else if starts_word(c) {
        scan_word(src, p1)
    } else {
        (Some(TokenV { kind: TokenKind::Error, lexeme: "Unexpected character: "@.push(c), location: location_of(p1) }), p1)
    }
}

/// The tokens read from `st` to the end of `src`, the last one `Eof`.
pub open spec fn lex_from(src: Seq<char>, st: LexState) -> Seq<TokenV>
    decreases src.len() - st.pos,
{
    if st.pos < 0 || st.pos >= src.len() {
        seq![TokenV { kind: TokenKind::Eof, lexeme: Seq::empty(), location: location_of(st) }]
    } else {
        let r = scan(src, st);
        let rest = if st.pos < r.1.pos <= src.len() {
            lex_from(src, r.1)
        } else {
            Seq::empty()
        };
        match r.0 {
            Some(t) => seq![t] + rest,
            None => rest,
        }
    }
}

/// The tokens of a whole text.
pub open spec fn lex(src: Seq<char>) -> Seq<TokenV> {
    lex_from(src, LexState { pos: 0, line: 1, col: 1 })
}

proof fn lemma_digits_end(src: Seq<char>, i: int)
    requires
        0 <= i <= src.len(),
    ensures
        i <= digits_end(src, i) <= src.len(),
        forall|k: int| i <= k < digits_end(src, i) ==> is_digit(#[trigger] src[k]),
        digits_end(src, i) < src.len() ==> !is_digit(src[digits_end(src, i)]),
    decreases src.len() - i,
{
    if i < src.len() && is_digit(src[i]) {
        lemma_digits_end(src, i + 1);
    }
}

proof fn lemma_word_end(src: Seq<char>, i: int)
    requires
        0 <= i <= src.len(),
    ensures
        i <= word_end(src, i) <= src.len(),
        forall|k: int| i <= k < word_end(src, i) ==> continues_word(#[trigger] src[k]),
        word_end(src, i) < src.len() ==> !continues_word(src[word_end(src, i)]),
    decreases src.len() - i,
{
    if i < src.len() && continues_word(src[i]) {
        lemma_word_end(src, i + 1);
    }
}

proof fn lemma_find_from(src: Seq<char>, i: int, c: char)
    requires
        0 <= i <= src.len(),
    ensures
        i <= find_from(src, i, c) <= src.len(),
        find_from(src, i, c) < src.len() ==> src[find_from(src, i, c)] == c,
        forall|k: int| i <= k < find_from(src, i, c) ==> #[trigger] src[k] != c,
    decreases src.len() - i,
{
    if i < src.len() && src[i] != c {
        lemma_find_from(src, i + 1, c);
    }
}

proof fn lemma_string_span(src: Seq<char>, a: int, b: int, line: int, col: int)
    requires
        a <= b,
        line >= 1,
        col >= 1,
    ensures
        string_span(src, a, b, line, col).0 >= line,
        string_span(src, a, b, line, col).0 <= line + 2 * (b - a),
        1 <= string_span(src, a, b, line, col).1 <= col + (b - a),
    decreases b - a,
{
    if a < b {
        lemma_string_span(src, a, b - 1, line, col);
    }
}

/// Reading always moves forward, and never past the end.
proof fn lemma_scan_advances(src: Seq<char>, st: LexState)
    requires
        0 <= st.pos < src.len(),
        st.line >= 1,
        st.col >= 1,
    ensures
        st.pos < scan(src, st).1.pos <= src.len(),
        scan(src, st).1.line >= 1,
        scan(src, st).1.col >= 1,
        scan(src, st).1.line <= st.line + 2 * (scan(src, st).1.pos - st.pos),
        scan(src, st).1.col <= st.col + (scan(src, st).1.pos - st.pos),
{
    let p1 = after_char(src[st.pos], st);
    lemma_digits_end(src, p1.pos);
    let j = digits_end(src, p1.pos);
    if 0 <= j && j + 1 < src.len() {
        lemma_digits_end(src, j + 1);
    }
    lemma_word_end(src, p1.pos);
    lemma_find_from(src, p1.pos, '"');
    if p1.pos + 1 <= src.len() {
        lemma_find_from(src, p1.pos + 1, '\n');
    }
    let q = find_from(src, p1.pos, '"');
    lemma_string_span(src, p1.pos, q, p1.line, p1.col);
}

/// Lexing any text gives a sequence of tokens that ends with `Eof` and has
/// no `Eof` before its end.
pub proof fn law_tokens_end_with_eof(src: Seq<char>, st: LexState)
    requires
        st.line >= 1,
        st.col >= 1,
    ensures
        lex_from(src, st).len() > 0,
        lex_from(src, st).last().kind == TokenKind::Eof,
        forall|i: int| 0 <= i < lex_from(src, st).len() - 1 ==> #[trigger] lex_from(src, st)[i].kind != TokenKind::Eof,
    decreases src.len() - st.pos,
{
    if !(st.pos < 0 || st.pos >= src.len()) {
        lemma_scan_advances(src, st);
        let r = scan(src, st);
        law_tokens_end_with_eof(src, r.1);
        let rest = lex_from(src, r.1);
        match r.0 {
            Some(t) => {
                assert(t.kind != TokenKind::Eof);
                let all = seq![t] + rest;
                assert(all.last() == rest.last());
                assert forall|i: int| 0 <= i < all.len() - 1 implies #[trigger] all[i].kind != TokenKind::Eof by {
                    if i > 0 {
                        assert(all[i] == rest[i - 1]);
                    }
                }
            },
            None => {},
        }
    }
}

/// Whether the character after the cursor is `d`.
pub open spec fn next_is(src: Seq<char>, st: LexState, d: char) -> bool {
    st.pos + 1 < src.len() && src[st.pos + 1] == d
}

/// Reading from `st` gives one token of `kind` spelled `text`, and the
/// lexer moves on by the length of `text`.
pub open spec fn reads_token(src: Seq<char>, st: LexState, kind: TokenKind, text: Seq<char>) -> bool {
    &&& scan(src, st).0 is Some
    &&& scan(src, st).0->0.kind == kind
    &&& scan(src, st).0->0.lexeme == text
    &&& scan(src, st).1.pos == st.pos + text.len()
}

/// The operator and punctuation tokens. A `<`, `>`, `=` or `!` followed by
/// `=` is one two-character token (`<=`, `>=`, `==`, `!=`), as are `->`,
/// `&&` and `||`; without that second character each is a one-character
/// token. The brackets, `;`, `,`, `.`, `+`, `*`, `%` and `:` are always
/// one-character tokens, and so is `/` unless a second `/` starts a comment.
pub proof fn law_operator_tokens(src: Seq<char>, st: LexState)
    requires
        0 <= st.pos < src.len(),
    ensures
        src[st.pos] == '<' && next_is(src, st, '=') ==> reads_token(src, st, TokenKind::LessEqual, seq!['<', '=']),
        src[st.pos] == '>' && next_is(src, st, '=') ==> reads_token(src, st, TokenKind::GreaterEqual, seq!['>', '=']),
        src[st.pos] == '=' && next_is(src, st, '=') ==> reads_token(src, st, TokenKind::EqualEqual, seq!['=', '=']),
        src[st.pos] == '!' && next_is(src, st, '=') ==> reads_token(src, st, TokenKind::BangEqual, seq!['!', '=']),
        src[st.pos] == '-' && next_is(src, st, '>') ==> reads_token(src, st, TokenKind::Arrow, seq!['-', '>']),
        src[st.pos] == '&' && next_is(src, st, '&') ==> reads_token(src, st, TokenKind::AmpersandAmpersand, seq!['&', '&']),
        src[st.pos] == '|' && next_is(src, st, '|') ==> reads_token(src, st, TokenKind::PipePipe, seq!['|', '|']),
        src[st.pos] == '<' && !next_is(src, st, '=') ==> reads_token(src, st, TokenKind::Less, seq!['<']),
        src[st.pos] == '>' && !next_is(src, st, '=') ==> reads_token(src, st, TokenKind::Greater, seq!['>']),
        src[st.pos] == '=' && !next_is(src, st, '=') ==> reads_token(src, st, TokenKind::Equal, seq!['=']),
        src[st.pos] == '!' && !next_is(src, st, '=') ==> reads_token(src, st, TokenKind::Bang, seq!['!']),
        src[st.pos] == '-' && !next_is(src, st, '>') ==> reads_token(src, st, TokenKind::Minus, seq!['-']),
        src[st.pos] == '&' && !next_is(src, st, '&') ==> reads_token(src, st, TokenKind::Ampersand, seq!['&']),
        src[st.pos] == '|' && !next_is(src, st, '|') ==> reads_token(src, st, TokenKind::Pipe, seq!['|']),
        src[st.pos] == '/' && !next_is(src, st, '/') ==> reads_token(src, st, TokenKind::Slash, seq!['/']),
        src[st.pos] == '/' && next_is(src, st, '/') ==> scan(src, st).0 is None,
        src[st.pos] == '(' ==> reads_token(src, st, TokenKind::LeftParen, seq!['(']),
        src[st.pos] == ')' ==> reads_token(src, st, TokenKind::RightParen, seq![')']),
        src[st.pos] == '{' ==> reads_token(src, st, TokenKind::LeftBrace, seq!['{']),
        src[st.pos] == '}' ==> reads_token(src, st, TokenKind::RightBrace, seq!['}']),
        src[st.pos] == '[' ==> reads_token(src, st, TokenKind::LeftBracket, seq!['[']),
        src[st.pos] == ']' ==> reads_token(src, st, TokenKind::RightBracket, seq![']']),
        src[st.pos] == ';' ==> reads_token(src, st, TokenKind::Semicolon, seq![';']),
        src[st.pos] == ',' ==> reads_token(src, st, TokenKind::Comma, seq![',']),
        src[st.pos] == '.' ==> reads_token(src, st, TokenKind::Dot, seq!['.']),
        src[st.pos] == '+' ==> reads_token(src, st, TokenKind::Plus, seq!['+']),
        src[st.pos] == '*' ==> reads_token(src, st, TokenKind::Star, seq!['*']),
        src[st.pos] == '%' ==> reads_token(src, st, TokenKind::Percent, seq!['%']),
        src[st.pos] == ':' ==> reads_token(src, st, TokenKind::Colon, seq![':']),
{
    let p = st.pos;
    assert(src.subrange(p, p + 1) =~= seq![src[p]]);
    if p + 1 < src.len() {
        assert(src.subrange(p, p + 2) =~= seq![src[p], src[p + 1]]);
    }
}

/// Numbers, words, strings and white space. A digit starts a number token:
/// the longest run of digits there, extended by a point and a further run
/// of digits when a digit follows the point. A letter or `_` starts a word:
/// the longest run of word characters, a reserved word's token or else an
/// identifier. A `"` starts a string token holding the text up to the next
/// `"`, after which the lexer goes on; with no closing `"` it is an error
/// token and the lexer reaches the end. A space, tab, carriage return or
/// line break gives no token and moves on by one.
pub proof fn law_literal_tokens(src: Seq<char>, st: LexState)
    requires
        0 <= st.pos < src.len(),
        st.line >= 1,
        st.col >= 1,
    ensures
        is_digit(src[st.pos]) ==> ({
            let e = scan(src, st).1.pos;
            let t = scan(src, st).0->0;
            &&& scan(src, st).0 is Some
            &&& t.kind == TokenKind::NumberLiteral
            &&& st.pos < e <= src.len()
            &&& t.lexeme == src.subrange(st.pos, e)
            &&& forall|k: int| st.pos <= k < e ==> is_digit(#[trigger] src[k]) || src[k] == '.'
            &&& is_digit(src[e - 1])
            &&& forall|k1: int, k2: int| st.pos <= k1 < k2 < e && #[trigger] src[k1] == '.' ==> #[trigger] src[k2] != '.'
            &&& e < src.len() ==> !is_digit(src[e])
            &&& (forall|k: int| st.pos <= k < e ==> #[trigger] src[k] != '.')
                ==> !(e + 1 < src.len() && src[e] == '.' && is_digit(src[e + 1]))
        }),
        starts_word(src[st.pos]) ==> ({
            let e = scan(src, st).1.pos;
            let t = scan(src, st).0->0;
            &&& scan(src, st).0 is Some
            &&& st.pos < e <= src.len()
            &&& t.lexeme == src.subrange(st.pos, e)
            &&& t.kind == match keyword_kind(t.lexeme) { Some(k) => k, None => TokenKind::Identifier }
            &&& forall|k: int| st.pos < k < e ==> continues_word(#[trigger] src[k])
            &&& e < src.len() ==> !continues_word(src[e])
        }),
        src[st.pos] == '"' ==> ({
            let e = scan(src, st).1.pos;
            let t = scan(src, st).0->0;
            &&& scan(src, st).0 is Some
            &&& forall|k: int| st.pos < k < e - 1 ==> #[trigger] src[k] != '"'
            &&& if e <= src.len() && src[e - 1] == '"' && st.pos < e - 1 {
                &&& t.kind == TokenKind::StringLiteral
                &&& t.lexeme == src.subrange(st.pos + 1, e - 1)
            } else {
                &&& t.kind == TokenKind::Error
                &&& e == src.len()
                &&& forall|k: int| st.pos < k < src.len() ==> #[trigger] src[k] != '"'
            }
        }),
        (src[st.pos] == ' ' || src[st.pos] == '\t' || src[st.pos] == '\r' || src[st.pos] == '\n')
            ==> scan(src, st).0 is None && scan(src, st).1.pos == st.pos + 1,
{
    let p = st.pos;
    let p1 = after_char(src[p], st);
    lemma_digits_end(src, p + 1);
    let j = digits_end(src, p + 1);
    if j + 1 < src.len() {
        lemma_digits_end(src, j + 1);
    }
    lemma_word_end(src, p + 1);
    lemma_find_from(src, p + 1, '"');
    if src[p] == '"' {
        let q = find_from(src, p + 1, '"');
        if q < src.len() {
            assert(scan(src, st).1.pos == q + 1);
        } else {
            assert(scan(src, st).1.pos == q);
            assert(forall|k: int| p < k < src.len() ==> #[trigger] src[k] != '"');
        }
    }
}

/// What an optional token says.
pub open spec fn opt_view(t: Option<Token>) -> Option<TokenV> {
    match t {
        Some(t) => Some(t@),
        None => None,
    }
}

/// A lexer over one source text.
pub struct Lexer {
    source: Vec<char>,
    text: String,
    start: usize,
    current: usize,
    line: usize,
    column: usize,
}

impl Lexer {
    /// The source text.
    pub closed spec fn src(&self) -> Seq<char> {
        self.source@
    }

    /// Where the lexer stands.
    pub closed spec fn state(&self) -> LexState {
        LexState { pos: self.current as int, line: self.line as int, col: self.column as int }
    }

    pub closed spec fn wf(&self) -> bool {
        &&& self.text@ == self.source@
        &&& self.start <= self.current <= self.source@.len()
        &&& self.source@.len() <= usize::MAX / 4
        &&& 1 <= self.line <= 1 + 2 * self.current
        &&& 1 <= self.column <= 1 + self.current
    }

    /// A lexer at the start of `source`. (A text longer than a quarter of the
    /// address space cannot be held as characters.)
    pub fn new(source: &str) -> (l: Self)
        requires
            source@.len() <= usize::MAX / 4,
        ensures
            l.wf(),
            l.src() == source@,
            l.state() == (LexState { pos: 0, line: 1, col: 1 }),
    {
        Lexer {
            source: chars_of(source),
            text: source.to_owned(),
            start: 0,
            current: 0,
            line: 1,
            column: 1,
        }
    }

    /// Reads the rest of the text: its tokens, the last one `Eof`.
    pub fn tokenize(&mut self) -> (tokens: Vec<Token>)
        requires
            old(self).wf(),
        ensures
            final(self).wf(),
            final(self).src() == old(self).src(),
            token_views(tokens@) == lex_from(old(self).src(), old(self).state()),
    {
        let ghost src = self.src();
        let ghost st0 = self.state();
        let mut tokens: Vec<Token> = Vec::new();
        assert(token_views(tokens@) =~= Seq::<TokenV>::empty());
        assert(token_views(tokens@) + lex_from(src, self.state()) =~= lex_from(src, st0));
        while !self.is_at_end()
            invariant
                self.wf(),
                self.src() == src,
                token_views(tokens@) + lex_from(src, self.state()) == lex_from(src, st0),
            decreases src.len() - self.state().pos,
        {
            self.start = self.current;
            let ghost st = self.state();
            proof {
                lemma_scan_advances(src, st);
            }
            let ghost before = token_views(tokens@);
            let r = self.scan_token();
            match r {
                Some(t) => {
                    tokens.push(t);
                    assert(token_views(tokens@) =~= before.push(t@));
                    assert(before.push(t@) + lex_from(src, self.state()) =~= before + (seq![t@] + lex_from(src, self.state())));
                },
                None => {},
            }
        }
        let loc = self.get_location();
        proof {
            reveal_strlit("");
        }
        let eof = Token::new(TokenKind::Eof, "".to_owned(), loc);
        let ghost before = token_views(tokens@);
        tokens.push(eof);
        assert(token_views(tokens@) =~= before.push(eof@));
        assert(eof@.lexeme =~= Seq::<char>::empty());
        assert(lex_from(src, self.state()) =~= seq![eof@]);
        assert(before.push(eof@) =~= before + seq![eof@]);
        tokens
    }

    fn scan_token(&mut self) -> (r: Option<Token>)
        requires
            old(self).wf(),
            old(self).start == old(self).current,
            old(self).current < old(self).src().len(),
        ensures
            final(self).wf(),
            final(self).src() == old(self).src(),
            opt_view(r) == scan(old(self).src(), old(self).state()).0,
            final(self).state() == scan(old(self).src(), old(self).state()).1,
    {
        let ghost src = self.src();
        let ghost st = self.state();
        let c = self.advance();
        if c == '(' {
            Some(self.make_token(TokenKind::LeftParen))
        } else if c == ')' {
            Some(self.make_token(TokenKind::RightParen))
        } else if c == '{' {
            Some(self.make_token(TokenKind::LeftBrace))
        } else if c == '}' {
            Some(self.make_token(TokenKind::RightBrace))
        } else if c == '[' {
            Some(self.make_token(TokenKind::LeftBracket))
        } else if c == ']' {
            Some(self.make_token(TokenKind::RightBracket))
        } else if c == ';' {
            Some(self.make_token(TokenKind::Semicolon))
        } else if c == ',' {
            Some(self.make_token(TokenKind::Comma))
        } else if c == '.' {
            Some(self.make_token(TokenKind::Dot))
        } else if c == '-' {
            if self.match_char('>') {
                Some(self.make_token(TokenKind::Arrow))
            } else {
                Some(self.make_token(TokenKind::Minus))
            }
        } else if c == '+' {
            Some(self.make_token(TokenKind::Plus))
        } else if c == '*' {
            Some(self.make_token(TokenKind::Star))
        } else if c == '/' {
            if self.match_char('/') {
                proof {
                    lemma_find_from(src, st.pos + 2, '\n');
                }
                while self.peek() != '\n' && !self.is_at_end()
                    invariant
                        self.wf(),
                        self.src() == src,
                        st.pos + 2 <= self.current <= find_from(src, st.pos + 2, '\n'),
                        find_from(src, self.current as int, '\n') == find_from(src, st.pos + 2, '\n'),
                        self.line == st.line,
                        self.column == st.col + (self.current - st.pos),
                    decreases src.len() - self.current,
                {
                    let ghost cur = self.current as int;
                    self.advance();
                    proof {
                        lemma_find_from(src, cur + 1, '\n');
                    }
                }
                None
            } else {
                Some(self.make_token(TokenKind::Slash))
            }
        } else if c == '!' {
            if self.match_char('=') {
                Some(self.make_token(TokenKind::BangEqual))
            } else {
                Some(self.make_token(TokenKind::Bang))
            }
        } else if c == '=' {
            if self.match_char('=') {
                Some(self.make_token(TokenKind::EqualEqual))
            } else {
                Some(self.make_token(TokenKind::Equal))
            }
        } else if c == '<' {
            if self.match_char('=') {
                Some(self.make_token(TokenKind::LessEqual))
            } else {
                Some(self.make_token(TokenKind::Less))
            }
        } else if c == '>' {
            if self.match_char('=') {
                Some(self.make_token(TokenKind::GreaterEqual))
            } else {
                Some(self.make_token(TokenKind::Greater))
            }
        } else if c == '&' {
            if self.match_char('&') {
                Some(self.make_token(TokenKind::AmpersandAmpersand))
            } else {
                Some(self.make_token(TokenKind::Ampersand))
            }
        } else if c == '|' {
            if self.match_char('|') {
                Some(self.make_token(TokenKind::PipePipe))
            } else {
                Some(self.make_token(TokenKind::Pipe))
            }
        } else if c == '%' {
            Some(self.make_token(TokenKind::Percent))
        } else if c == ':' {
            Some(self.make_token(TokenKind::Colon))
        } else if c == ' ' || c == '\r' || c == '\t' {
            None
        } else if c == '\n' {
            self.line = self.line + 1;
            self.column = 1;
            None
        } else if c == '"' {
            Some(self.string())
        } else if '0' <= c && c <= '9' {
            Some(self.number())
        } else if ('a' <= c && c <= 'z') || ('A' <= c && c <= 'Z') || c == '_' {
            Some(self.identifier())
        } else {
            proof {
                reveal_strlit("Unexpected character: ");
            }
            let mut message = "Unexpected character: ".to_owned();
            let ghost head = message@;
            message.append(self.text.as_str().substring_char(self.current - 1, self.current));
            assert(message@ =~= head.push(c));
            Some(Token::new(TokenKind::Error, message, self.get_location()))
        }
    }

    /// A string literal; its opening quote was read.
    fn string(&mut self) -> (t: Token)
        requires
            old(self).wf(),
            old(self).start + 1 == old(self).current,
        ensures
            final(self).wf(),
            final(self).src() == old(self).src(),
            final(self).start == old(self).start,
            (Some(t@), final(self).state()) == scan_string(old(self).src(), old(self).state()),
    {
        let ghost src = self.src();
        let ghost p1 = self.state();
        let start_location = self.get_location();
        proof {
            lemma_find_from(src, p1.pos, '"');
        }
        let ghost q = find_from(src, p1.pos, '"');
        while self.peek() != '"' && !self.is_at_end()
            invariant
                self.wf(),
                self.src() == src,
                self.start == old(self).start,
                p1.pos <= self.current <= q,
                find_from(src, self.current as int, '"') == q,
                (self.line as int, self.column as int) == string_span(src, p1.pos, self.current as int, p1.line, p1.col),
            decreases src.len() - self.current,
        {
            let ghost cur = self.current as int;
            let c = self.advance();
            proof {
                lemma_find_from(src, cur + 1, '"');
            }
            if c == '\n' {
                self.line = self.line + 1;
                self.column = 1;
            }
        }
        if self.is_at_end() {
            proof {
                reveal_strlit("Unterminated string");
            }
            return Token::new(TokenKind::Error, "Unterminated string".to_owned(), start_location);
        }
        self.advance();
        let value = self.text.as_str().substring_char(self.start + 1, self.current - 1).to_owned();
        Token::new(TokenKind::StringLiteral, value, start_location)
    }

    /// A number; its first digit was read.
    fn number(&mut self) -> (t: Token)
        requires
            old(self).wf(),
            old(self).start + 1 == old(self).current,
        ensures
            final(self).wf(),
            final(self).src() == old(self).src(),
            final(self).start == old(self).start,
            (Some(t@), final(self).state()) == scan_number(old(self).src(), old(self).state()),
    {
        let ghost src = self.src();
        let ghost p1 = self.state();
        let start_location = self.get_location();
        proof {
            lemma_digits_end(src, p1.pos);
        }
        let ghost j = digits_end(src, p1.pos);
        while '0' <= self.peek() && self.peek() <= '9'
            invariant
                self.wf(),
                self.src() == src,
                self.start == old(self).start,
                p1.pos <= self.current <= j,
                digits_end(src, self.current as int) == j,
                self.line == p1.line,
                self.column == p1.col + (self.current - p1.pos),
            decreases src.len() - self.current,
        {
            let ghost cur = self.current as int;
            self.advance();
            proof {
                lemma_digits_end(src, cur + 1);
            }
        }
        let p = self.peek();
        let n = self.peek_next();
        if p == '.' && '0' <= n && n <= '9' {
            self.advance();
            proof {
                lemma_digits_end(src, j + 1);
            }
            while '0' <= self.peek() && self.peek() <= '9'
                invariant
                    self.wf(),
                    self.src() == src,
                    self.start == old(self).start,
                    j + 1 <= self.current <= digits_end(src, j + 1),
                    digits_end(src, self.current as int) == digits_end(src, j + 1),
                    self.line == p1.line,
                    self.column == p1.col + (self.current - p1.pos),
                decreases src.len() - self.current,
            {
                let ghost cur = self.current as int;
                self.advance();
                proof {
                    lemma_digits_end(src, cur + 1);
                }
            }
        }
        let value = self.text.as_str().substring_char(self.start, self.current).to_owned();
        Token::new(TokenKind::NumberLiteral, value, start_location)
    }

    /// A reserved word or an identifier; its first character was read.
    fn identifier(&mut self) -> (t: Token)
        requires
            old(self).wf(),
            old(self).start + 1 == old(self).current,
        ensures
            final(self).wf(),
            final(self).src() == old(self).src(),
            final(self).start == old(self).start,
            (Some(t@), final(self).state()) == scan_word(old(self).src(), old(self).state()),
    {
        let ghost src = self.src();
        let ghost p1 = self.state();
        let start_location = self.get_location();
        proof {
            lemma_word_end(src, p1.pos);
        }
        let ghost e = word_end(src, p1.pos);
        while is_alphanumeric(self.peek()) || self.peek() == '_'
            invariant
                self.wf(),
                self.src() == src,
                self.start == old(self).start,
                p1.pos <= self.current <= e,
                word_end(src, self.current as int) == e,
                self.line == p1.line,
                self.column == p1.col + (self.current - p1.pos),
            decreases src.len() - self.current,
        {
            let ghost cur = self.current as int;
            self.advance();
            proof {
                lemma_word_end(src, cur + 1);
            }
        }
        let text = self.text.as_str().substring_char(self.start, self.current).to_owned();
        match is_keyword(text.as_str()) {
            Some(keyword_kind) => Token::new(keyword_kind, text, start_location),
            None => Token::new(TokenKind::Identifier, text, start_location),
        }
    }

    fn advance(&mut self) -> (c: char)
        requires
            old(self).wf(),
            old(self).current < old(self).src().len(),
        ensures
            final(self).wf(),
            final(self).src() == old(self).src(),
            final(self).start == old(self).start,
            c == old(self).src()[old(self).current as int],
            final(self).state() == after_char(c, old(self).state()),
    {
        let c = self.source[self.current];
        self.current = self.current + 1;
        if c == '\n' {
            self.line = self.line + 1;
            self.column = 1;
        } else {
            self.column = self.column + 1;
        }
        c
    }

    fn match_char(&mut self, expected: char) -> (r: bool)
        requires
            old(self).wf(),
        ensures
            final(self).wf(),
            final(self).src() == old(self).src(),
            final(self).start == old(self).start,
            r == (old(self).current < old(self).src().len() && old(self).src()[old(self).current as int] == expected),
            r ==> final(self).state() == (LexState {
                pos: old(self).current + 1,
                line: old(self).line as int,
                col: old(self).column + 1,
            }),
            !r ==> final(self).state() == old(self).state(),
    {
        if self.is_at_end() || self.source[self.current] != expected {
            return false;
        }
        self.current = self.current + 1;
        self.column = self.column + 1;
        true
    }

    fn peek(&self) -> (c: char)
        requires
            self.wf(),
        ensures
            c == if self.current < self.src().len() { self.src()[self.current as int] } else { '\0' },
    {
        if self.is_at_end() {
            '\0'
        } else {
            self.source[self.current]
        }
    }

    fn peek_next(&self) -> (c: char)
        requires
            self.wf(),
        ensures
            c == if self.current + 1 < self.src().len() { self.src()[self.current + 1] } else { '\0' },
    {
        if self.current + 1 >= self.source.len() {
            '\0'
        } else {
            self.source[self.current + 1]
        }
    }

    fn is_at_end(&self) -> (r: bool)
        requires
            self.wf(),
        ensures
            r == (self.current >= self.src().len()),
    {
        self.current >= self.source.len()
    }

    fn make_token(&self, kind: TokenKind) -> (t: Token)
        requires
            self.wf(),
        ensures
            t@ == (TokenV {
                kind,
                lexeme: self.src().subrange(self.start as int, self.current as int),
                location: location_of(self.state()),
            }),
    {
        let lexeme = self.text.as_str().substring_char(self.start, self.current).to_owned();
        Token::new(kind, lexeme, self.get_location())
    }

    fn get_location(&self) -> (l: SourceLocation)
        ensures
            l == location_of(self.state()),
    {
        SourceLocation::new(self.line, self.column, self.current)
    }
}

} // verus!
