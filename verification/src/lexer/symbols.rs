use vstd::prelude::*;
use vstd::string::StringExecFns;
use crate::symbols::meaning::{Symbol, SymbolMeaning, SymbolTable};
use crate::text::{
    char_width, chars_of, is_alphabetic, is_alphanumeric, is_ascii_digit, is_digit,
    is_whitespace, parse_integer, parsed_integer, push_char, str_eq, string_of,
    unicode_alphabetic, unicode_alphanumeric, unicode_whitespace, utf8_width,
};

verus! {

broadcast use vstd::std_specs::vec::group_vec_axioms;

/// Errors that can occur during lexing.
#[derive(Debug, Clone, PartialEq)]
pub enum LexerError {
    /// A code point that starts no token.
    UnknownSymbol { glyph: String, line: usize, column: usize },
    /// A string literal that the source ends in; the location is that of its
    /// opening quote, or of the end of the source behind a backslash.
    UnterminatedString { line: usize, column: usize },
    /// A backslash in a string literal that an unknown character follows.
    InvalidEscape { char: char, line: usize, column: usize },
    /// A number that does not fit, or whose exponent has no digits.
    InvalidNumber { line: usize, column: usize },
}

/// The mathematical content of a [`LexerError`].
pub enum LexerErrorView {
    UnknownSymbol { glyph: Seq<char>, line: usize, column: usize },
    UnterminatedString { line: usize, column: usize },
    InvalidEscape { character: char, line: usize, column: usize },
    InvalidNumber { line: usize, column: usize },
}

impl View for LexerError {
    type V = LexerErrorView;

    open spec fn view(&self) -> LexerErrorView {
        match self {
            LexerError::UnknownSymbol { glyph, line, column } => LexerErrorView::UnknownSymbol {
                glyph: glyph@,
                line: *line,
                column: *column,
            },
            LexerError::UnterminatedString { line, column } => LexerErrorView::UnterminatedString {
                line: *line,
                column: *column,
            },
            LexerError::InvalidEscape { char, line, column } => LexerErrorView::InvalidEscape {
                character: *char,
                line: *line,
                column: *column,
            },
            LexerError::InvalidNumber { line, column } => LexerErrorView::InvalidNumber {
                line: *line,
                column: *column,
            },
        }
    }
}

/// Source location: line and column count from 1, in code points; the offset
/// counts bytes of UTF-8 from 0.
#[derive(Debug, Clone, Copy, PartialEq, Eq, Structural)]
pub struct SourceLocation {
    pub line: usize,
    pub column: usize,
    pub offset: usize,
}

impl SourceLocation {
    pub fn new(line: usize, column: usize, offset: usize) -> (r: Self)
        ensures
            r == (SourceLocation { line, column, offset }),
    {
        Self { line, column, offset }
    }
}

impl Default for SourceLocation {
    fn default() -> (r: Self)
        ensures
            r == (SourceLocation { line: 1, column: 1, offset: 0 }),
    {
        Self { line: 1, column: 1, offset: 0 }
    }
}

/// Token types.
#[derive(Debug, Clone, PartialEq)]
pub enum TokenKind {
    /// A glyph of the registry, by its role.
    Symbol(SymbolMeaning),
    /// An identifier.
    Identifier(String),
    /// Integer literal.
    Integer(i64),
    /// Real literal, as it is written; the host converts it.
    Float(String),
    /// String literal (contents, without quotes, escapes resolved).
    String(String),
    /// Boolean literal.
    Boolean(bool),
    /// The sign `=`.
    Equals,
    /// End of the source.
    Eof,
}

/// The mathematical content of a [`TokenKind`].
pub enum TokenKindView {
    Symbol(SymbolMeaning),
    Identifier(Seq<char>),
    Integer(i64),
    Float(Seq<char>),
    String(Seq<char>),
    Boolean(bool),
    Equals,
    Eof,
}

impl View for TokenKind {
    type V = TokenKindView;

    open spec fn view(&self) -> TokenKindView {
        match self {
            TokenKind::Symbol(m) => TokenKindView::Symbol(*m),
            TokenKind::Identifier(s) => TokenKindView::Identifier(s@),
            TokenKind::Integer(i) => TokenKindView::Integer(*i),
            TokenKind::Float(s) => TokenKindView::Float(s@),
            TokenKind::String(s) => TokenKindView::String(s@),
            TokenKind::Boolean(b) => TokenKindView::Boolean(*b),
            TokenKind::Equals => TokenKindView::Equals,
            TokenKind::Eof => TokenKindView::Eof,
        }
    }
}

/// A token with its kind, its text and the location of its first code point.
#[derive(Debug, Clone)]
pub struct Token {
    pub kind: TokenKind,
    pub lexeme: String,
    pub location: SourceLocation,
}

/// The mathematical content of a [`Token`].
pub struct TokenView {
    pub kind: TokenKindView,
    pub lexeme: Seq<char>,
    pub location: SourceLocation,
}

impl View for Token {
    type V = TokenView;

    open spec fn view(&self) -> TokenView {
        TokenView { kind: self.kind@, lexeme: self.lexeme@, location: self.location }
    }
}

impl Token {
    pub fn new(kind: TokenKind, lexeme: String, location: SourceLocation) -> (r: Self)
        ensures
            r.kind == kind,
            r.lexeme == lexeme,
            r.location == location,
    {
        Self { kind, lexeme, location }
    }

    pub fn is_symbol(&self, meaning: SymbolMeaning) -> (b: bool)
        ensures
            b == (self@.kind == TokenKindView::Symbol(meaning)),
    {
        match &self.kind {
            TokenKind::Symbol(m) => *m == meaning,
            _ => false,
        }
    }

    pub fn is_eof(&self) -> (b: bool)
        ensures
            b == (self@.kind is Eof),
    {
        match &self.kind {
            TokenKind::Eof => true,
            _ => false,
        }
    }
}

/// The views of a vector of tokens, in order.
pub open spec fn token_views_of(tokens: Seq<Token>) -> Seq<TokenView> {
    Seq::new(tokens.len(), |i: int| tokens[i]@)
}

// ---------------------------------------------------------------------------
// Locations
// ---------------------------------------------------------------------------

/// The line of the code point at `pos`: 1 plus the number of newlines before
/// it.
pub open spec fn line_at(chars: Seq<char>, pos: int) -> int
    decreases pos,
{
    if pos <= 0 {
        1
    } else if chars[pos - 1] == '\n' {
        line_at(chars, pos - 1) + 1
    } else {
        line_at(chars, pos - 1)
    }
}

/// The column of the code point at `pos`: 1 plus the number of code points
/// between it and the start of its line.
pub open spec fn column_at(chars: Seq<char>, pos: int) -> int
    decreases pos,
{
    if pos <= 0 {
        1
    } else if chars[pos - 1] == '\n' {
        1
    } else {
        column_at(chars, pos - 1) + 1
    }
}

/// The byte offset of the code point at `pos`.
pub open spec fn offset_at(chars: Seq<char>, pos: int) -> int
    decreases pos,
{
    if pos <= 0 {
        0
    } else {
        offset_at(chars, pos - 1) + utf8_width(chars[pos - 1])
    }
}

pub open spec fn location_at(chars: Seq<char>, pos: int) -> SourceLocation {
    SourceLocation {
        line: line_at(chars, pos) as usize,
        column: column_at(chars, pos) as usize,
        offset: offset_at(chars, pos) as usize,
    }
}

pub proof fn lemma_location_bounds(chars: Seq<char>, pos: int)
    requires
        0 <= pos,
    ensures
        1 <= line_at(chars, pos) <= pos + 1,
        1 <= column_at(chars, pos) <= pos + 1,
        0 <= offset_at(chars, pos) <= 4 * pos,
    decreases pos,
{
    if pos > 0 {
        lemma_location_bounds(chars, pos - 1);
    }
}

// ---------------------------------------------------------------------------
// What the lexer skips
// ---------------------------------------------------------------------------

/// The first position at or behind `pos` that holds no whitespace.
pub open spec fn skip_whitespace(chars: Seq<char>, pos: int) -> int
    decreases chars.len() - pos,
{
    if 0 <= pos < chars.len() && unicode_whitespace(chars[pos]) {
        skip_whitespace(chars, pos + 1)
    } else {
        pos
    }
}

/// The position behind the next newline at or behind `pos`, or the end.
pub open spec fn skip_line(chars: Seq<char>, pos: int) -> int
    decreases chars.len() - pos,
{
    if pos < 0 || pos >= chars.len() {
        pos
    } else if chars[pos] == '\n' {
        pos + 1
    } else {
        skip_line(chars, pos + 1)
    }
}

/// The position behind the block comment that is open `depth` times at
/// `pos`, or the end where the comment is not closed. Block comments nest.
pub open spec fn skip_block(chars: Seq<char>, pos: int, depth: nat) -> int
    decreases chars.len() - pos,
{
    if depth == 0 || pos < 0 || pos >= chars.len() {
        pos
    } else if chars[pos] == '⌈' {
        skip_block(chars, pos + 1, depth + 1)
    } else if chars[pos] == '⌉' {
        skip_block(chars, pos + 1, (depth - 1) as nat)
    } else {
        skip_block(chars, pos + 1, depth)
    }
}

/// The first position at or behind `pos` where a token starts, or the end:
/// whitespace, line comments and block comments are skipped.
pub open spec fn skip_trivia(chars: Seq<char>, pos: int) -> int
    decreases chars.len() - pos,
{
    let p = skip_whitespace(chars, pos);
    if pos <= p && p + 1 < chars.len() && chars[p] == '/' && chars[p + 1] == '/' {
        let q = skip_line(chars, p);
        if p < q <= chars.len() {
            skip_trivia(chars, q)
        } else {
            q
        }
    } else if pos <= p < chars.len() && chars[p] == '⌈' {
        let q = skip_block(chars, p + 1, 1);
        if p < q <= chars.len() {
            skip_trivia(chars, q)
        } else {
            q
        }
    } else {
        p
    }
}

pub proof fn lemma_skip_whitespace(chars: Seq<char>, pos: int)
    requires
        0 <= pos <= chars.len(),
    ensures
        pos <= skip_whitespace(chars, pos) <= chars.len(),
    decreases chars.len() - pos,
{
    if pos < chars.len() && unicode_whitespace(chars[pos]) {
        lemma_skip_whitespace(chars, pos + 1);
    }
}

pub proof fn lemma_skip_line(chars: Seq<char>, pos: int)
    requires
        0 <= pos <= chars.len(),
    ensures
        pos <= skip_line(chars, pos) <= chars.len(),
        pos < chars.len() ==> pos < skip_line(chars, pos),
    decreases chars.len() - pos,
{
    if pos < chars.len() && chars[pos] != '\n' {
        lemma_skip_line(chars, pos + 1);
    }
}

pub proof fn lemma_skip_block(chars: Seq<char>, pos: int, depth: nat)
    requires
        0 <= pos <= chars.len(),
    ensures
        pos <= skip_block(chars, pos, depth) <= chars.len(),
    decreases chars.len() - pos,
{
    if depth > 0 && pos < chars.len() {
        if chars[pos] == '⌈' {
            lemma_skip_block(chars, pos + 1, depth + 1);
        } else if chars[pos] == '⌉' {
            lemma_skip_block(chars, pos + 1, (depth - 1) as nat);
        } else {
            lemma_skip_block(chars, pos + 1, depth);
        }
    }
}

pub proof fn lemma_skip_trivia(chars: Seq<char>, pos: int)
    requires
        0 <= pos <= chars.len(),
    ensures
        pos <= skip_trivia(chars, pos) <= chars.len(),
    decreases chars.len() - pos,
{
    lemma_skip_whitespace(chars, pos);
    let p = skip_whitespace(chars, pos);
    if p + 1 < chars.len() && chars[p] == '/' && chars[p + 1] == '/' {
        lemma_skip_line(chars, p);
        lemma_skip_trivia(chars, skip_line(chars, p));
    } else if p < chars.len() && chars[p] == '⌈' {
        lemma_skip_block(chars, p + 1, 1);
        lemma_skip_trivia(chars, skip_block(chars, p + 1, 1));
    }
}

// ---------------------------------------------------------------------------
// Symbols
// ---------------------------------------------------------------------------

/// The `k` code points from `pos` on.
pub open spec fn candidate(chars: Seq<char>, pos: int, k: int) -> Seq<char> {
    chars.subrange(pos, pos + k)
}

/// The length of the longest glyph of at most `k` code points that the
/// source holds at `pos`, or 0 where it holds none.
pub open spec fn symbol_length(
    chars: Seq<char>,
    table: Map<Seq<char>, Symbol>,
    pos: int,
    k: nat,
) -> nat
    decreases k,
{
    if k == 0 {
        0
    } else if pos + k <= chars.len() && table.contains_key(candidate(chars, pos, k as int)) {
        k
    } else {
        symbol_length(chars, table, pos, (k - 1) as nat)
    }
}

/// Greedy match: where the source holds a glyph of `long` code points at
/// `pos`, within the lookahead `k`, no shorter glyph is taken in its place.
pub proof fn lemma_longest_match_wins(
    chars: Seq<char>,
    table: Map<Seq<char>, Symbol>,
    pos: int,
    k: nat,
    long: nat,
)
    requires
        1 <= long <= k,
        0 <= pos,
        pos + long <= chars.len(),
        table.contains_key(candidate(chars, pos, long as int)),
    ensures
        symbol_length(chars, table, pos, k) >= long,
    decreases k,
{
    if k > long && !(pos + k <= chars.len() && table.contains_key(candidate(chars, pos, k as int))) {
        lemma_longest_match_wins(chars, table, pos, (k - 1) as nat, long);
    }
}

pub proof fn lemma_symbol_length(
    chars: Seq<char>,
    table: Map<Seq<char>, Symbol>,
    pos: int,
    k: nat,
)
    ensures
        symbol_length(chars, table, pos, k) <= k,
        symbol_length(chars, table, pos, k) > 0 ==> pos + symbol_length(chars, table, pos, k)
            <= chars.len() && table.contains_key(
            candidate(chars, pos, symbol_length(chars, table, pos, k) as int),
        ),
    decreases k,
{
    if k > 0 && !(pos + k <= chars.len() && table.contains_key(candidate(chars, pos, k as int))) {
        lemma_symbol_length(chars, table, pos, (k - 1) as nat);
    }
}

// ---------------------------------------------------------------------------
// Literals and identifiers
// ---------------------------------------------------------------------------

/// The character that an escape stands for.
pub open spec fn escape_of(c: char) -> Option<char> {
    if c == 'n' {
        Some('\n')
    } else if c == 't' {
        Some('\t')
    } else if c == 'r' {
        Some('\r')
    } else if c == '\\' {
        Some('\\')
    } else if c == '"' {
        Some('"')
    } else if c == '0' {
        Some('\0')
    } else {
        None
    }
}

/// What the scan of a string literal comes to.
pub enum StringScan {
    /// The literal is closed: its contents, and the position behind it.
    Closed { value: Seq<char>, end: int },
    /// The source ends in the literal; `at` is the position to report.
    Unterminated { at: int },
    /// An unknown escape; `at` is the position of its character.
    BadEscape { character: char, at: int },
}

/// Scans the contents of a string literal from `pos`; `start` is the position
/// of the opening quote and `value` what was read so far.
pub open spec fn scan_string_body(
    chars: Seq<char>,
    pos: int,
    start: int,
    value: Seq<char>,
) -> StringScan
    decreases chars.len() - pos,
{
    if pos < 0 || pos >= chars.len() {
        StringScan::Unterminated { at: start }
    } else if chars[pos] == '"' {
        StringScan::Closed { value, end: pos + 1 }
    } else if chars[pos] == '\\' {
        if pos + 1 >= chars.len() {
            StringScan::Unterminated { at: pos + 1 }
        } else {
            match escape_of(chars[pos + 1]) {
                Some(c) => scan_string_body(chars, pos + 2, start, value.push(c)),
                None => StringScan::BadEscape { character: chars[pos + 1], at: pos + 1 },
            }
        }
    } else {
        scan_string_body(chars, pos + 1, start, value.push(chars[pos]))
    }
}

/// The first position at or behind `pos` that holds no decimal digit.
pub open spec fn digits_end(chars: Seq<char>, pos: int) -> int
    decreases chars.len() - pos,
{
    if 0 <= pos < chars.len() && is_digit(chars[pos]) {
        digits_end(chars, pos + 1)
    } else {
        pos
    }
}

/// The extent of a number literal.
pub struct NumberScan {
    /// The position behind the literal.
    pub end: int,
    /// Whether the literal has a fraction or an exponent.
    pub is_float: bool,
    /// Whether the literal has an exponent mark that no digit follows.
    pub bare_exponent: bool,
}

/// The position behind the integer part of the number at `pos`.
pub open spec fn integer_part_end(chars: Seq<char>, pos: int) -> int {
    if 0 <= pos < chars.len() && chars[pos] == '-' {
        digits_end(chars, pos + 1)
    } else {
        digits_end(chars, pos)
    }
}

/// Whether a fraction starts at `pos`: a point that a digit follows.
pub open spec fn fraction_at(chars: Seq<char>, pos: int) -> bool {
    0 <= pos && pos + 1 < chars.len() && chars[pos] == '.' && is_digit(chars[pos + 1])
}

/// Scans a number literal: an optional minus sign, digits, an optional
/// fraction, and an optional exponent with an optional sign.
pub open spec fn scan_number_extent(chars: Seq<char>, pos: int) -> NumberScan {
    let p1 = integer_part_end(chars, pos);
    let p2 = if fraction_at(chars, p1) {
        digits_end(chars, p1 + 1)
    } else {
        p1
    };
    if 0 <= p2 < chars.len() && (chars[p2] == 'e' || chars[p2] == 'E') {
        let p3 = if p2 + 1 < chars.len() && (chars[p2 + 1] == '+' || chars[p2 + 1] == '-') {
            p2 + 2
        } else {
            p2 + 1
        };
        NumberScan {
            end: digits_end(chars, p3),
            is_float: true,
            bare_exponent: digits_end(chars, p3) == p3,
        }
    } else {
        NumberScan { end: p2, is_float: fraction_at(chars, p1), bare_exponent: false }
    }
}

pub open spec fn identifier_char(c: char) -> bool {
    unicode_alphanumeric(c) || c == '_'
}

/// The first position at or behind `pos` that continues no identifier.
pub open spec fn identifier_end(chars: Seq<char>, pos: int) -> int
    decreases chars.len() - pos,
{
    if 0 <= pos < chars.len() && identifier_char(chars[pos]) {
        identifier_end(chars, pos + 1)
    } else {
        pos
    }
}

pub proof fn lemma_digits_end(chars: Seq<char>, pos: int)
    requires
        0 <= pos <= chars.len(),
    ensures
        pos <= digits_end(chars, pos) <= chars.len(),
    decreases chars.len() - pos,
{
    if pos < chars.len() && is_digit(chars[pos]) {
        lemma_digits_end(chars, pos + 1);
    }
}

pub proof fn lemma_identifier_end(chars: Seq<char>, pos: int)
    requires
        0 <= pos <= chars.len(),
    ensures
        pos <= identifier_end(chars, pos) <= chars.len(),
    decreases chars.len() - pos,
{
    if pos < chars.len() && identifier_char(chars[pos]) {
        lemma_identifier_end(chars, pos + 1);
    }
}

// ---------------------------------------------------------------------------
// Tokens
// ---------------------------------------------------------------------------

/// Whether a number literal starts at `pos`: a digit, or a minus sign that a
/// digit follows.
pub open spec fn number_at(chars: Seq<char>, pos: int) -> bool {
    0 <= pos < chars.len() && (is_digit(chars[pos]) || (chars[pos] == '-' && pos + 1 < chars.len()
        && is_digit(chars[pos + 1])))
}

pub open spec fn token_at(kind: TokenKindView, lexeme: Seq<char>, chars: Seq<char>, start: int) -> TokenView {
    TokenView { kind, lexeme, location: location_at(chars, start) }
}

/// The token that a string literal at `start` makes, or the error. The
/// token's value is the text between the quotes with its escapes resolved;
/// its lexeme is the source text from the opening quote through the closing
/// one, escapes as they were written.
pub open spec fn string_token(chars: Seq<char>, start: int) -> Result<(TokenView, int), LexerErrorView> {
    match scan_string_body(chars, start + 1, start, Seq::empty()) {
        StringScan::Closed { value, end } => Ok(
            (token_at(TokenKindView::String(value), chars.subrange(start, end), chars, start), end),
        ),
        StringScan::Unterminated { at } => Err(
            LexerErrorView::UnterminatedString {
                line: location_at(chars, at).line,
                column: location_at(chars, at).column,
            },
        ),
        StringScan::BadEscape { character, at } => Err(
            LexerErrorView::InvalidEscape {
                character,
                line: location_at(chars, at).line,
                column: location_at(chars, at).column,
            },
        ),
    }
}

/// The token that a number literal at `start` makes, or the error.
pub open spec fn number_token(chars: Seq<char>, start: int) -> Result<(TokenView, int), LexerErrorView> {
    let scan = scan_number_extent(chars, start);
    let lexeme = chars.subrange(start, scan.end);
    let invalid = LexerErrorView::InvalidNumber {
        line: location_at(chars, start).line,
        column: location_at(chars, start).column,
    };
    if scan.is_float {
        if scan.bare_exponent {
            Err(invalid)
        } else {
            Ok((token_at(TokenKindView::Float(lexeme), lexeme, chars, start), scan.end))
        }
    } else {
        match parsed_integer(lexeme) {
            Some(i) => Ok((token_at(TokenKindView::Integer(i), lexeme, chars, start), scan.end)),
            None => Err(invalid),
        }
    }
}

/// The token that an identifier at `start` makes.
pub open spec fn identifier_token(chars: Seq<char>, start: int) -> (TokenView, int) {
    let end = identifier_end(chars, start);
    let lexeme = chars.subrange(start, end);
    let kind = if lexeme == "true"@ {
        TokenKindView::Boolean(true)
    } else if lexeme == "false"@ {
        TokenKindView::Boolean(false)
    } else {
        TokenKindView::Identifier(lexeme)
    };
    (token_at(kind, lexeme, chars, start), end)
}

/// The next token from `pos` on, with the position behind it; or the error
/// that the source draws there.
pub open spec fn next_token_at(
    chars: Seq<char>,
    table: Map<Seq<char>, Symbol>,
    lookahead: nat,
    pos: int,
) -> Result<(TokenView, int), LexerErrorView> {
    let start = skip_trivia(chars, pos);
    if start < 0 || start >= chars.len() {
        Ok((token_at(TokenKindView::Eof, Seq::empty(), chars, start), start))
    } else {
        let k = symbol_length(chars, table, start, lookahead);
        if k > 0 {
            let glyph = candidate(chars, start, k as int);
            Ok((token_at(TokenKindView::Symbol(table[glyph].meaning), glyph, chars, start), start + k))
        } else if chars[start] == '"' {
            string_token(chars, start)
        } else if number_at(chars, start) {
            number_token(chars, start)
        } else if unicode_alphabetic(chars[start]) || chars[start] == '_' {
            Ok(identifier_token(chars, start))
        } else if chars[start] == '=' {
            Ok((token_at(TokenKindView::Equals, seq!['='], chars, start), start + 1))
        } else {
            Err(
                LexerErrorView::UnknownSymbol {
                    glyph: seq![chars[start]],
                    line: location_at(chars, start).line,
                    column: location_at(chars, start).column,
                },
            )
        }
    }
}

/// The tokens of the source from `pos` on, ending with the end-of-source
/// token; or the first error.
pub open spec fn tokens_from(
    chars: Seq<char>,
    table: Map<Seq<char>, Symbol>,
    lookahead: nat,
    pos: int,
) -> Result<Seq<TokenView>, LexerErrorView>
    decreases chars.len() - pos,
{
    match next_token_at(chars, table, lookahead, pos) {
        Err(e) => Err(e),
        Ok((token, next)) => if token.kind is Eof || !(pos < next <= chars.len()) {
            Ok(seq![token])
        } else {
            match tokens_from(chars, table, lookahead, next) {
                Ok(rest) => Ok(seq![token] + rest),
                Err(e) => Err(e),
            }
        },
    }
}

/// Every token records its original text: the lexeme of a token is the
/// source from where the token begins, behind what is skipped before it,
/// to where it ends.
pub proof fn lemma_lexeme_is_source_text(
    chars: Seq<char>,
    table: Map<Seq<char>, Symbol>,
    lookahead: nat,
    pos: int,
)
    requires
        0 <= pos <= chars.len(),
    ensures
        next_token_at(chars, table, lookahead, pos) matches Ok((token, next)) ==> token.lexeme
            == chars.subrange(skip_trivia(chars, pos), next),
{
    lemma_skip_trivia(chars, pos);
    let start = skip_trivia(chars, pos);
    match next_token_at(chars, table, lookahead, pos) {
        Ok((token, next)) => {
            assert(token.lexeme =~= chars.subrange(start, next));
        },
        Err(_) => {},
    }
}

/// Where the lexer stands when it has read the tokens from `pos` on: behind
/// the end-of-source token, or where the token began that draws an error.
pub open spec fn stop_from(
    chars: Seq<char>,
    table: Map<Seq<char>, Symbol>,
    lookahead: nat,
    pos: int,
) -> int
    decreases chars.len() - pos,
{
    match next_token_at(chars, table, lookahead, pos) {
        Err(_) => pos,
        Ok((token, next)) => if token.kind is Eof || !(pos < next <= chars.len()) {
            next
        } else {
            stop_from(chars, table, lookahead, next)
        },
    }
}

/// The tokens of a source text under a symbol table.
pub open spec fn lex(source: Seq<char>, table: Map<Seq<char>, Symbol>, lookahead: nat) -> Result<
    Seq<TokenView>,
    LexerErrorView,
> {
    tokens_from(source, table, lookahead, 0)
}

pub proof fn lemma_scan_string_body(chars: Seq<char>, pos: int, start: int, value: Seq<char>)
    requires
        0 <= pos <= chars.len(),
    ensures
        match scan_string_body(chars, pos, start, value) {
            StringScan::Closed { value: _, end } => pos < end <= chars.len(),
            StringScan::Unterminated { at } => at == start || pos < at <= chars.len(),
            StringScan::BadEscape { character, at } => pos < at < chars.len(),
        },
    decreases chars.len() - pos,
{
    if pos < chars.len() && chars[pos] != '"' {
        if chars[pos] == '\\' {
            if pos + 1 < chars.len() {
                match escape_of(chars[pos + 1]) {
                    Some(c) => lemma_scan_string_body(chars, pos + 2, start, value.push(c)),
                    None => {},
                }
            }
        } else {
            lemma_scan_string_body(chars, pos + 1, start, value.push(chars[pos]));
        }
    }
}

pub proof fn lemma_number_extent(chars: Seq<char>, pos: int)
    requires
        number_at(chars, pos),
    ensures
        pos < scan_number_extent(chars, pos).end <= chars.len(),
        pos < integer_part_end(chars, pos) <= chars.len(),
{
    if chars[pos] == '-' {
        lemma_digits_end(chars, pos + 2);
    } else {
        lemma_digits_end(chars, pos + 1);
    }
    let p1 = integer_part_end(chars, pos);
    let p2 = if fraction_at(chars, p1) {
        digits_end(chars, p1 + 1)
    } else {
        p1
    };
    if fraction_at(chars, p1) {
        lemma_digits_end(chars, p1 + 1);
    }
    if p2 < chars.len() && (chars[p2] == 'e' || chars[p2] == 'E') {
        let p3 = if p2 + 1 < chars.len() && (chars[p2 + 1] == '+' || chars[p2 + 1] == '-') {
            p2 + 2
        } else {
            p2 + 1
        };
        lemma_digits_end(chars, p3);
    }
}

/// Every token but the last takes at least one code point.
pub proof fn lemma_next_token_progress(
    chars: Seq<char>,
    table: Map<Seq<char>, Symbol>,
    lookahead: nat,
    pos: int,
)
    requires
        0 <= pos <= chars.len(),
    ensures
        next_token_at(chars, table, lookahead, pos) matches Ok((token, next)) ==> (if token.kind
            is Eof {
            next == chars.len()
        } else {
            pos < next <= chars.len()
        }),
{
    lemma_skip_trivia(chars, pos);
    let start = skip_trivia(chars, pos);
    if start < chars.len() {
        lemma_symbol_length(chars, table, start, lookahead);
        let k = symbol_length(chars, table, start, lookahead);
        if k > 0 {
        } else if chars[start] == '"' {
            lemma_scan_string_body(chars, start + 1, start, Seq::empty());
        } else if number_at(chars, start) {
            lemma_number_extent(chars, start);
        } else if unicode_alphabetic(chars[start]) || chars[start] == '_' {
            lemma_identifier_end(chars, start + 1);
        }
    }
}

/// The lexer: it turns source text into tokens, symbols first.
pub struct Lexer<'a> {
    chars: Vec<char>,
    symbol_table: &'a SymbolTable,
    position: usize,
    current_offset: usize,
    line: usize,
    column: usize,
}

impl<'a> Lexer<'a> {
    /// The code points of the source.
    pub closed spec fn source(&self) -> Seq<char> {
        self.chars@
    }

    /// The number of code points that were consumed.
    pub closed spec fn position(&self) -> int {
        self.position as int
    }

    /// The symbols that the lexer recognises, by glyph.
    pub closed spec fn table(&self) -> Map<Seq<char>, Symbol> {
        self.symbol_table@
    }

    /// The number of code points that the lexer looks ahead for a symbol.
    pub closed spec fn lookahead(&self) -> nat {
        self.symbol_table.longest()
    }

    /// The position lies in the source, and line, column and offset are
    /// those of the position.
    pub closed spec fn well_formed(&self) -> bool {
        &&& self.symbol_table.well_formed()
        &&& self.position <= self.chars@.len()
        &&& 4 * self.chars@.len() < usize::MAX
        &&& self.line == line_at(self.chars@, self.position as int)
        &&& self.column == column_at(self.chars@, self.position as int)
        &&& self.current_offset == offset_at(self.chars@, self.position as int)
    }

    /// Create a new lexer for the given source code.
    pub fn new(source: &'a str, symbol_table: &'a SymbolTable) -> (r: Self)
        requires
            symbol_table.well_formed(),
            4 * source@.len() < usize::MAX,
        ensures
            r.well_formed(),
            r.source() == source@,
            r.position() == 0,
            r.table() == symbol_table@,
            r.lookahead() == symbol_table.longest(),
    {
        Self {
            chars: chars_of(source),
            symbol_table,
            position: 0,
            current_offset: 0,
            line: 1,
            column: 1,
        }
    }

    /// Peek at the current character without consuming it.
    fn peek_char(&self) -> (r: Option<char>)
        requires
            self.well_formed(),
        ensures
            self.position() < self.source().len() ==> r == Some(self.source()[self.position()]),
            self.position() >= self.source().len() ==> r is None,
    {
        if self.position < self.chars.len() {
            Some(self.chars[self.position])
        } else {
            None
        }
    }

    /// Peek at the second character without consuming.
    fn peek_second_char(&self) -> (r: Option<char>)
        requires
            self.well_formed(),
        ensures
            self.position() + 1 < self.source().len() ==> r == Some(
                self.source()[self.position() + 1],
            ),
            self.position() + 1 >= self.source().len() ==> r is None,
    {
        if self.position + 1 < self.chars.len() {
            Some(self.chars[self.position + 1])
        } else {
            None
        }
    }

    /// Advance to the next character.
    fn advance_char(&mut self) -> (r: Option<char>)
        requires
            old(self).well_formed(),
        ensures
            final(self).well_formed(),
            final(self).source() == old(self).source(),
            final(self).table() == old(self).table(),
            final(self).lookahead() == old(self).lookahead(),
            old(self).position() < old(self).source().len() ==> r == Some(
                old(self).source()[old(self).position()],
            ) && final(self).position() == old(self).position() + 1,
            old(self).position() >= old(self).source().len() ==> r is None && final(self).position() == old(self).position(),
    {
        if self.position >= self.chars.len() {
            return None;
        }
        let c = self.chars[self.position];
        proof {
            lemma_location_bounds(self.chars@, self.position as int);
            lemma_location_bounds(self.chars@, self.position as int + 1);
        }
        self.current_offset = self.current_offset + char_width(c);
        if c == '\n' {
            self.line = self.line + 1;
            self.column = 1;
        } else {
            self.column = self.column + 1;
        }
        self.position = self.position + 1;
        Some(c)
    }

    /// Get the current source location.
    fn current_location(&self) -> (r: SourceLocation)
        requires
            self.well_formed(),
        ensures
            r == location_at(self.source(), self.position()),
    {
        SourceLocation::new(self.line, self.column, self.current_offset)
    }

    /// Advance by `count` characters.
    fn advance_by(&mut self, count: usize)
        requires
            old(self).well_formed(),
            old(self).position() + count <= old(self).source().len(),
        ensures
            final(self).well_formed(),
            final(self).source() == old(self).source(),
            final(self).table() == old(self).table(),
            final(self).lookahead() == old(self).lookahead(),
            final(self).position() == old(self).position() + count,
    {
        let mut i: usize = 0;
        while i < count
            invariant
                i <= count,
                self.well_formed(),
                self.source() == old(self).source(),
                self.table() == old(self).table(),
                self.lookahead() == old(self).lookahead(),
                self.position() == old(self).position() + i,
                old(self).position() + count <= old(self).source().len(),
            decreases count - i,
        {
            let _ = self.advance_char();
            i += 1;
        }
    }

    fn skip_spaces(&mut self)
        requires
            old(self).well_formed(),
        ensures
            final(self).well_formed(),
            final(self).source() == old(self).source(),
            final(self).table() == old(self).table(),
            final(self).lookahead() == old(self).lookahead(),
            final(self).position() == skip_whitespace(old(self).source(), old(self).position()),
    {
        while self.position < self.chars.len() && is_whitespace(self.chars[self.position])
            invariant
                self.well_formed(),
                self.source() == old(self).source(),
                self.table() == old(self).table(),
                self.lookahead() == old(self).lookahead(),
                skip_whitespace(old(self).source(), old(self).position()) == skip_whitespace(
                    self.source(),
                    self.position(),
                ),
            decreases self.chars.len() - self.position,
        {
            let _ = self.advance_char();
        }
    }

    fn skip_digits(&mut self)
        requires
            old(self).well_formed(),
        ensures
            final(self).well_formed(),
            final(self).source() == old(self).source(),
            final(self).table() == old(self).table(),
            final(self).lookahead() == old(self).lookahead(),
            final(self).position() == digits_end(old(self).source(), old(self).position()),
    {
        while self.position < self.chars.len() && is_ascii_digit(self.chars[self.position])
            invariant
                self.well_formed(),
                self.source() == old(self).source(),
                self.table() == old(self).table(),
                self.lookahead() == old(self).lookahead(),
                digits_end(old(self).source(), old(self).position()) == digits_end(
                    self.source(),
                    self.position(),
                ),
            decreases self.chars.len() - self.position,
        {
            let _ = self.advance_char();
        }
    }

    fn skip_to_line_end(&mut self)
        requires
            old(self).well_formed(),
        ensures
            final(self).well_formed(),
            final(self).source() == old(self).source(),
            final(self).table() == old(self).table(),
            final(self).lookahead() == old(self).lookahead(),
            final(self).position() == skip_line(old(self).source(), old(self).position()),
    {
        loop
            invariant_except_break
                skip_line(old(self).source(), old(self).position()) == skip_line(
                    self.source(),
                    self.position(),
                ),
            invariant
                self.well_formed(),
                self.source() == old(self).source(),
                self.table() == old(self).table(),
                self.lookahead() == old(self).lookahead(),
            ensures
                self.well_formed(),
                self.source() == old(self).source(),
                self.table() == old(self).table(),
                self.lookahead() == old(self).lookahead(),
                self.position() == skip_line(old(self).source(), old(self).position()),
            decreases self.chars.len() - self.position,
        {
            match self.advance_char() {
                Some(c) => {
                    if c == '\n' {
                        break ;
                    }
                },
                None => {
                    break ;
                },
            }
        }
    }

    fn skip_block_comment(&mut self)
        requires
            old(self).well_formed(),
        ensures
            final(self).well_formed(),
            final(self).source() == old(self).source(),
            final(self).table() == old(self).table(),
            final(self).lookahead() == old(self).lookahead(),
            final(self).position() == skip_block(old(self).source(), old(self).position(), 1),
    {
        let mut depth: usize = 1;
        loop
            invariant_except_break
                depth > 0,
                depth <= self.position() - old(self).position() + 1,
                skip_block(old(self).source(), old(self).position(), 1) == skip_block(
                    self.source(),
                    self.position(),
                    depth as nat,
                ),
            invariant
                self.well_formed(),
                self.source() == old(self).source(),
                self.table() == old(self).table(),
                self.lookahead() == old(self).lookahead(),
            ensures
                self.position() == skip_block(old(self).source(), old(self).position(), 1),
            decreases self.chars.len() - self.position,
        {
            match self.advance_char() {
                Some(c) => {
                    if c == '⌈' {
                        depth = depth + 1;
                    } else if c == '⌉' {
                        depth = depth - 1;
                        if depth == 0 {
                            proof {
                                assert(skip_block(self.source(), self.position(), 0)
                                    == self.position());
                            }
                            break ;
                        }
                    }
                },
                None => {
                    break ;
                },
            }
        }
    }

    /// Skip whitespace and comments.
    fn skip_whitespace_and_comments(&mut self)
        requires
            old(self).well_formed(),
        ensures
            final(self).well_formed(),
            final(self).source() == old(self).source(),
            final(self).table() == old(self).table(),
            final(self).lookahead() == old(self).lookahead(),
            final(self).position() == skip_trivia(old(self).source(), old(self).position()),
    {
        loop
            invariant_except_break
                skip_trivia(old(self).source(), old(self).position()) == skip_trivia(
                    self.source(),
                    self.position(),
                ),
            invariant
                self.well_formed(),
                self.source() == old(self).source(),
                self.table() == old(self).table(),
                self.lookahead() == old(self).lookahead(),
            ensures
                self.well_formed(),
                self.source() == old(self).source(),
                self.table() == old(self).table(),
                self.lookahead() == old(self).lookahead(),
                self.position() == skip_trivia(old(self).source(), old(self).position()),
            decreases self.chars.len() - self.position,
        {
            let ghost from = self.position();
            proof {
                lemma_skip_whitespace(self.source(), from);
            }
            self.skip_spaces();
            let ghost p = self.position();
            if self.position + 1 < self.chars.len() && self.chars[self.position] == '/'
                && self.chars[self.position + 1] == '/' {
                proof {
                    lemma_skip_line(self.source(), p);
                }
                self.skip_to_line_end();
                continue ;
            }
            if self.position < self.chars.len() && self.chars[self.position] == '⌈' {
                let _ = self.advance_char();
                proof {
                    lemma_skip_block(self.source(), p + 1, 1);
                }
                self.skip_block_comment();
                continue ;
            }
            break ;
        }
    }

    /// Try to match a symbol from the symbol table. The match is greedy: the
    /// longest glyph that the source holds here is taken.
    fn try_match_symbol(&mut self) -> (r: Option<Token>)
        requires
            old(self).well_formed(),
        ensures
            final(self).well_formed(),
            final(self).source() == old(self).source(),
            final(self).table() == old(self).table(),
            final(self).lookahead() == old(self).lookahead(),
            ({
                let chars = old(self).source();
                let start = old(self).position();
                let k = symbol_length(chars, old(self).table(), start, old(self).lookahead());
                if k > 0 {
                    let glyph = candidate(chars, start, k as int);
                    &&& final(self).position() == start + k
                    &&& r matches Some(token) && token@ == token_at(
                        TokenKindView::Symbol(old(self).table()[glyph].meaning),
                        glyph,
                        chars,
                        start,
                    )
                } else {
                    r is None && final(self).position() == start
                }
            }),
    {
        let start_location = self.current_location();
        let max_len = self.symbol_table.max_glyph_length();
        let remaining = self.chars.len() - self.position;
        let ghost chars = self.source();
        let ghost start = self.position();
        let ghost table = self.table();
        let mut len: usize = max_len;
        while len > 0
            invariant
                self.well_formed(),
                *self == *old(self),
                chars == self.source(),
                start == self.position(),
                table == self.table(),
                remaining == chars.len() - start,
                start_location == location_at(chars, start),
                len <= max_len,
                max_len == self.lookahead(),
                symbol_length(chars, table, start, max_len as nat) == symbol_length(
                    chars,
                    table,
                    start,
                    len as nat,
                ),
            decreases len,
        {
            if len <= remaining {
                let glyph = string_of(&self.chars, self.position, self.position + len);
                match self.symbol_table.lookup(glyph.as_str()) {
                    Some(symbol) => {
                        let meaning = symbol.meaning;
                        self.advance_by(len);
                        return Some(Token::new(TokenKind::Symbol(meaning), glyph, start_location));
                    },
                    None => {},
                }
            }
            len = len - 1;
        }
        None
    }

    /// Scan a string literal.
    fn scan_string(&mut self) -> (r: Result<Token, LexerError>)
        requires
            old(self).well_formed(),
            old(self).position() < old(self).source().len(),
        ensures
            final(self).well_formed(),
            final(self).source() == old(self).source(),
            final(self).table() == old(self).table(),
            final(self).lookahead() == old(self).lookahead(),
            match string_token(old(self).source(), old(self).position()) {
                Ok((token, next)) => (r matches Ok(t) && t@ == token) && final(self).position()
                    == next,
                Err(e) => r matches Err(x) && x@ == e,
            },
    {
        let start_location = self.current_location();
        let ghost chars = self.source();
        let ghost start = self.position();
        let begin = self.position;
        let _ = self.advance_char();
        let mut value = String::new();
        loop
            invariant_except_break
                scan_string_body(chars, start + 1, start, Seq::empty()) == scan_string_body(
                    chars,
                    self.position(),
                    start,
                    value@,
                ),
            invariant
                self.well_formed(),
                self.source() == chars,
                self.table() == old(self).table(),
                self.lookahead() == old(self).lookahead(),
                chars == old(self).source(),
                start == old(self).position(),
                start < self.position(),
                begin == start,
                start_location == location_at(chars, start),
            ensures
                self.well_formed(),
                begin == start,
                start < self.position(),
                self.source() == chars,
                self.table() == old(self).table(),
                self.lookahead() == old(self).lookahead(),
                scan_string_body(chars, start + 1, start, Seq::empty()) == (StringScan::Closed {
                    value: value@,
                    end: self.position(),
                }),
            decreases self.chars.len() - self.position,
        {
            match self.peek_char() {
                None => {
                    return Err(
                        LexerError::UnterminatedString {
                            line: start_location.line,
                            column: start_location.column,
                        },
                    );
                },
                Some(c) => {
                    if c == '"' {
                        let _ = self.advance_char();
                        break ;
                    } else if c == '\\' {
                        let _ = self.advance_char();
                        let location = self.current_location();
                        let escaped = match self.advance_char() {
                            Some(e) => {
                                if e == 'n' {
                                    '\n'
                                } else if e == 't' {
                                    '\t'
                                } else if e == 'r' {
                                    '\r'
                                } else if e == '\\' {
                                    '\\'
                                } else if e == '"' {
                                    '"'
                                } else if e == '0' {
                                    '\0'
                                } else {
                                    return Err(
                                        LexerError::InvalidEscape {
                                            char: e,
                                            line: location.line,
                                            column: location.column,
                                        },
                                    );
                                }
                            },
                            None => {
                                return Err(
                                    LexerError::UnterminatedString {
                                        line: location.line,
                                        column: location.column,
                                    },
                                );
                            },
                        };
                        push_char(&mut value, escaped);
                    } else {
                        push_char(&mut value, c);
                        let _ = self.advance_char();
                    }
                },
            }
        }
        let lexeme = string_of(&self.chars, begin, self.position);
        Ok(Token::new(TokenKind::String(value), lexeme, start_location))
    }

    /// Scan a number (integer or real).
    fn scan_number(&mut self) -> (r: Result<Token, LexerError>)
        requires
            old(self).well_formed(),
            number_at(old(self).source(), old(self).position()),
        ensures
            final(self).well_formed(),
            final(self).source() == old(self).source(),
            final(self).table() == old(self).table(),
            final(self).lookahead() == old(self).lookahead(),
            match number_token(old(self).source(), old(self).position()) {
                Ok((token, next)) => (r matches Ok(t) && t@ == token) && final(self).position()
                    == next,
                Err(e) => r matches Err(x) && x@ == e,
            },
    {
        let start_location = self.current_location();
        let start = self.position;
        let ghost chars = self.source();
        let mut is_float = false;
        let mut bare_exponent = false;
        proof {
            lemma_number_extent(chars, start as int);
        }
        if self.chars[self.position] == '-' {
            let _ = self.advance_char();
        }
        self.skip_digits();
        let ghost p1 = self.position();
        if self.position + 1 < self.chars.len() && self.chars[self.position] == '.'
            && is_ascii_digit(self.chars[self.position + 1]) {
            is_float = true;
            let _ = self.advance_char();
            self.skip_digits();
        }
        if self.position < self.chars.len() && (self.chars[self.position] == 'e'
            || self.chars[self.position] == 'E') {
            is_float = true;
            let _ = self.advance_char();
            if self.position < self.chars.len() && (self.chars[self.position] == '+'
                || self.chars[self.position] == '-') {
                let _ = self.advance_char();
            }
            let before = self.position;
            self.skip_digits();
            bare_exponent = self.position == before;
        }
        let lexeme = string_of(&self.chars, start, self.position);
        let invalid = LexerError::InvalidNumber {
            line: start_location.line,
            column: start_location.column,
        };
        if is_float {
            if bare_exponent {
                Err(invalid)
            } else {
                Ok(Token::new(TokenKind::Float(lexeme.clone()), lexeme, start_location))
            }
        } else {
            match parse_integer(lexeme.as_str()) {
                Some(value) => Ok(Token::new(TokenKind::Integer(value), lexeme, start_location)),
                None => Err(invalid),
            }
        }
    }

    /// Scan an identifier or a boolean literal.
    fn scan_identifier(&mut self) -> (r: Token)
        requires
            old(self).well_formed(),
        ensures
            final(self).well_formed(),
            final(self).source() == old(self).source(),
            final(self).table() == old(self).table(),
            final(self).lookahead() == old(self).lookahead(),
            r@ == identifier_token(old(self).source(), old(self).position()).0,
            final(self).position() == identifier_token(old(self).source(), old(self).position()).1,
    {
        let start_location = self.current_location();
        let start = self.position;
        while self.position < self.chars.len() && (is_alphanumeric(self.chars[self.position])
            || self.chars[self.position] == '_')
            invariant
                self.well_formed(),
                self.source() == old(self).source(),
                self.table() == old(self).table(),
                self.lookahead() == old(self).lookahead(),
                start == old(self).position(),
                start <= self.position(),
                start_location == location_at(self.source(), start as int),
                identifier_end(old(self).source(), old(self).position()) == identifier_end(
                    self.source(),
                    self.position(),
                ),
            decreases self.chars.len() - self.position,
        {
            let _ = self.advance_char();
        }
        let lexeme = string_of(&self.chars, start, self.position);
        let kind = if str_eq(lexeme.as_str(), "true") {
            TokenKind::Boolean(true)
        } else if str_eq(lexeme.as_str(), "false") {
            TokenKind::Boolean(false)
        } else {
            TokenKind::Identifier(lexeme.clone())
        };
        Token::new(kind, lexeme, start_location)
    }

    /// Get the next token from the source. A lexer that meets an error
    /// stays where it was.
    pub fn next_token(&mut self) -> (r: Result<Token, LexerError>)
        requires
            old(self).well_formed(),
        ensures
            final(self).well_formed(),
            final(self).source() == old(self).source(),
            final(self).table() == old(self).table(),
            final(self).lookahead() == old(self).lookahead(),
            match next_token_at(
                old(self).source(),
                old(self).table(),
                old(self).lookahead(),
                old(self).position(),
            ) {
                Ok((token, next)) => (r matches Ok(t) && t@ == token) && final(self).position()
                    == next,
                Err(e) => (r matches Err(x) && x@ == e) && final(self).position() == old(self).position(),
            },
    {
        let position = self.position;
        let offset = self.current_offset;
        let line = self.line;
        let column = self.column;
        let r = self.scan_token();
        match &r {
            Err(_) => {
                self.position = position;
                self.current_offset = offset;
                self.line = line;
                self.column = column;
            },
            Ok(_) => {},
        }
        r
    }

    /// Reads the next token.
    fn scan_token(&mut self) -> (r: Result<Token, LexerError>)
        requires
            old(self).well_formed(),
        ensures
            final(self).well_formed(),
            final(self).source() == old(self).source(),
            final(self).table() == old(self).table(),
            final(self).lookahead() == old(self).lookahead(),
            match next_token_at(
                old(self).source(),
                old(self).table(),
                old(self).lookahead(),
                old(self).position(),
            ) {
                Ok((token, next)) => (r matches Ok(t) && t@ == token) && final(self).position()
                    == next,
                Err(e) => r matches Err(x) && x@ == e,
            },
    {
        proof {
            lemma_skip_trivia(self.source(), self.position());
        }
        self.skip_whitespace_and_comments();
        let start_location = self.current_location();
        let c = match self.peek_char() {
            Some(c) => c,
            None => {
                return Ok(Token::new(TokenKind::Eof, String::new(), start_location));
            },
        };
        match self.try_match_symbol() {
            Some(token) => {
                return Ok(token);
            },
            None => {},
        }
        if c == '"' {
            return self.scan_string();
        }
        let digit_follows = match self.peek_second_char() {
            Some(d) => is_ascii_digit(d),
            None => false,
        };
        if is_ascii_digit(c) || (c == '-' && digit_follows) {
            return self.scan_number();
        }
        if is_alphabetic(c) || c == '_' {
            return Ok(self.scan_identifier());
        }
        if c == '=' {
            let _ = self.advance_char();
            proof {
                reveal_strlit("=");
                assert("="@ =~= seq!['=']);
            }
            return Ok(Token::new(TokenKind::Equals, String::from_str("="), start_location));
        }
        let _ = self.advance_char();
        let mut glyph = String::new();
        push_char(&mut glyph, c);
        proof {
            assert(glyph@ =~= seq![c]);
        }
        Err(
            LexerError::UnknownSymbol {
                glyph,
                line: start_location.line,
                column: start_location.column,
            },
        )
    }

    /// Tokenize the rest of the source and return all tokens; the last one
    /// marks the end of the source.
    pub fn tokenize(&mut self) -> (r: Result<Vec<Token>, LexerError>)
        requires
            old(self).well_formed(),
        ensures
            final(self).well_formed(),
            match tokens_from(
                old(self).source(),
                old(self).table(),
                old(self).lookahead(),
                old(self).position(),
            ) {
                Ok(tokens) => r matches Ok(v) && token_views_of(v@) == tokens,
                Err(e) => r matches Err(x) && x@ == e,
            },
            final(self).source() == old(self).source(),
            final(self).table() == old(self).table(),
            final(self).lookahead() == old(self).lookahead(),
            final(self).position() == stop_from(
                old(self).source(),
                old(self).table(),
                old(self).lookahead(),
                old(self).position(),
            ),
            r matches Ok(v) ==> v@.len() > 0 && v@.last()@.kind is Eof && forall|i: int|
                0 <= i < v@.len() - 1 ==> !((#[trigger] v@[i])@.kind is Eof),
    {
        let mut tokens: Vec<Token> = Vec::new();
        let ghost chars = self.source();
        let ghost table = self.table();
        let ghost lookahead = self.lookahead();
        let ghost all = tokens_from(chars, table, lookahead, self.position());
        loop
            invariant_except_break
                forall|i: int| 0 <= i < tokens@.len() ==> !((#[trigger] tokens@[i])@.kind is Eof),
                match tokens_from(chars, table, lookahead, self.position()) {
                    Ok(rest) => all == Ok::<Seq<TokenView>, LexerErrorView>(
                        token_views_of(tokens@) + rest,
                    ),
                    Err(e) => all == Err::<Seq<TokenView>, LexerErrorView>(e),
                },
                stop_from(chars, table, lookahead, old(self).position()) == stop_from(
                    chars,
                    table,
                    lookahead,
                    self.position(),
                ),
            invariant
                self.well_formed(),
                self.source() == chars,
                self.table() == table,
                self.lookahead() == lookahead,
                all == tokens_from(chars, table, lookahead, old(self).position()),
                chars == old(self).source(),
                table == old(self).table(),
                lookahead == old(self).lookahead(),
            ensures
                self.well_formed(),
                self.position() == stop_from(chars, table, lookahead, old(self).position()),
                all == Ok::<Seq<TokenView>, LexerErrorView>(token_views_of(tokens@)),
                tokens@.len() > 0,
                tokens@.last()@.kind is Eof,
                forall|i: int| 0 <= i < tokens@.len() - 1 ==> !((#[trigger] tokens@[i])@.kind is Eof),
            decreases self.chars.len() - self.position,
        {
            let ghost from = self.position();
            let ghost before = token_views_of(tokens@);
            proof {
                lemma_next_token_progress(chars, table, lookahead, from);
            }
            let token = match self.next_token() {
                Ok(token) => token,
                Err(e) => {
                    return Err(e);
                },
            };
            let is_eof = token.is_eof();
            tokens.push(token);
            proof {
                assert(token_views_of(tokens@) =~= before.push(token@));
                if !is_eof {
                    match tokens_from(chars, table, lookahead, self.position()) {
                        Ok(rest) => {
                            assert(before + (seq![token@] + rest) =~= before.push(token@) + rest);
                        },
                        Err(e) => {},
                    }
                } else {
                    assert(before + seq![token@] =~= before.push(token@));
                }
            }
            if is_eof {
                break ;
            }
        }
        Ok(tokens)
    }
}

} // verus!
