//! The lexer: turns source text into a stream of tokens, recording the
//! errors it meets in a compilation report.
//!
//! The lexer reads the source one character at a time and is in one of three
//! states: reading ordinary code, inside a string literal, or inside a `${..}`
//! interpolation of a string. What it does is stated as a step function over
//! a model of its state (`step`), iterated over the whole input (`run`) and
//! closed by `finish`; `tokenize` is proved to produce exactly what `lex` says.
use vstd::prelude::*;
use crate::common::CompilationReport;
use crate::errors::{CompilerError, CompilerErrorView, LexerError, LexerErrorView, ParserError, Span, error_span, strings_view};
use crate::lexer_spans::{law_spans_within_source, span_within};
use crate::text::{char_count, string_push};
use crate::tokens::{Keyword, Operator, Symbol, TokenType, TokenTypeView, keyword_of, token_type_text};

verus! {

// ---------------------------------------------------------------------------
// Character classes
// ---------------------------------------------------------------------------

/// Whether `c` has the Unicode `White_Space` property, which is what std's
/// `char::is_whitespace` tests. The property holds of these 25 code points
/// (PropList.txt of the Unicode Character Database).
pub open spec fn is_whitespace_char(c: char) -> bool {
    let v = c as u32;
    ||| 0x09 <= v <= 0x0D
    ||| v == 0x20
    ||| v == 0x85
    ||| v == 0xA0
    ||| v == 0x1680
    ||| 0x2000 <= v <= 0x200A
    ||| v == 0x2028
    ||| v == 0x2029
    ||| v == 0x202F
    ||| v == 0x205F
    ||| v == 0x3000
}

/// An ASCII letter: the ASCII characters with the Unicode `Alphabetic` property.
pub open spec fn ascii_letter(c: char) -> bool {
    ('a' <= c && c <= 'z') || ('A' <= c && c <= 'Z')
}

/// Whether std's `char::is_alphabetic` holds of `c` (Unicode `Alphabetic`).
pub uninterp spec fn is_alphabetic_char(c: char) -> bool;

/// Whether std's `char::is_alphanumeric` holds of `c`.
pub uninterp spec fn is_alphanumeric_char(c: char) -> bool;

/// std's `char::is_whitespace`: whether `c` has the `White_Space` property.
#[verifier::external_body]
fn char_is_whitespace(c: char) -> (r: bool)
    ensures
        r == is_whitespace_char(c),
{
    c.is_whitespace()
}

/// std's `char::is_alphabetic`: the result is named; on ASCII, where the
/// `Alphabetic` property holds exactly of the letters, it is stated.
#[verifier::external_body]
fn char_is_alphabetic(c: char) -> (r: bool)
    ensures
        r == is_alphabetic_char(c),
        (c as u32) < 0x80 ==> (r <==> ascii_letter(c)),
{
    c.is_alphabetic()
}

/// std's `char::is_alphanumeric`. Its documentation defines it as
/// `is_alphabetic() || is_numeric()`, so every alphabetic character is
/// alphanumeric, and on ASCII it holds exactly of the letters and digits;
/// those facts are stated, the rest is named.
#[verifier::external_body]
fn char_is_alphanumeric(c: char) -> (r: bool)
    ensures
        r == is_alphanumeric_char(c),
        is_alphabetic_char(c) ==> r,
        (c as u32) < 0x80 ==> (r <==> ascii_letter(c) || ('0' <= c && c <= '9')),
{
    c.is_alphanumeric()
}

/// A Unicode scalar value: a code point that is not a surrogate.
pub open spec fn is_scalar_value(v: u32) -> bool {
    v <= 0x10FFFF && !(0xD800 <= v <= 0xDFFF)
}

/// std's `char::from_u32`: the character with code point `v` when `v` is a
/// Unicode scalar value, `None` otherwise.
#[verifier::external_body]
fn char_from_u32(v: u32) -> (r: Option<char>)
    ensures
        is_scalar_value(v) ==> r == Some(v as char),
        !is_scalar_value(v) ==> r is None,
{
    char::from_u32(v)
}

/// Characters skipped between tokens.
pub open spec fn skippable(c: char) -> bool {
    is_whitespace_char(c)
}

/// Characters that begin an identifier or keyword.
pub open spec fn identifier_start(c: char) -> bool {
    is_alphabetic_char(c) || c == '_'
}

/// Characters that continue an identifier.
pub open spec fn identifier_continue(c: char) -> bool {
    is_alphanumeric_char(c) || c == '_'
}

pub open spec fn ascii_digit(c: char) -> bool {
    '0' <= c && c <= '9'
}

pub open spec fn ascii_hexdigit(c: char) -> bool {
    ('0' <= c && c <= '9') || ('a' <= c && c <= 'f') || ('A' <= c && c <= 'F')
}

/// The value of a hexadecimal digit character.
pub open spec fn hex_digit_value(c: char) -> nat {
    if '0' <= c && c <= '9' {
        (c as nat - '0' as nat) as nat
    } else if 'a' <= c && c <= 'f' {
        (c as nat - 'a' as nat + 10) as nat
    } else {
        (c as nat - 'A' as nat + 10) as nat
    }
}

/// The number a string of decimal digits denotes.
pub open spec fn decimal_value(s: Seq<char>) -> nat
    decreases s.len(),
{
    if s.len() == 0 {
        0
    } else {
        decimal_value(s.drop_last()) * 10 + (s.last() as nat - '0' as nat) as nat
    }
}

/// The number a string of hexadecimal digits denotes.
pub open spec fn hex_value(s: Seq<char>) -> nat
    decreases s.len(),
{
    if s.len() == 0 {
        0
    } else {
        hex_value(s.drop_last()) * 16 + hex_digit_value(s.last())
    }
}

/// The number of `.` in `s`.
pub open spec fn dot_count(s: Seq<char>) -> nat
    decreases s.len(),
{
    if s.len() == 0 {
        0
    } else {
        dot_count(s.drop_last()) + if s.last() == '.' { 1nat } else { 0nat }
    }
}

/// The number of bytes of `c` in UTF-8.
pub open spec fn utf8_len(c: char) -> int {
    if (c as u32) < 0x80 {
        1
    } else if (c as u32) < 0x800 {
        2
    } else if (c as u32) < 0x10000 {
        3
    } else {
        4
    }
}

pub fn is_skippable(c: char) -> (r: bool)
    ensures
        r == skippable(c),
{
    char_is_whitespace(c)
}

pub fn is_identifier_start(c: char) -> (r: bool)
    ensures
        r == identifier_start(c),
{
    char_is_alphabetic(c) || c == '_'
}

fn is_ascii_digit(c: char) -> (r: bool)
    ensures
        r == ascii_digit(c),
{
    '0' <= c && c <= '9'
}

fn is_ascii_hexdigit(c: char) -> (r: bool)
    ensures
        r == ascii_hexdigit(c),
{
    ('0' <= c && c <= '9') || ('a' <= c && c <= 'f') || ('A' <= c && c <= 'F')
}

fn len_utf8(c: char) -> (r: usize)
    ensures
        r == utf8_len(c),
{
    let v = c as u32;
    if v < 0x80 {
        1
    } else if v < 0x800 {
        2
    } else if v < 0x10000 {
        3
    } else {
        4
    }
}

// ---------------------------------------------------------------------------
// The character cursor
// ---------------------------------------------------------------------------

/// A position in the source: the index of the next character, its byte
/// offset, and its line and column (both from 1).
pub struct Cursor {
    pub index: int,
    pub pos: int,
    pub line: int,
    pub col: int,
}

pub open spec fn start_cursor() -> Cursor {
    Cursor { index: 0, pos: 0, line: 1, col: 1 }
}

/// The next character, if any.
pub open spec fn peek(chars: Seq<char>, cur: Cursor) -> Option<char> {
    if 0 <= cur.index < chars.len() {
        Some(chars[cur.index])
    } else {
        None
    }
}

/// The cursor after consuming the next character (unchanged at the end).
/// A newline starts a new line at column 1.
pub open spec fn advance(chars: Seq<char>, cur: Cursor) -> Cursor {
    if 0 <= cur.index < chars.len() {
        let c = chars[cur.index];
        Cursor {
            index: cur.index + 1,
            pos: cur.pos + utf8_len(c),
            line: if c == '\n' { cur.line + 1 } else { cur.line },
            col: if c == '\n' { 1 } else { cur.col + 1 },
        }
    } else {
        cur
    }
}


/// The number of bytes of `chars` in UTF-8.
pub open spec fn byte_len(chars: Seq<char>) -> int
    decreases chars.len(),
{
    if chars.len() == 0 {
        0
    } else {
        byte_len(chars.drop_last()) + utf8_len(chars.last())
    }
}

/// The number of newlines in `chars`.
pub open spec fn newline_count(chars: Seq<char>) -> int
    decreases chars.len(),
{
    if chars.len() == 0 {
        0
    } else {
        newline_count(chars.drop_last()) + if chars.last() == '\n' { 1int } else { 0int }
    }
}

/// The number of characters of `chars` after its last newline (all of them
/// when it has none).
pub open spec fn chars_after_last_newline(chars: Seq<char>) -> int
    decreases chars.len(),
{
    if chars.len() == 0 {
        0
    } else if chars.last() == '\n' {
        0
    } else {
        chars_after_last_newline(chars.drop_last()) + 1
    }
}

/// Where the cursor stands once `consumed` has been read from the start: at
/// index `consumed.len()`, at byte offset the UTF-8 length of `consumed`, on
/// the line after its newlines, in the column after its last line's characters.
pub open spec fn position_after(consumed: Seq<char>) -> Cursor {
    Cursor {
        index: consumed.len() as int,
        pos: byte_len(consumed),
        line: 1 + newline_count(consumed),
        col: 1 + chars_after_last_newline(consumed),
    }
}

/// The inputs the lexer accepts: those whose byte offsets, and one past
/// them, fit in `usize`. Every string does: a `str` holds at most
/// `isize::MAX` bytes.
pub open spec fn input_fits(chars: Seq<char>) -> bool {
    byte_len(chars) < usize::MAX
}

/// A prefix is no longer in bytes than the whole.
pub proof fn lemma_byte_len_prefix(s: Seq<char>, i: int)
    requires
        0 <= i <= s.len(),
    ensures
        byte_len(s.take(i)) <= byte_len(s),
    decreases s.len() - i,
{
    if i < s.len() {
        lemma_byte_len_prefix(s, i + 1);
        assert(s.take(i + 1).drop_last() =~= s.take(i));
        assert(s.take(i + 1).last() == s[i]);
    } else {
        assert(s.take(i) =~= s);
    }
}

/// A cursor of the lexer: within the input, and at the exact position of
/// the characters before it.
pub open spec fn cursor_wf(chars: Seq<char>, cur: Cursor) -> bool {
    &&& input_fits(chars)
    &&& 0 <= cur.index <= chars.len()
    &&& cur == position_after(chars.take(cur.index))
    &&& cur.index <= cur.pos <= 4 * cur.index
    &&& 1 <= cur.line <= cur.index + 1
    &&& 1 <= cur.col <= cur.index + 1
}

proof fn lemma_position_bounds(q: Seq<char>)
    ensures
        q.len() <= byte_len(q) <= 4 * q.len(),
        0 <= newline_count(q) <= q.len(),
        0 <= chars_after_last_newline(q) <= q.len(),
    decreases q.len(),
{
    if q.len() > 0 {
        lemma_position_bounds(q.drop_last());
    }
}

/// Consuming one more character moves the exact position of a prefix to the
/// exact position of the prefix one longer.
proof fn lemma_advance_position(chars: Seq<char>, cur: Cursor)
    requires
        0 <= cur.index < chars.len(),
        cur == position_after(chars.take(cur.index)),
    ensures
        advance(chars, cur) == position_after(chars.take(cur.index + 1)),
{
    let q = chars.take(cur.index + 1);
    assert(q.drop_last() =~= chars.take(cur.index));
    assert(q.last() == chars[cur.index]);
}

proof fn lemma_advance_n_position(chars: Seq<char>, cur: Cursor, n: nat)
    requires
        0 <= cur.index,
        cur.index + n <= chars.len(),
        cur == position_after(chars.take(cur.index)),
    ensures
        advance_n(chars, cur, n) == position_after(chars.take(cur.index + n)),
    decreases n,
{
    if n > 0 {
        lemma_advance_position(chars, cur);
        lemma_advance_n_position(chars, advance(chars, cur), (n - 1) as nat);
    }
}

/// Reading `n` characters of `chars` from the start leaves the cursor at
/// byte offset the UTF-8 length of those characters, on line one more than
/// the number of newlines among them, and in column one more than the number
/// of characters after the last of those newlines (after all of them when
/// there is none).
pub proof fn law_cursor_position(chars: Seq<char>, n: nat)
    requires
        n <= chars.len(),
    ensures
        advance_n(chars, start_cursor(), n) == position_after(chars.take(n as int)),
{
    assert(chars.take(0) =~= Seq::<char>::empty());
    lemma_advance_n_position(chars, start_cursor(), n);
}

/// A cursor over the characters of a source text. It knows the byte offset,
/// line and column of the next character to read.
pub struct CharStream {
    chars: Vec<char>,
    index: usize,
    current_pos: usize,
    line: usize,
    col: usize,
}

impl CharStream {
    /// The whole source text.
    pub closed spec fn source(&self) -> Seq<char> {
        self.chars@
    }

    /// The characters read so far.
    pub closed spec fn consumed(&self) -> Seq<char> {
        self.chars@.take(self.index as int)
    }

    /// The position of the next character.
    pub closed spec fn cursor(&self) -> Cursor {
        Cursor {
            index: self.index as int,
            pos: self.current_pos as int,
            line: self.line as int,
            col: self.col as int,
        }
    }

    /// The cursor is at the exact position of the characters read so far.
    pub closed spec fn wf(&self) -> bool {
        cursor_wf(self.chars@, self.cursor())
    }

    /// A cursor at the start of `source_code`.
    pub fn new(source_code: &str) -> (r: CharStream)
        requires
            input_fits(source_code@),
        ensures
            r.source() == source_code@,
            r.consumed() == Seq::<char>::empty(),
            r.cursor() == start_cursor(),
            r.wf(),
    {
        let mut chars: Vec<char> = Vec::new();
        let n = source_code.unicode_len();
        let mut i: usize = 0;
        while i < n
            invariant
                n == source_code@.len(),
                i <= n,
                chars@ == source_code@.take(i as int),
            decreases n - i,
        {
            chars.push(source_code.get_char(i));
            i = i + 1;
            assert(chars@ =~= source_code@.take(i as int));
        }
        assert(source_code@.take(n as int) =~= source_code@);
        assert(chars@.take(0) =~= Seq::<char>::empty());
        CharStream { chars, index: 0, current_pos: 0, line: 1, col: 1 }
    }

    /// Consumes and returns the next character; `None` once all are read.
    pub fn next_char(&mut self) -> (r: Option<char>)
        requires
            old(self).wf(),
        ensures
            final(self).wf(),
            final(self).source() == old(self).source(),
            r == peek(old(self).source(), old(self).cursor()),
            final(self).cursor() == advance(old(self).source(), old(self).cursor()),
            r matches Some(c) ==> final(self).consumed() == old(self).consumed().push(c),
            r is None ==> final(self).consumed() == old(self).consumed()
                && old(self).consumed() == old(self).source(),
    {
        if self.index < self.chars.len() {
            proof {
                lemma_advance_position(self.chars@, self.cursor());
                lemma_position_bounds(self.chars@.take(self.index + 1));
                lemma_byte_len_prefix(self.chars@, self.index + 1);
                lemma_position_bounds(self.chars@);
            }
            let c = self.chars[self.index];
            let c_len = len_utf8(c);
            self.index = self.index + 1;
            self.current_pos = self.current_pos + c_len;
            if c == '\n' {
                self.line = self.line + 1;
                self.col = 1;
            } else {
                self.col = self.col + 1;
            }
            assert(self.chars@.take(self.index as int) =~= old(self).chars@.take(old(self).index as int).push(c));
            Some(c)
        } else {
            assert(self.chars@.take(self.index as int) =~= self.chars@);
            None
        }
    }

    /// The next character, not consumed.
    pub fn peek_char(&self) -> (r: Option<char>)
        requires
            self.wf(),
        ensures
            r == peek(self.source(), self.cursor()),
    {
        if self.index < self.chars.len() {
            Some(self.chars[self.index])
        } else {
            None
        }
    }

    /// Byte offset, line and column of the next character: the UTF-8 length
    /// of the characters read so far, one more than their newlines, and one
    /// more than the characters after their last newline.
    pub fn get_position(&self) -> (r: (usize, usize, usize))
        requires
            self.wf(),
        ensures
            r.0 == self.cursor().pos,
            r.1 == self.cursor().line,
            r.2 == self.cursor().col,
            r.0 == byte_len(self.consumed()),
            r.1 == 1 + newline_count(self.consumed()),
            r.2 == 1 + chars_after_last_newline(self.consumed()),
    {
        (self.current_pos, self.line, self.col)
    }
}

// ---------------------------------------------------------------------------
// Tokens
// ---------------------------------------------------------------------------

/// A token and where it stands in the source.
#[derive(Debug, PartialEq, Clone)]
pub struct Token {
    pub token: TokenType,
    pub span: Span,
}

/// A `Token` with its strings taken as character sequences.
pub struct TokenView {
    pub token: TokenTypeView,
    pub span: Span,
}

impl View for Token {
    type V = TokenView;

    open spec fn view(&self) -> TokenView {
        TokenView { token: self.token@, span: self.span }
    }
}

pub open spec fn tokens_view(v: Seq<Token>) -> Seq<TokenView> {
    v.map_values(|t: Token| t@)
}

pub open spec fn errors_view(v: Seq<CompilerError>) -> Seq<CompilerErrorView> {
    v.map_values(|e: CompilerError| e@)
}

// ---------------------------------------------------------------------------
// The model of the lexer and its step function
// ---------------------------------------------------------------------------

/// What the lexer is reading.
#[derive(Debug, Clone, Copy, PartialEq, Eq, Structural)]
pub enum LexingState {
    Normal,
    InString,
    InInterpolation,
}

/// The state of the lexer: its cursor and mode, the string literal being
/// read (where it began, its text so far, whether it holds an
/// interpolation), and the tokens and errors produced so far.
pub struct LexModel {
    pub cur: Cursor,
    pub mode: LexingState,
    pub start_pos: int,
    pub start_line: int,
    pub start_col: int,
    pub buffer: Seq<char>,
    pub complex: bool,
    pub tokens: Seq<TokenView>,
    pub errors: Seq<CompilerErrorView>,
}

pub open spec fn initial_model() -> LexModel {
    LexModel {
        cur: start_cursor(),
        mode: LexingState::Normal,
        start_pos: 0,
        start_line: 0,
        start_col: 0,
        buffer: Seq::empty(),
        complex: false,
        tokens: Seq::empty(),
        errors: Seq::empty(),
    }
}

pub open spec fn span_of(file_id: usize, start: int, end: int, line: int, col: int) -> Span {
    Span { file_id, start: start as usize, end: end as usize, line: line as usize, col: col as usize }
}

/// `m` with a token appended.
pub open spec fn with_token(m: LexModel, t: TokenTypeView, span: Span) -> LexModel {
    LexModel { tokens: m.tokens.push(TokenView { token: t, span }), ..m }
}

/// `m` with a lexer error appended.
pub open spec fn with_error(m: LexModel, e: LexerErrorView) -> LexModel {
    LexModel { errors: m.errors.push(CompilerErrorView::LexerError(e)), ..m }
}

pub open spec fn at(m: LexModel, cur: Cursor) -> LexModel {
    LexModel { cur, ..m }
}

pub open spec fn unterminated_string_note() -> Seq<Seq<char>> {
    seq!["You may have forgotten to close the string with '\"'."@]
}

pub open spec fn unterminated_interpolation_note() -> Seq<Seq<char>> {
    seq!["You may have forgotten to close the interpolation with '}'."@]
}

pub open spec fn unterminated_comment_note() -> Seq<Seq<char>> {
    seq!["You may have forgotten to close the comment with '*/'."@]
}

pub open spec fn bad_hex_note() -> Seq<Seq<char>> {
    seq!["The escape sequence is not a valid hexadecimal number."@]
}

pub open spec fn bad_code_point_note() -> Seq<Seq<char>> {
    seq!["The escape sequence is not a valid Unicode code point."@]
}

pub open spec fn bad_escape_note(e: char) -> Seq<Seq<char>> {
    seq![seq!['\'', e] + "' is not a valid escape sequence."@]
}

pub open spec fn multiple_dots_note() -> Seq<Seq<char>> {
    seq!["You may have multiple decimal points."@]
}

pub open spec fn out_of_range_note() -> Seq<Seq<char>> {
    seq!["Your number may be too large or too small."@]
}

/// The cursor after a `//` comment: past the next newline, or at the end.
pub open spec fn skip_line(chars: Seq<char>, cur: Cursor) -> Cursor
    decreases chars.len() - cur.index,
{
    if 0 <= cur.index < chars.len() {
        if chars[cur.index] == '\n' {
            advance(chars, cur)
        } else {
            skip_line(chars, advance(chars, cur))
        }
    } else {
        cur
    }
}

/// The cursor after a `/* .. */` comment body, and whether `*/` was found.
pub open spec fn skip_block(chars: Seq<char>, cur: Cursor) -> (Cursor, bool)
    decreases chars.len() - cur.index,
{
    if 0 <= cur.index < chars.len() {
        let next = advance(chars, cur);
        if chars[cur.index] == '*' && peek(chars, next) == Some('/') {
            (advance(chars, next), true)
        } else {
            skip_block(chars, next)
        }
    } else {
        (cur, false)
    }
}

/// The longest run of characters from `cur` that satisfy `p`, and the cursor after it.
pub open spec fn take_while(chars: Seq<char>, cur: Cursor, p: spec_fn(char) -> bool) -> (Seq<char>, Cursor)
    decreases chars.len() - cur.index,
{
    if 0 <= cur.index < chars.len() && p(chars[cur.index]) {
        let (rest, end) = take_while(chars, advance(chars, cur), p);
        (seq![chars[cur.index]] + rest, end)
    } else {
        (Seq::empty(), cur)
    }
}

pub open spec fn number_char(c: char) -> bool {
    ascii_digit(c) || c == '.'
}

/// Characters of a number literal.
pub open spec fn number_chars() -> spec_fn(char) -> bool {
    |c: char| number_char(c)
}

/// Characters that continue an identifier.
pub open spec fn word_chars() -> spec_fn(char) -> bool {
    |c: char| identifier_continue(c)
}

/// Hexadecimal digits.
pub open spec fn hex_chars() -> spec_fn(char) -> bool {
    |c: char| ascii_hexdigit(c)
}

proof fn lemma_take_while_step(chars: Seq<char>, cur: Cursor, p: spec_fn(char) -> bool)
    requires
        0 <= cur.index < chars.len(),
        p(chars[cur.index]),
    ensures
        take_while(chars, cur, p) == (
            seq![chars[cur.index]] + take_while(chars, advance(chars, cur), p).0,
            take_while(chars, advance(chars, cur), p).1,
        ),
{
}

proof fn lemma_take_while_stop(chars: Seq<char>, cur: Cursor, p: spec_fn(char) -> bool)
    requires
        !(0 <= cur.index < chars.len() && p(chars[cur.index])),
    ensures
        take_while(chars, cur, p) == (Seq::<char>::empty(), cur),
{
}

/// Lexing a number that starts at `m.cur` (its first character is a digit).
pub open spec fn number_step(chars: Seq<char>, file_id: usize, m: LexModel) -> LexModel {
    let (sp, sl, sc) = (m.cur.pos, m.cur.line, m.cur.col);
    let (number, end) = take_while(chars, m.cur, number_chars());
    let span = span_of(file_id, sp, end.pos, sl, sc);
    let m1 = at(m, end);
    if dot_count(number) > 0 {
        if dot_count(number) == 1 {
            with_token(m1, TokenTypeView::FloatLiteral(number), span)
        } else {
            with_error(m1, LexerErrorView::InvalidNumberFormat { invalid_string: number, span, suggestions: multiple_dots_note() })
        }
    } else if decimal_value(number) <= i64::MAX {
        with_token(m1, TokenTypeView::IntegerLiteral(decimal_value(number) as i64), span)
    } else {
        with_error(m1, LexerErrorView::InvalidNumberFormat { invalid_string: number, span, suggestions: out_of_range_note() })
    }
}

/// The operator or symbol that `c` starts, given the character after it
/// (`None` for `+ * @ ^ ~`, which make no token), and how many characters it spans.
pub open spec fn operator_of(c: char, next: Option<char>, after: Option<char>) -> (Option<TokenTypeView>, int) {
    if c == '!' {
        if next == Some('=') {
            (Some(TokenTypeView::Operator(Operator::NotEqual)), 2)
        } else if next == Some('!') {
            (Some(TokenTypeView::Operator(Operator::DoubleExclamation)), 2)
        } else {
            (Some(TokenTypeView::Operator(Operator::LogicalNot)), 1)
        }
    } else if c == '?' {
        if next == Some('?') {
            (Some(TokenTypeView::Operator(Operator::DoubleQuestion)), 2)
        } else {
            (Some(TokenTypeView::Operator(Operator::QuestionMark)), 1)
        }
    } else if c == '=' {
        if next == Some('=') {
            (Some(TokenTypeView::Operator(Operator::Equal)), 2)
        } else {
            (Some(TokenTypeView::Operator(Operator::Assign)), 1)
        }
    } else if c == '<' {
        if next == Some('=') {
            (Some(TokenTypeView::Operator(Operator::LessOrEqual)), 2)
        } else if next == Some('<') {
            (Some(TokenTypeView::Operator(Operator::ShiftLeft)), 2)
        } else {
            (Some(TokenTypeView::Operator(Operator::LessThan)), 1)
        }
    } else if c == '>' {
        if next == Some('=') {
            (Some(TokenTypeView::Operator(Operator::GreaterOrEqual)), 2)
        } else if next == Some('>') {
            (Some(TokenTypeView::Operator(Operator::ShiftRight)), 2)
        } else {
            (Some(TokenTypeView::Operator(Operator::GreaterThan)), 1)
        }
    } else if c == '&' {
        if next == Some('&') {
            (Some(TokenTypeView::Operator(Operator::And)), 2)
        } else {
            (Some(TokenTypeView::Operator(Operator::BitwiseAnd)), 1)
        }
    } else if c == '|' {
        if next == Some('|') {
            (Some(TokenTypeView::Operator(Operator::Or)), 2)
        } else {
            (Some(TokenTypeView::Operator(Operator::BitwiseOr)), 1)
        }
    } else if c == '-' {
        if next == Some('>') {
            (Some(TokenTypeView::Symbol(Symbol::Arrow)), 2)
        } else {
            (Some(TokenTypeView::Operator(Operator::Subtract)), 1)
        }
    } else if c == '.' {
        if next == Some('.') {
            if after == Some('=') {
                (Some(TokenTypeView::Operator(Operator::RangeInclusive)), 3)
            } else {
                (Some(TokenTypeView::Operator(Operator::RangeExclusive)), 2)
            }
        } else {
            (Some(TokenTypeView::Symbol(Symbol::Dot)), 1)
        }
    } else if c == ':' {
        if next == Some(':') {
            (Some(TokenTypeView::Symbol(Symbol::DoubleColon)), 2)
        } else {
            (Some(TokenTypeView::Symbol(Symbol::Colon)), 1)
        }
    } else {
        (None, 1)
    }
}

pub open spec fn operator_start(c: char) -> bool {
    c == '+' || c == '-' || c == '*' || c == '=' || c == '!' || c == '>' || c == '<' || c == '&'
        || c == '|' || c == '@' || c == '^' || c == '~' || c == '.' || c == ':' || c == '?'
}

pub open spec fn symbol_of(c: char) -> Option<Symbol> {
    if c == '(' {
        Some(Symbol::LeftParen)
    } else if c == ')' {
        Some(Symbol::RightParen)
    } else if c == '{' {
        Some(Symbol::LeftBrace)
    } else if c == '}' {
        Some(Symbol::RightBrace)
    } else if c == '[' {
        Some(Symbol::LeftBracket)
    } else if c == ']' {
        Some(Symbol::RightBracket)
    } else if c == ',' {
        Some(Symbol::Comma)
    } else if c == ';' {
        Some(Symbol::Semicolon)
    } else {
        None
    }
}

/// `n` applications of `advance`.
pub open spec fn advance_n(chars: Seq<char>, cur: Cursor, n: nat) -> Cursor
    decreases n,
{
    if n == 0 {
        cur
    } else {
        advance_n(chars, advance(chars, cur), (n - 1) as nat)
    }
}

/// Lexing an identifier or keyword that starts at `m.cur`.
pub open spec fn word_step(chars: Seq<char>, file_id: usize, m: LexModel) -> LexModel {
    let cur = m.cur;
    let (ident, end) = take_while(chars, cur, word_chars());
    let t = match keyword_of(ident) {
        Some(k) => TokenTypeView::Keyword(k),
        None => TokenTypeView::Identifier(ident),
    };
    with_token(at(m, end), t, span_of(file_id, cur.pos, end.pos, cur.line, cur.col))
}

/// Lexing an operator or symbol that starts with `m.cur`'s character.
pub open spec fn operator_step(chars: Seq<char>, file_id: usize, m: LexModel) -> LexModel {
    let cur = m.cur;
    let c = chars[cur.index];
    let c1 = advance(chars, cur);
    let next = peek(chars, c1);
    let after = peek(chars, advance(chars, c1));
    let (tok, n) = operator_of(c, next, after);
    let end = advance_n(chars, cur, n as nat);
    match tok {
        Some(t) => with_token(at(m, end), t, span_of(file_id, cur.pos, end.pos, cur.line, cur.col)),
        None => at(m, end),
    }
}

/// One step of reading ordinary code, at a character that is not the end.
pub open spec fn normal_step(chars: Seq<char>, file_id: usize, m: LexModel) -> LexModel {
    let cur = m.cur;
    let c = chars[cur.index];
    let (sp, sl, sc) = (cur.pos, cur.line, cur.col);
    if skippable(c) {
        at(m, advance(chars, cur))
    } else if c == '/' {
        let c1 = advance(chars, cur);
        if peek(chars, c1) == Some('/') {
            at(m, skip_line(chars, advance(chars, c1)))
        } else if peek(chars, c1) == Some('*') {
            let (end, found) = skip_block(chars, advance(chars, c1));
            if found {
                at(m, end)
            } else {
                with_error(
                    at(m, end),
                    LexerErrorView::UnterminatedMultiLineComment {
                        span: span_of(file_id, sp, end.pos, sl, sc),
                        suggestions: unterminated_comment_note(),
                    },
                )
            }
        } else {
            with_token(at(m, c1), TokenTypeView::Operator(Operator::Divide), span_of(file_id, sp, c1.pos, sl, sc))
        }
    } else if c == '"' {
        LexModel {
            mode: LexingState::InString,
            cur: advance(chars, cur),
            start_pos: sp,
            start_line: sl,
            start_col: sc,
            ..m
        }
    } else if identifier_start(c) {
        word_step(chars, file_id, m)
    } else if ascii_digit(c) {
        number_step(chars, file_id, m)
    } else if operator_start(c) {
        operator_step(chars, file_id, m)
    } else if symbol_of(c) is Some {
        let c1 = advance(chars, cur);
        with_token(at(m, c1), TokenTypeView::Symbol(symbol_of(c)->0), span_of(file_id, sp, c1.pos, sl, sc))
    } else {
        with_error(
            at(m, advance(chars, cur)),
            LexerErrorView::UnrecognizedCharacter { character: c, span: span_of(file_id, sp, cur.pos, sl, sc), suggestion: Seq::empty() },
        )
    }
}

/// The character a simple escape (`\\ \" \' \n \t \r \0`) stands for.
pub open spec fn simple_escape(e: char) -> Option<char> {
    if e == '\\' {
        Some('\\')
    } else if e == '"' {
        Some('"')
    } else if e == '\'' {
        Some('\'')
    } else if e == 'n' {
        Some('\n')
    } else if e == 't' {
        Some('\t')
    } else if e == 'r' {
        Some('\r')
    } else if e == '0' {
        Some('\0')
    } else {
        None
    }
}

/// The error span of a string literal being read, ending at `end`.
pub open spec fn string_span(file_id: usize, m: LexModel, end: Cursor) -> Span {
    span_of(file_id, m.start_pos, end.pos, m.start_line, m.start_col)
}

/// A `\x`, `\u` or `\U` escape whose digits start at `c2`.
pub open spec fn hex_escape_step(chars: Seq<char>, file_id: usize, m: LexModel, c2: Cursor) -> LexModel {
    let (hex, end) = take_while(chars, c2, hex_chars());
    let m1 = at(m, end);
    if hex.len() == 0 || hex_value(hex) > u32::MAX {
        with_error(m1, LexerErrorView::InvalidEscapeSequence { span: string_span(file_id, m, end), suggestions: bad_hex_note() })
    } else if !is_scalar_value(hex_value(hex) as u32) {
        with_error(m1, LexerErrorView::InvalidEscapeSequence { span: string_span(file_id, m, end), suggestions: bad_code_point_note() })
    } else {
        LexModel { buffer: m.buffer.push((hex_value(hex) as u32) as char), ..m1 }
    }
}

/// One step inside a string literal, at a character that is not the end.
pub open spec fn string_step(chars: Seq<char>, file_id: usize, m: LexModel) -> LexModel {
    let cur = m.cur;
    let c = chars[cur.index];
    let c1 = advance(chars, cur);
    if c == '"' {
        let m1 = with_token(at(m, c1), TokenTypeView::StringLiteral(m.buffer), string_span(file_id, m, c1));
        let m2 = if m.complex {
            with_token(m1, TokenTypeView::ComplexStringEnd, span_of(file_id, c1.pos, c1.pos, c1.line, c1.col))
        } else {
            m1
        };
        LexModel { buffer: Seq::empty(), complex: false, mode: LexingState::Normal, ..m2 }
    } else if c == '$' {
        if peek(chars, c1) == Some('{') {
            let c2 = advance(chars, c1);
            let m1 = LexModel { complex: true, ..at(m, c2) };
            let m2 = if m.buffer.len() > 0 {
                let a = with_token(m1, TokenTypeView::ComplexStringStart, span_of(file_id, m.start_pos, m.start_pos, m.start_line, m.start_col));
                let b = with_token(a, TokenTypeView::StringLiteral(m.buffer), span_of(file_id, m.start_pos, c2.pos - 1, m.start_line, m.start_col));
                LexModel { buffer: Seq::empty(), ..b }
            } else {
                m1
            };
            let m3 = with_token(m2, TokenTypeView::StringInterpolationStart, span_of(file_id, c2.pos - 1, c2.pos, c2.line, c2.col));
            LexModel { mode: LexingState::InInterpolation, ..m3 }
        } else {
            LexModel { buffer: m.buffer.push('$'), ..at(m, c1) }
        }
    } else if c == '\\' {
        match peek(chars, c1) {
            None => {
                let m1 = with_error(at(m, c1), LexerErrorView::UnterminatedStringLiteral { span: string_span(file_id, m, c1), suggestions: unterminated_string_note() });
                LexModel { mode: LexingState::Normal, ..m1 }
            },
            Some(e) => {
                if simple_escape(e) is Some {
                    LexModel { buffer: m.buffer.push(simple_escape(e)->0), ..at(m, advance(chars, c1)) }
                } else if e == 'x' || e == 'u' || e == 'U' {
                    hex_escape_step(chars, file_id, m, advance(chars, c1))
                } else if e == '$' {
                    LexModel { buffer: m.buffer.push('$'), ..at(m, c1) }
                } else {
                    with_error(at(m, c1), LexerErrorView::InvalidEscapeSequence { span: string_span(file_id, m, c1), suggestions: bad_escape_note(e) })
                }
            },
        }
    } else {
        LexModel { buffer: m.buffer.push(c), ..at(m, c1) }
    }
}

/// One step inside an interpolation, at a character that is not the end.
pub open spec fn interpolation_step(chars: Seq<char>, file_id: usize, m: LexModel) -> LexModel {
    let cur = m.cur;
    let c = chars[cur.index];
    if skippable(c) {
        at(m, advance(chars, cur))
    } else if c == '}' {
        let c1 = advance(chars, cur);
        let m1 = with_token(at(m, c1), TokenTypeView::StringInterpolationEnd, span_of(file_id, c1.pos - 1, c1.pos, c1.line, c1.col));
        LexModel { mode: LexingState::InString, ..m1 }
    } else {
        normal_step(chars, file_id, m)
    }
}

/// One step of the lexer, at a character that is not the end.
pub open spec fn step(chars: Seq<char>, file_id: usize, m: LexModel) -> LexModel {
    match m.mode {
        LexingState::Normal => normal_step(chars, file_id, m),
        LexingState::InString => string_step(chars, file_id, m),
        LexingState::InInterpolation => interpolation_step(chars, file_id, m),
    }
}

/// Steps until the whole input is consumed.
pub open spec fn run(chars: Seq<char>, file_id: usize, m: LexModel) -> LexModel
    decreases chars.len() - m.cur.index,
{
    if 0 <= m.cur.index < chars.len() {
        let next = step(chars, file_id, m);
        if m.cur.index < next.cur.index <= chars.len() {
            run(chars, file_id, next)
        } else {
            next
        }
    } else {
        m
    }
}

/// The end of input: an unfinished string or interpolation is an error, and
/// an end-of-file token closes the stream.
pub open spec fn finish(file_id: usize, m: LexModel) -> LexModel {
    let eof_span = span_of(file_id, m.cur.pos, m.cur.pos, m.cur.line, m.cur.col);
    let m1 = match m.mode {
        LexingState::InString => with_error(m, LexerErrorView::UnterminatedStringLiteral {
            span: span_of(file_id, m.start_pos, m.cur.pos, m.start_line, m.start_col),
            suggestions: unterminated_string_note(),
        }),
        LexingState::InInterpolation => with_error(m, LexerErrorView::UnterminatedInterpolation {
            span: span_of(file_id, m.start_pos, m.cur.pos, m.start_line, m.start_col),
            suggestions: unterminated_interpolation_note(),
        }),
        LexingState::Normal => m,
    };
    with_token(m1, TokenTypeView::EOF, eof_span)
}

/// What lexing `chars` as file `file_id` produces: its tokens and errors.
pub open spec fn lex(chars: Seq<char>, file_id: usize) -> LexModel {
    finish(file_id, run(chars, file_id, initial_model()))
}


// ---------------------------------------------------------------------------
// Laws
// ---------------------------------------------------------------------------

/// No token of `tokens` is the end-of-file marker.
pub open spec fn no_eof(tokens: Seq<TokenView>) -> bool {
    forall|i: int| 0 <= i < tokens.len() ==> !(#[trigger] tokens[i].token is EOF)
}

proof fn lemma_with_token_no_eof(m: LexModel, t: TokenTypeView, span: Span)
    requires
        no_eof(m.tokens),
        !(t is EOF),
    ensures
        no_eof(with_token(m, t, span).tokens),
{
    let n = with_token(m, t, span).tokens;
    assert forall|i: int| 0 <= i < n.len() implies !(#[trigger] n[i].token is EOF) by {
        if i < m.tokens.len() {
            assert(n[i] == m.tokens[i]);
        }
    }
}

proof fn lemma_step_no_eof(chars: Seq<char>, file_id: usize, m: LexModel)
    requires
        no_eof(m.tokens),
        0 <= m.cur.index < chars.len(),
    ensures
        no_eof(step(chars, file_id, m).tokens),
{
    let cur = m.cur;
    let c = chars[cur.index];
    let c1 = advance(chars, cur);
    // every branch appends at most two tokens, none of them end-of-file
    match m.mode {
        LexingState::InString => {
            if c == '"' {
                let m1 = with_token(at(m, c1), TokenTypeView::StringLiteral(m.buffer), string_span(file_id, m, c1));
                lemma_with_token_no_eof(at(m, c1), TokenTypeView::StringLiteral(m.buffer), string_span(file_id, m, c1));
                if m.complex {
                    lemma_with_token_no_eof(m1, TokenTypeView::ComplexStringEnd, span_of(file_id, c1.pos, c1.pos, c1.line, c1.col));
                }
            } else if c == '$' && peek(chars, c1) == Some('{') {
                let c2 = advance(chars, c1);
                let m1 = LexModel { complex: true, ..at(m, c2) };
                let m2 = if m.buffer.len() > 0 {
                    let a = with_token(m1, TokenTypeView::ComplexStringStart, span_of(file_id, m.start_pos, m.start_pos, m.start_line, m.start_col));
                    lemma_with_token_no_eof(m1, TokenTypeView::ComplexStringStart, span_of(file_id, m.start_pos, m.start_pos, m.start_line, m.start_col));
                    let b = with_token(a, TokenTypeView::StringLiteral(m.buffer), span_of(file_id, m.start_pos, c2.pos - 1, m.start_line, m.start_col));
                    lemma_with_token_no_eof(a, TokenTypeView::StringLiteral(m.buffer), span_of(file_id, m.start_pos, c2.pos - 1, m.start_line, m.start_col));
                    LexModel { buffer: Seq::empty(), ..b }
                } else {
                    m1
                };
                lemma_with_token_no_eof(m2, TokenTypeView::StringInterpolationStart, span_of(file_id, c2.pos - 1, c2.pos, c2.line, c2.col));
            }
        },
        LexingState::InInterpolation => {
            if !skippable(c) && c == '}' {
                lemma_with_token_no_eof(at(m, c1), TokenTypeView::StringInterpolationEnd, span_of(file_id, c1.pos - 1, c1.pos, c1.line, c1.col));
            } else if !skippable(c) {
                lemma_normal_step_no_eof(chars, file_id, m);
            }
        },
        LexingState::Normal => {
            lemma_normal_step_no_eof(chars, file_id, m);
        },
    }
}

proof fn lemma_normal_step_no_eof(chars: Seq<char>, file_id: usize, m: LexModel)
    requires
        no_eof(m.tokens),
        0 <= m.cur.index < chars.len(),
    ensures
        no_eof(normal_step(chars, file_id, m).tokens),
{
    let cur = m.cur;
    let c = chars[cur.index];
    let (sp, sl, sc) = (cur.pos, cur.line, cur.col);
    let c1 = advance(chars, cur);
    if skippable(c) {
    } else if c == '/' {
        if peek(chars, c1) != Some('/') && peek(chars, c1) != Some('*') {
            lemma_with_token_no_eof(at(m, c1), TokenTypeView::Operator(Operator::Divide), span_of(file_id, sp, c1.pos, sl, sc));
        }
    } else if c == '"' {
    } else if identifier_start(c) {
        let (ident, end) = take_while(chars, cur, word_chars());
        let t = match keyword_of(ident) {
            Some(k) => TokenTypeView::Keyword(k),
            None => TokenTypeView::Identifier(ident),
        };
        lemma_with_token_no_eof(at(m, end), t, span_of(file_id, cur.pos, end.pos, cur.line, cur.col));
    } else if ascii_digit(c) {
        let (number, end) = take_while(chars, m.cur, number_chars());
        let span = span_of(file_id, sp, end.pos, sl, sc);
        lemma_with_token_no_eof(at(m, end), TokenTypeView::FloatLiteral(number), span);
        lemma_with_token_no_eof(at(m, end), TokenTypeView::IntegerLiteral(decimal_value(number) as i64), span);
    } else if operator_start(c) {
        let next = peek(chars, c1);
        let after = peek(chars, advance(chars, c1));
        let (tok, n) = operator_of(c, next, after);
        let end = advance_n(chars, cur, n as nat);
        if let Some(t) = tok {
            lemma_with_token_no_eof(at(m, end), t, span_of(file_id, cur.pos, end.pos, cur.line, cur.col));
        }
    } else if symbol_of(c) is Some {
        lemma_with_token_no_eof(at(m, c1), TokenTypeView::Symbol(symbol_of(c)->0), span_of(file_id, sp, c1.pos, sl, sc));
    }
}

proof fn lemma_run_no_eof(chars: Seq<char>, file_id: usize, m: LexModel)
    requires
        no_eof(m.tokens),
    ensures
        no_eof(run(chars, file_id, m).tokens),
    decreases chars.len() - m.cur.index,
{
    if 0 <= m.cur.index < chars.len() {
        let next = step(chars, file_id, m);
        lemma_step_no_eof(chars, file_id, m);
        if m.cur.index < next.cur.index <= chars.len() {
            lemma_run_no_eof(chars, file_id, next);
        }
    }
}

proof fn lemma_run_blank(chars: Seq<char>, file_id: usize, m: LexModel)
    requires
        m.mode == LexingState::Normal,
        0 <= m.cur.index,
        forall|i: int| m.cur.index <= i < chars.len() ==> skippable(#[trigger] chars[i]),
    ensures
        run(chars, file_id, m).tokens == m.tokens,
        run(chars, file_id, m).errors == m.errors,
        run(chars, file_id, m).mode == LexingState::Normal,
    decreases chars.len() - m.cur.index,
{
    if 0 <= m.cur.index < chars.len() {
        let next = step(chars, file_id, m);
        assert(next == at(m, advance(chars, m.cur)));
        lemma_run_blank(chars, file_id, next);
    }
}

/// Input made only of whitespace gives just the end-of-file token and no error.
pub proof fn law_blank_input(chars: Seq<char>, file_id: usize)
    requires
        forall|i: int| 0 <= i < chars.len() ==> skippable(#[trigger] chars[i]),
    ensures
        lex(chars, file_id).tokens.len() == 1,
        lex(chars, file_id).tokens[0].token is EOF,
        lex(chars, file_id).errors.len() == 0,
{
    lemma_run_blank(chars, file_id, initial_model());
}

proof fn lemma_take_while_all(chars: Seq<char>, cur: Cursor, p: spec_fn(char) -> bool)
    requires
        0 <= cur.index <= chars.len(),
        forall|i: int| cur.index <= i < chars.len() ==> p(#[trigger] chars[i]),
    ensures
        take_while(chars, cur, p).0 == chars.skip(cur.index),
        take_while(chars, cur, p).1.index == chars.len(),
    decreases chars.len() - cur.index,
{
    if cur.index < chars.len() {
        lemma_take_while_all(chars, advance(chars, cur), p);
        assert(seq![chars[cur.index]] + chars.skip(cur.index + 1) =~= chars.skip(cur.index));
    } else {
        assert(chars.skip(cur.index) =~= Seq::<char>::empty());
    }
}

/// A word that begins with `_` is an identifier: lexing `_` followed by
/// letters, digits and underscores (characters that `char::is_alphanumeric`
/// accepts, or `_`) gives one identifier token holding exactly that word,
/// then the end of file, and no error.
pub proof fn law_underscore_starts_identifier(chars: Seq<char>, file_id: usize)
    requires
        chars.len() >= 1,
        chars[0] == '_',
        forall|i: int| 1 <= i < chars.len() ==> #[trigger] chars[i] == '_' || is_alphanumeric_char(chars[i]),
    ensures
        lex(chars, file_id).errors.len() == 0,
        lex(chars, file_id).tokens.len() == 2,
        lex(chars, file_id).tokens[0].token == TokenTypeView::Identifier(chars),
        lex(chars, file_id).tokens[0].span.start == 0,
        lex(chars, file_id).tokens[1].token is EOF,
{
    let m0 = initial_model();
    let p = word_chars();
    assert forall|i: int| 0 <= i < chars.len() implies p(#[trigger] chars[i]) by {
        if i > 0 {
            assert(chars[i] == '_' || is_alphanumeric_char(chars[i]));
        }
    }
    lemma_take_while_all(chars, start_cursor(), p);
    assert(chars.skip(0) =~= chars);
    reveal_strlit("let");
    reveal_strlit("mut");
    reveal_strlit("fun");
    reveal_strlit("return");
    reveal_strlit("if");
    reveal_strlit("else");
    reveal_strlit("while");
    reveal_strlit("for");
    reveal_strlit("in");
    reveal_strlit("break");
    reveal_strlit("continue");
    assert(keyword_of(chars) is None);
    let m1 = step(chars, file_id, m0);
    assert(m1 == word_step(chars, file_id, m0));
    assert(m1.cur.index == chars.len());
    assert(run(chars, file_id, m0) == run(chars, file_id, m1));
    assert(run(chars, file_id, m1) == m1);
}

/// The token stream of any input ends with exactly one end-of-file token:
/// it is the last token, and no other token is end-of-file.
pub proof fn law_single_eof_at_end(chars: Seq<char>, file_id: usize)
    ensures
        lex(chars, file_id).tokens.len() >= 1,
        lex(chars, file_id).tokens.last().token is EOF,
        no_eof(lex(chars, file_id).tokens.drop_last()),
{
    let r = run(chars, file_id, initial_model());
    lemma_run_no_eof(chars, file_id, initial_model());
    let f = lex(chars, file_id);
    assert(f.tokens.drop_last() =~= r.tokens);
}

// ---------------------------------------------------------------------------
// The lexer
// ---------------------------------------------------------------------------

/// The string literal being read.
struct StringInfo {
    start_pos: usize,
    start_line: usize,
    start_col: usize,
    buffer: String,
    complex_string: bool,
}

struct Lexer {
    chars: CharStream,
    file_id: usize,
    state: LexingState,
    info: StringInfo,
    tokens: Vec<Token>,
    errors: Vec<CompilerError>,
}

impl Lexer {
    spec fn src(&self) -> Seq<char> {
        self.chars.chars@
    }

    spec fn model(&self) -> LexModel {
        LexModel {
            cur: self.chars.cursor(),
            mode: self.state,
            start_pos: self.info.start_pos as int,
            start_line: self.info.start_line as int,
            start_col: self.info.start_col as int,
            buffer: self.info.buffer@,
            complex: self.info.complex_string,
            tokens: tokens_view(self.tokens@),
            errors: errors_view(self.errors@),
        }
    }

    spec fn wf(&self) -> bool {
        self.chars.wf()
    }

    fn emit(&mut self, token: TokenType, span: Span)
        ensures
            final(self).model() == with_token(old(self).model(), token@, span),
            final(self).chars == old(self).chars,
            final(self).file_id == old(self).file_id,
    {
        let ghost t = token@;
        self.tokens.push(Token { token, span });
        assert(tokens_view(self.tokens@) =~= tokens_view(old(self).tokens@).push(TokenView { token: t, span }));
    }

    fn error(&mut self, e: LexerError)
        ensures
            final(self).model() == with_error(old(self).model(), e@),
            final(self).chars == old(self).chars,
            final(self).file_id == old(self).file_id,
    {
        let ghost v = e@;
        self.errors.push(CompilerError::LexerError(e));
        assert(errors_view(self.errors@) =~= errors_view(old(self).errors@).push(CompilerErrorView::LexerError(v)));
    }

    fn next(&mut self) -> (r: Option<char>)
        requires
            old(self).wf(),
        ensures
            final(self).wf(),
            final(self).src() == old(self).src(),
            final(self).file_id == old(self).file_id,
            r == peek(old(self).src(), old(self).chars.cursor()),
            final(self).model() == at(old(self).model(), advance(old(self).src(), old(self).chars.cursor())),
    {
        self.chars.next_char()
    }

    fn peek(&self) -> (r: Option<char>)
        requires
            self.wf(),
        ensures
            r == peek(self.src(), self.chars.cursor()),
    {
        self.chars.peek_char()
    }

    fn span_here(&self, start_pos: usize, start_line: usize, start_col: usize) -> (r: Span)
        ensures
            r == span_of(self.file_id, start_pos as int, self.chars.current_pos as int, start_line as int, start_col as int),
    {
        Span::new(self.file_id, start_pos, self.chars.current_pos, start_line, start_col)
    }

    fn string_span(&self) -> (r: Span)
        ensures
            r == string_span(self.file_id, self.model(), self.chars.cursor()),
    {
        Span::new(self.file_id, self.info.start_pos, self.chars.current_pos, self.info.start_line, self.info.start_col)
    }

    fn push_buffer(&mut self, c: char)
        ensures
            final(self).model() == (LexModel { buffer: old(self).model().buffer.push(c), ..old(self).model() }),
            final(self).chars == old(self).chars,
            final(self).file_id == old(self).file_id,
    {
        string_push(&mut self.info.buffer, c);
    }

    /// Reads a number whose first character, a digit, is next.
    fn lex_number(&mut self)
        requires
            old(self).wf(),
            0 <= old(self).chars.cursor().index < old(self).src().len(),
            ascii_digit(old(self).src()[old(self).chars.cursor().index]),
        ensures
            final(self).wf(),
            final(self).src() == old(self).src(),
            final(self).file_id == old(self).file_id,
            final(self).model() == number_step(old(self).src(), old(self).file_id, old(self).model()),
            final(self).chars.index > old(self).chars.index,
    {
        let ghost chars = self.src();
        let ghost m0 = self.model();
        let ghost p = number_chars();
        let ghost all = take_while(chars, m0.cur, p);
        let (start_pos, start_line, start_col) = self.chars.get_position();
        let mut number = String::new();
        let mut dots: usize = 0;
        let mut value: u128 = 0;
        let mut too_large = false;
        loop
            invariant
                self.wf(),
                self.src() == chars,
                self.file_id == old(self).file_id,
                self.model() == at(m0, self.chars.cursor()),
                m0 == old(self).model(),
                chars == old(self).src(),
                p == number_chars(),
                all == take_while(chars, m0.cur, p),
                number@ + take_while(chars, self.chars.cursor(), p).0 == all.0,
                take_while(chars, self.chars.cursor(), p).1 == all.1,
                self.chars.index == m0.cur.index + number@.len(),
                dots == dot_count(number@),
                dots <= number@.len(),
                !too_large ==> value <= i64::MAX,
                dots == 0 ==> (!too_large ==> value == decimal_value(number@)),
                dots == 0 ==> (too_large ==> decimal_value(number@) > i64::MAX),
                start_pos == m0.cur.pos,
                start_line == m0.cur.line,
                start_col == m0.cur.col,
            ensures
                take_while(chars, self.chars.cursor(), p).0 == Seq::<char>::empty(),
            decreases chars.len() - self.chars.index,
        {
            let ghost before = number@;
            let ghost prev = self.chars.cursor();
            match self.peek() {
                Some(c) => {
                    if is_ascii_digit(c) || c == '.' {
                        if c == '.' {
                            proof {
                                lemma_position_bounds(chars);
                            }
                            dots = dots + 1;
                        } else if !too_large {
                            let d = (c as u32 - '0' as u32) as u128;
                            value = value * 10 + d;
                            if value > 0x7fff_ffff_ffff_ffff {
                                too_large = true;
                            }
                        }
                        string_push(&mut number, c);
                        self.next();
                        assert(number@.drop_last() =~= before);
                        proof {
                            lemma_take_while_step(chars, prev, p);
                        }
                        assert(number@ + take_while(chars, self.chars.cursor(), p).0 =~= all.0);
                    } else {
                        assert(0 <= prev.index < chars.len());
                        assert(c == chars[prev.index]);
                        assert(!number_char(c));
                        assert(!p(c));
                        proof {
                            lemma_take_while_stop(chars, prev, p);
                        }
                        break;
                    }
                },
                None => {
                    proof {
                        lemma_take_while_stop(chars, prev, p);
                    }
                    break;
                },
            }
        }
        assert(take_while(chars, self.chars.cursor(), p).0 =~= Seq::<char>::empty());
        assert(number@ =~= all.0);
        let span = self.span_here(start_pos, start_line, start_col);
        if dots > 0 {
            if dots == 1 {
                self.emit(TokenType::FloatLiteral(number), span);
            } else {
                let mut suggestions: Vec<String> = Vec::new();
                suggestions.push("You may have multiple decimal points.".to_owned());
                assert(strings_view(suggestions@) =~= multiple_dots_note());
                self.error(LexerError::InvalidNumberFormat { invalid_string: number, span, suggestions });
            }
        } else if !too_large {
            self.emit(TokenType::IntegerLiteral(value as i64), span);
        } else {
            let mut suggestions: Vec<String> = Vec::new();
            suggestions.push("Your number may be too large or too small.".to_owned());
            assert(strings_view(suggestions@) =~= out_of_range_note());
            self.error(LexerError::InvalidNumberFormat { invalid_string: number, span, suggestions });
        }
    }

    /// Reads an identifier or keyword whose first character is next.
    fn lex_word(&mut self)
        requires
            old(self).wf(),
            0 <= old(self).chars.cursor().index < old(self).src().len(),
            identifier_start(old(self).src()[old(self).chars.cursor().index]),
        ensures
            final(self).wf(),
            final(self).src() == old(self).src(),
            final(self).file_id == old(self).file_id,
            final(self).model() == word_step(old(self).src(), old(self).file_id, old(self).model()),
            final(self).chars.index > old(self).chars.index,
    {
        let (start_pos, start_line, start_col) = self.chars.get_position();
        let identifier = lex_identifier(&mut self.chars);
        let token_type = match Keyword::parse(&identifier) {
            Some(keyword) => TokenType::Keyword(keyword),
            None => TokenType::Identifier(identifier),
        };
        let span = self.span_here(start_pos, start_line, start_col);
        self.emit(token_type, span);
    }

    /// Reads an operator or symbol made of the characters in `operator_start`.
    fn tokenize_operator_or_symbol(&mut self, current_char: char)
        requires
            old(self).wf(),
            0 <= old(self).chars.cursor().index < old(self).src().len(),
            current_char == old(self).src()[old(self).chars.cursor().index],
        ensures
            final(self).wf(),
            final(self).src() == old(self).src(),
            final(self).file_id == old(self).file_id,
            final(self).model() == operator_step(old(self).src(), old(self).file_id, old(self).model()),
            final(self).chars.index > old(self).chars.index,
    {
        let ghost chars = self.src();
        let ghost m0 = self.model();
        let (start_pos, start_line, start_col) = self.chars.get_position();
        self.next();
        let ghost c1 = self.chars.cursor();
        let next = self.peek();
        let ghost after = peek(chars, advance(chars, c1));
        let ghost expected = operator_of(current_char, next, after);
        let tok: Option<TokenType> = if current_char == '!' {
            if next == Some('=') {
                self.next();
                Some(TokenType::Operator(Operator::NotEqual))
            } else if next == Some('!') {
                self.next();
                Some(TokenType::Operator(Operator::DoubleExclamation))
            } else {
                Some(TokenType::Operator(Operator::LogicalNot))
            }
        } else if current_char == '?' {
            if next == Some('?') {
                self.next();
                Some(TokenType::Operator(Operator::DoubleQuestion))
            } else {
                Some(TokenType::Operator(Operator::QuestionMark))
            }
        } else if current_char == '=' {
            if next == Some('=') {
                self.next();
                Some(TokenType::Operator(Operator::Equal))
            } else {
                Some(TokenType::Operator(Operator::Assign))
            }
        } else if current_char == '<' {
            if next == Some('=') {
                self.next();
                Some(TokenType::Operator(Operator::LessOrEqual))
            } else if next == Some('<') {
                self.next();
                Some(TokenType::Operator(Operator::ShiftLeft))
            } else {
                Some(TokenType::Operator(Operator::LessThan))
            }
        } else if current_char == '>' {
            if next == Some('=') {
                self.next();
                Some(TokenType::Operator(Operator::GreaterOrEqual))
            } else if next == Some('>') {
                self.next();
                Some(TokenType::Operator(Operator::ShiftRight))
            } else {
                Some(TokenType::Operator(Operator::GreaterThan))
            }
        } else if current_char == '&' {
            if next == Some('&') {
                self.next();
                Some(TokenType::Operator(Operator::And))
            } else {
                Some(TokenType::Operator(Operator::BitwiseAnd))
            }
        } else if current_char == '|' {
            if next == Some('|') {
                self.next();
                Some(TokenType::Operator(Operator::Or))
            } else {
                Some(TokenType::Operator(Operator::BitwiseOr))
            }
        } else if current_char == '-' {
            if next == Some('>') {
                self.next();
                Some(TokenType::Symbol(Symbol::Arrow))
            } else {
                Some(TokenType::Operator(Operator::Subtract))
            }
        } else if current_char == '.' {
            if next == Some('.') {
                self.next();
                if self.peek() == Some('=') {
                    self.next();
                    Some(TokenType::Operator(Operator::RangeInclusive))
                } else {
                    Some(TokenType::Operator(Operator::RangeExclusive))
                }
            } else {
                Some(TokenType::Symbol(Symbol::Dot))
            }
        } else if current_char == ':' {
            if next == Some(':') {
                self.next();
                Some(TokenType::Symbol(Symbol::DoubleColon))
            } else {
                Some(TokenType::Symbol(Symbol::Colon))
            }
        } else {
            None
        };
        proof {
            reveal_with_fuel(advance_n, 4);
            let n = expected.1;
            assert(advance_n(chars, m0.cur, 1) == c1);
            assert(advance_n(chars, m0.cur, 2) == advance(chars, c1));
            assert(advance_n(chars, m0.cur, 3) == advance(chars, advance(chars, c1)));
            assert(self.chars.cursor() == advance_n(chars, m0.cur, n as nat));
        }
        match tok {
            Some(t) => {
                let span = self.span_here(start_pos, start_line, start_col);
                self.emit(t, span);
            },
            None => {},
        }
    }

    /// One step of reading ordinary code; `c` is the next character.
    fn tokenize_normally(&mut self, c: char)
        requires
            old(self).wf(),
            0 <= old(self).chars.cursor().index < old(self).src().len(),
            c == old(self).src()[old(self).chars.cursor().index],
        ensures
            final(self).wf(),
            final(self).src() == old(self).src(),
            final(self).file_id == old(self).file_id,
            final(self).model() == normal_step(old(self).src(), old(self).file_id, old(self).model()),
            final(self).chars.index > old(self).chars.index,
    {
        let ghost chars = self.src();
        let ghost m0 = self.model();
        if is_skippable(c) {
            self.next();
            return;
        }
        let (start_pos, start_line, start_col) = self.chars.get_position();
        if c == '/' {
            self.next();
            match self.peek() {
                Some(next_char) => {
                    if next_char == '/' {
                        self.next();
                        self.skip_line_comment();
                    } else if next_char == '*' {
                        self.next();
                        let found_end = self.skip_block_comment();
                        if !found_end {
                            let mut suggestions: Vec<String> = Vec::new();
                            suggestions.push("You may have forgotten to close the comment with '*/'.".to_owned());
                            assert(strings_view(suggestions@) =~= unterminated_comment_note());
                            let span = self.span_here(start_pos, start_line, start_col);
                            self.error(LexerError::UnterminatedMultiLineComment { span, suggestions });
                        }
                    } else {
                        let span = self.span_here(start_pos, start_line, start_col);
                        self.emit(TokenType::Operator(Operator::Divide), span);
                    }
                },
                None => {
                    let span = self.span_here(start_pos, start_line, start_col);
                    self.emit(TokenType::Operator(Operator::Divide), span);
                },
            }
        } else if c == '"' {
            self.state = LexingState::InString;
            self.next();
            self.info.start_pos = start_pos;
            self.info.start_line = start_line;
            self.info.start_col = start_col;
        } else if is_identifier_start(c) {
            self.lex_word();
        } else if is_ascii_digit(c) {
            self.lex_number();
        } else if c == '+' || c == '-' || c == '*' || c == '=' || c == '!' || c == '>' || c == '<'
            || c == '&' || c == '|' || c == '@' || c == '^' || c == '~' || c == '.' || c == ':'
            || c == '?' {
            self.tokenize_operator_or_symbol(c);
        } else if c == '(' || c == ')' || c == '{' || c == '}' || c == '[' || c == ']' || c == ','
            || c == ';' {
            let symbol = if c == '(' {
                Symbol::LeftParen
            } else if c == ')' {
                Symbol::RightParen
            } else if c == '{' {
                Symbol::LeftBrace
            } else if c == '}' {
                Symbol::RightBrace
            } else if c == '[' {
                Symbol::LeftBracket
            } else if c == ']' {
                Symbol::RightBracket
            } else if c == ',' {
                Symbol::Comma
            } else {
                Symbol::Semicolon
            };
            self.next();
            let span = self.span_here(start_pos, start_line, start_col);
            self.emit(TokenType::Symbol(symbol), span);
        } else {
            let span = self.span_here(start_pos, start_line, start_col);
            self.next();
            self.error(LexerError::UnrecognizedCharacter { character: c, span, suggestion: Vec::new() });
            assert(strings_view(Seq::<String>::empty()) =~= Seq::<Seq<char>>::empty());
        }
    }

    /// Skips the rest of a `//` comment, through the newline.
    fn skip_line_comment(&mut self)
        requires
            old(self).wf(),
        ensures
            final(self).wf(),
            final(self).src() == old(self).src(),
            final(self).file_id == old(self).file_id,
            final(self).model() == at(old(self).model(), skip_line(old(self).src(), old(self).chars.cursor())),
            final(self).chars.index >= old(self).chars.index,
    {
        let ghost chars = self.src();
        let ghost m0 = self.model();
        loop
            invariant_except_break
                skip_line(chars, self.chars.cursor()) == skip_line(chars, m0.cur),
            invariant
                self.wf(),
                self.src() == chars,
                self.file_id == old(self).file_id,
                self.model() == at(m0, self.chars.cursor()),
                self.chars.index >= m0.cur.index,
            ensures
                self.chars.cursor() == skip_line(chars, m0.cur),
            decreases chars.len() - self.chars.index,
        {
            match self.next() {
                Some(c) => {
                    if c == '\n' {
                        break;
                    }
                },
                None => {
                    break;
                },
            }
        }
    }

    /// Skips the body of a `/* .. */` comment; whether its end was found.
    fn skip_block_comment(&mut self) -> (found: bool)
        requires
            old(self).wf(),
        ensures
            final(self).wf(),
            final(self).src() == old(self).src(),
            final(self).file_id == old(self).file_id,
            (final(self).chars.cursor(), found) == skip_block(old(self).src(), old(self).chars.cursor()),
            final(self).model() == at(old(self).model(), final(self).chars.cursor()),
            final(self).chars.index >= old(self).chars.index,
    {
        let ghost chars = self.src();
        let ghost m0 = self.model();
        let mut found_end = false;
        loop
            invariant_except_break
                !found_end,
                skip_block(chars, self.chars.cursor()) == skip_block(chars, m0.cur),
            invariant
                self.wf(),
                self.src() == chars,
                self.file_id == old(self).file_id,
                self.model() == at(m0, self.chars.cursor()),
                self.chars.index >= m0.cur.index,
            ensures
                (self.chars.cursor(), found_end) == skip_block(chars, m0.cur),
            decreases chars.len() - self.chars.index,
        {
            match self.next() {
                Some(c) => {
                    if c == '*' {
                        if self.peek() == Some('/') {
                            self.next();
                            found_end = true;
                            break;
                        }
                    }
                },
                None => {
                    break;
                },
            }
        }
        found_end
    }

    /// A `\x`, `\u` or `\U` escape whose hexadecimal digits are next.
    fn hex_escape(&mut self)
        requires
            old(self).wf(),
        ensures
            final(self).wf(),
            final(self).src() == old(self).src(),
            final(self).file_id == old(self).file_id,
            final(self).model() == hex_escape_step(old(self).src(), old(self).file_id, old(self).model(), old(self).chars.cursor()),
            final(self).chars.index >= old(self).chars.index,
    {
        let ghost chars = self.src();
        let ghost m0 = self.model();
        let ghost p = hex_chars();
        let ghost all = take_while(chars, m0.cur, p);
        let mut hex_len: usize = 0;
        let mut value: u64 = 0;
        let mut too_large = false;
        let ghost mut hex: Seq<char> = Seq::empty();
        loop
            invariant
                self.wf(),
                self.src() == chars,
                self.file_id == old(self).file_id,
                self.model() == at(m0, self.chars.cursor()),
                m0 == old(self).model(),
                chars == old(self).src(),
                p == hex_chars(),
                all == take_while(chars, m0.cur, p),
                hex + take_while(chars, self.chars.cursor(), p).0 == all.0,
                take_while(chars, self.chars.cursor(), p).1 == all.1,
                self.chars.index == m0.cur.index + hex.len(),
                hex_len == hex.len(),
                !too_large ==> value == hex_value(hex) && value <= u32::MAX,
                too_large ==> hex_value(hex) > u32::MAX,
            ensures
                take_while(chars, self.chars.cursor(), p).0 == Seq::<char>::empty(),
            decreases chars.len() - self.chars.index,
        {
            let ghost prev = self.chars.cursor();
            match self.peek() {
                Some(c) => {
                    if is_ascii_hexdigit(c) {
                        let ghost before = hex;
                        if !too_large {
                            let d: u64 = if '0' <= c && c <= '9' {
                                (c as u32 - '0' as u32) as u64
                            } else if 'a' <= c && c <= 'f' {
                                (c as u32 - 'a' as u32 + 10) as u64
                            } else {
                                (c as u32 - 'A' as u32 + 10) as u64
                            };
                            value = value * 16 + d;
                            if value > 0xffff_ffff {
                                too_large = true;
                            }
                        }
                        proof {
                            hex = hex.push(c);
                            assert(hex.drop_last() =~= before);
                        }
                        proof {
                            lemma_position_bounds(chars);
                        }
                        hex_len = hex_len + 1;
                        self.next();
                        proof {
                            lemma_take_while_step(chars, prev, p);
                        }
                        assert(hex + take_while(chars, self.chars.cursor(), p).0 =~= all.0);
                    } else {
                        proof {
                            lemma_take_while_stop(chars, prev, p);
                        }
                        break;
                    }
                },
                None => {
                    proof {
                        lemma_take_while_stop(chars, prev, p);
                    }
                    break;
                },
            }
        }
        assert(take_while(chars, self.chars.cursor(), p).0 =~= Seq::<char>::empty());
        assert(hex =~= all.0);
        if hex_len == 0 || too_large {
            let mut suggestions: Vec<String> = Vec::new();
            suggestions.push("The escape sequence is not a valid hexadecimal number.".to_owned());
            assert(strings_view(suggestions@) =~= bad_hex_note());
            let span = self.string_span();
            self.error(LexerError::InvalidEscapeSequence { span, suggestions });
        } else {
            match char_from_u32(value as u32) {
                Some(ch) => {
                    self.push_buffer(ch);
                },
                None => {
                    let mut suggestions: Vec<String> = Vec::new();
                    suggestions.push("The escape sequence is not a valid Unicode code point.".to_owned());
                    assert(strings_view(suggestions@) =~= bad_code_point_note());
                    let span = self.string_span();
                    self.error(LexerError::InvalidEscapeSequence { span, suggestions });
                },
            }
        }
    }

    /// One step inside a string literal; `c` is the next character.
    fn string_char(&mut self, c: char)
        requires
            old(self).wf(),
            0 <= old(self).chars.cursor().index < old(self).src().len(),
            c == old(self).src()[old(self).chars.cursor().index],
        ensures
            final(self).wf(),
            final(self).src() == old(self).src(),
            final(self).file_id == old(self).file_id,
            final(self).model() == string_step(old(self).src(), old(self).file_id, old(self).model()),
            final(self).chars.index > old(self).chars.index,
    {
        let ghost chars = self.src();
        let ghost m0 = self.model();
        if c == '"' {
            self.next();
            let literal = TokenType::StringLiteral(self.info.buffer.clone());
            let span = self.string_span();
            self.emit(literal, span);
            if self.info.complex_string {
                let here = self.chars.current_pos;
                let span = Span::new(self.file_id, here, here, self.chars.line, self.chars.col);
                self.emit(TokenType::ComplexStringEnd, span);
            }
            self.info.buffer = String::new();
            self.info.complex_string = false;
            self.state = LexingState::Normal;
        } else if c == '$' {
            self.next();
            if self.peek() == Some('{') {
                self.next();
                self.info.complex_string = true;
                if char_count(&self.info.buffer) > 0 {
                    let start = Span::new(
                        self.file_id,
                        self.info.start_pos,
                        self.info.start_pos,
                        self.info.start_line,
                        self.info.start_col,
                    );
                    self.emit(TokenType::ComplexStringStart, start);
                    let literal = TokenType::StringLiteral(self.info.buffer.clone());
                    let span = Span::new(
                        self.file_id,
                        self.info.start_pos,
                        self.chars.current_pos - 1,
                        self.info.start_line,
                        self.info.start_col,
                    );
                    self.emit(literal, span);
                    self.info.buffer = String::new();
                }
                let span = Span::new(
                    self.file_id,
                    self.chars.current_pos - 1,
                    self.chars.current_pos,
                    self.chars.line,
                    self.chars.col,
                );
                self.emit(TokenType::StringInterpolationStart, span);
                self.state = LexingState::InInterpolation;
            } else {
                self.push_buffer('$');
            }
        } else if c == '\\' {
            self.next();
            match self.peek() {
                Some(escaped_char) => {
                    if escaped_char == '\\' {
                        self.next();
                        self.push_buffer('\\');
                    } else if escaped_char == '"' {
                        self.next();
                        self.push_buffer('"');
                    } else if escaped_char == '\'' {
                        self.next();
                        self.push_buffer('\'');
                    } else if escaped_char == 'n' {
                        self.next();
                        self.push_buffer('\n');
                    } else if escaped_char == 't' {
                        self.next();
                        self.push_buffer('\t');
                    } else if escaped_char == 'r' {
                        self.next();
                        self.push_buffer('\r');
                    } else if escaped_char == '0' {
                        self.next();
                        self.push_buffer('\0');
                    } else if escaped_char == 'x' || escaped_char == 'u' || escaped_char == 'U' {
                        self.next();
                        self.hex_escape();
                    } else if escaped_char == '$' {
                        self.push_buffer('$');
                    } else {
                        let mut note = String::new();
                        string_push(&mut note, '\'');
                        string_push(&mut note, escaped_char);
                        note.append("' is not a valid escape sequence.");
                        assert(note@ =~= seq!['\'', escaped_char] + "' is not a valid escape sequence."@);
                        let mut suggestions: Vec<String> = Vec::new();
                        suggestions.push(note);
                        assert(strings_view(suggestions@) =~= bad_escape_note(escaped_char));
                        let span = self.string_span();
                        self.error(LexerError::InvalidEscapeSequence { span, suggestions });
                    }
                },
                None => {
                    let mut suggestions: Vec<String> = Vec::new();
                    suggestions.push("You may have forgotten to close the string with '\"'.".to_owned());
                    assert(strings_view(suggestions@) =~= unterminated_string_note());
                    let span = self.string_span();
                    self.error(LexerError::UnterminatedStringLiteral { span, suggestions });
                    self.state = LexingState::Normal;
                },
            }
        } else {
            self.push_buffer(c);
            self.next();
        }
    }

    /// One step inside an interpolation; `c` is the next character.
    fn interpolation_char(&mut self, c: char)
        requires
            old(self).wf(),
            0 <= old(self).chars.cursor().index < old(self).src().len(),
            c == old(self).src()[old(self).chars.cursor().index],
        ensures
            final(self).wf(),
            final(self).src() == old(self).src(),
            final(self).file_id == old(self).file_id,
            final(self).model() == interpolation_step(old(self).src(), old(self).file_id, old(self).model()),
            final(self).chars.index > old(self).chars.index,
    {
        if is_skippable(c) {
            self.next();
            return;
        }
        if c == '}' {
            self.next();
            let span = Span::new(
                self.file_id,
                self.chars.current_pos - 1,
                self.chars.current_pos,
                self.chars.line,
                self.chars.col,
            );
            self.emit(TokenType::StringInterpolationEnd, span);
            self.state = LexingState::InString;
        } else {
            self.tokenize_normally(c);
        }
    }

    /// One step of the lexer at the next character.
    fn step(&mut self)
        requires
            old(self).wf(),
            0 <= old(self).chars.cursor().index < old(self).src().len(),
        ensures
            final(self).wf(),
            final(self).src() == old(self).src(),
            final(self).file_id == old(self).file_id,
            final(self).model() == step(old(self).src(), old(self).file_id, old(self).model()),
            final(self).chars.index > old(self).chars.index,
    {
        let c = self.chars.chars[self.chars.index];
        match self.state {
            LexingState::Normal => self.tokenize_normally(c),
            LexingState::InString => self.string_char(c),
            LexingState::InInterpolation => self.interpolation_char(c),
        }
    }

    /// The end of input.
    fn finish(&mut self)
        requires
            old(self).wf(),
        ensures
            final(self).model() == finish(old(self).file_id, old(self).model()),
    {
        let here = self.chars.current_pos;
        let eof_span = Span::new(self.file_id, here, here, self.chars.line, self.chars.col);
        match self.state {
            LexingState::InString => {
                let mut suggestions: Vec<String> = Vec::new();
                suggestions.push("You may have forgotten to close the string with '\"'.".to_owned());
                assert(strings_view(suggestions@) =~= unterminated_string_note());
                let span = self.string_span();
                self.error(LexerError::UnterminatedStringLiteral { span, suggestions });
            },
            LexingState::InInterpolation => {
                let mut suggestions: Vec<String> = Vec::new();
                suggestions.push("You may have forgotten to close the interpolation with '}'.".to_owned());
                assert(strings_view(suggestions@) =~= unterminated_interpolation_note());
                let span = self.string_span();
                self.error(LexerError::UnterminatedInterpolation { span, suggestions });
            },
            LexingState::Normal => {},
        }
        self.emit(TokenType::EOF, eof_span);
    }
}

/// Reads an identifier whose first character, one that starts identifiers, is next.
fn lex_identifier(chars: &mut CharStream) -> (identifier: String)
    requires
        old(chars).wf(),
        0 <= old(chars).cursor().index < old(chars).chars@.len(),
        identifier_start(old(chars).chars@[old(chars).cursor().index]),
    ensures
        final(chars).wf(),
        final(chars).chars@ == old(chars).chars@,
        (identifier@, final(chars).cursor()) == take_while(old(chars).chars@, old(chars).cursor(), word_chars()),
        final(chars).index > old(chars).index,
{
    let ghost src = chars.chars@;
    let ghost c0 = chars.cursor();
    let ghost p = word_chars();
    let ghost all = take_while(src, c0, p);
    let mut identifier = String::new();
    loop
        invariant
            chars.wf(),
            chars.chars@ == src,
            src == old(chars).chars@,
            c0 == old(chars).cursor(),
            p == word_chars(),
            all == take_while(src, c0, p),
            identifier@ + take_while(src, chars.cursor(), p).0 == all.0,
            take_while(src, chars.cursor(), p).1 == all.1,
            chars.index == c0.index + identifier@.len(),
            0 <= c0.index < src.len(),
            identifier_start(src[c0.index]),
        ensures
            take_while(src, chars.cursor(), p).0 == Seq::<char>::empty(),
            chars.index > c0.index,
        decreases src.len() - chars.index,
    {
        let ghost prev = chars.cursor();
        match chars.peek_char() {
            Some(c) => {
                let is_word = char_is_alphanumeric(c);
                if is_word || c == '_' {
                    string_push(&mut identifier, c);
                    chars.next_char();
                    proof {
                        lemma_take_while_step(src, prev, p);
                    }
                    assert(identifier@ + take_while(src, chars.cursor(), p).0 =~= all.0);
                } else {
                    assert(chars.index != c0.index);
                    proof {
                        lemma_take_while_stop(src, prev, p);
                    }
                    break;
                }
            },
            None => {
                proof {
                    lemma_take_while_stop(src, prev, p);
                }
                break;
            },
        }
    }
    assert(take_while(src, chars.cursor(), p).0 =~= Seq::<char>::empty());
    assert(identifier@ =~= all.0);
    identifier
}

// ---------------------------------------------------------------------------
// The token stream
// ---------------------------------------------------------------------------

/// A sequence of tokens with a read position.
#[derive(Debug)]
pub struct Tokens {
    pub tokens: Vec<Token>,
    pub index: usize,
}

impl Tokens {
    /// A stream positioned at its first token.
    pub fn new(tokens: Vec<Token>) -> (r: Tokens)
        ensures
            r.tokens == tokens,
            r.index == 0,
    {
        Tokens { tokens, index: 0 }
    }

    /// Whether the token at the read position exists and is not the end of file.
    pub fn not_eof(&self) -> (r: bool)
        ensures
            r == (self.index < self.tokens@.len() && !(self.tokens@[self.index as int].token@ is EOF)),
    {
        if self.index < self.tokens.len() {
            !self.tokens[self.index].token.is_eof()
        } else {
            false
        }
    }

    /// The token at the read position.
    pub fn at(&self) -> (r: &Token)
        requires
            self.index < self.tokens@.len(),
        ensures
            *r == self.tokens@[self.index as int],
    {
        &self.tokens[self.index]
    }

    /// The token after the read position, if any.
    pub fn peek(&self) -> (r: Option<&Token>)
        ensures
            self.index + 1 < self.tokens@.len() ==> r == Some(&self.tokens@[self.index + 1]),
            self.index + 1 >= self.tokens@.len() ==> r is None,
    {
        if self.index < self.tokens.len() && self.index + 1 < self.tokens.len() {
            Some(&self.tokens[self.index + 1])
        } else {
            None
        }
    }

    /// The token at the read position, moving past it.
    pub fn eat(&mut self) -> (r: &Token)
        requires
            old(self).index < old(self).tokens@.len(),
        ensures
            final(self).tokens == old(self).tokens,
            final(self).index == old(self).index + 1,
            *r == old(self).tokens@[old(self).index as int],
    {
        let i = self.index;
        let n = self.tokens.len();
        assert(i < n);
        self.index = self.index + 1;
        &self.tokens[i]
    }

    /// Moves the read position back by one.
    pub fn un_eat(&mut self)
        requires
            old(self).index > 0,
        ensures
            final(self).tokens == old(self).tokens,
            final(self).index == old(self).index - 1,
    {
        self.index = self.index - 1;
    }

    /// The read position.
    pub fn index(&self) -> (r: usize)
        ensures
            r == self.index,
    {
        self.index
    }

    /// The token at position `i`.
    pub fn get(&self, i: usize) -> (r: &Token)
        requires
            i < self.tokens@.len(),
        ensures
            *r == self.tokens@[i as int],
    {
        &self.tokens[i]
    }

    /// Moves past the token at the read position. When it is not `expected`,
    /// records an unexpected-token error and returns `None`.
    pub fn expect(&mut self, expected: TokenType, report: &mut CompilationReport) -> (r: Option<()>)
        requires
            old(self).index < old(self).tokens@.len(),
        ensures
            final(self).tokens == old(self).tokens,
            final(self).index == old(self).index + 1,
            final(report).warnings == old(report).warnings,
            final(report).file_store == old(report).file_store,
            ({
                let found = old(self).tokens@[old(self).index as int];
                if found.token@ == expected@ {
                    &&& r is Some
                    &&& final(report).errors == old(report).errors
                } else {
                    &&& r is None
                    &&& errors_view(final(report).errors@) == errors_view(old(report).errors@).push(
                        CompilerErrorView::ParserError(crate::errors::ParserErrorView::UnexpectedToken {
                            expected: token_type_text(expected@),
                            found: found.token@,
                            span: found.span,
                            suggestion: Seq::empty(),
                        }),
                    )
                }
            }),
    {
        let found = self.at();
        if !found.token.same_as(&expected) {
            let e = CompilerError::ParserError(ParserError::UnexpectedToken {
                expected: expected.to_text(),
                found: found.token.duplicate(),
                span: found.span,
                suggestion: Vec::new(),
            });
            let ghost v = e@;
            report.add_error(e);
            assert(strings_view(Seq::<String>::empty()) =~= Seq::<Seq<char>>::empty());
            assert(errors_view(report.errors@) =~= errors_view(old(report).errors@).push(v));
            self.eat();
            return None;
        }
        self.eat();
        Some(())
    }

    /// The token at the read position, copied, moving past it; `None` at the end.
    pub fn next(&mut self) -> (r: Option<Token>)
        ensures
            final(self).tokens == old(self).tokens,
            old(self).index < old(self).tokens@.len() ==> {
                &&& final(self).index == old(self).index + 1
                &&& r matches Some(t) && t@ == old(self).tokens@[old(self).index as int]@
            },
            old(self).index >= old(self).tokens@.len() ==> final(self).index == old(self).index && r is None,
    {
        if self.index < self.tokens.len() {
            let t = &self.tokens[self.index];
            let token = Token { token: t.token.duplicate(), span: t.span };
            self.index = self.index + 1;
            Some(token)
        } else {
            None
        }
    }
}

/// Splits `source_code` (file `file_id`) into tokens; errors are appended to `report`.
/// The tokens and errors are exactly those of `lex`.
pub fn tokenize(source_code: &str, file_id: usize, report: &mut CompilationReport) -> (r: Tokens)
    requires
        input_fits(source_code@),
    ensures
        tokens_view(r.tokens@) == lex(source_code@, file_id).tokens,
        r.index == 0,
        errors_view(final(report).errors@) == errors_view(old(report).errors@) + lex(source_code@, file_id).errors,
        final(report).warnings == old(report).warnings,
        final(report).file_store == old(report).file_store,
        r.tokens@.len() >= 1,
        r.tokens@.last().token@ is EOF,
        forall|i: int| 0 <= i < r.tokens@.len() - 1 ==> !(#[trigger] r.tokens@[i].token@ is EOF),
        forall|i: int| 0 <= i < r.tokens@.len() ==>
            span_within(#[trigger] r.tokens@[i].span, file_id, byte_len(source_code@)),
        forall|i: int| old(report).errors@.len() <= i < final(report).errors@.len() ==>
            span_within(error_span(#[trigger] final(report).errors@[i]@), file_id, byte_len(source_code@)),
{
    let chars = CharStream::new(source_code);
    let mut lexer = Lexer {
        chars,
        file_id,
        state: LexingState::Normal,
        info: StringInfo {
            start_pos: 0,
            start_line: 0,
            start_col: 0,
            buffer: String::new(),
            complex_string: false,
        },
        tokens: Vec::new(),
        errors: Vec::new(),
    };
    let ghost src = source_code@;
    assert(lexer.model() =~= initial_model()) by {
        assert(tokens_view(lexer.tokens@) =~= Seq::<TokenView>::empty());
        assert(errors_view(lexer.errors@) =~= Seq::<CompilerErrorView>::empty());
    }
    while lexer.chars.index < lexer.chars.chars.len()
        invariant
            lexer.wf(),
            lexer.src() == src,
            lexer.file_id == file_id,
            run(src, file_id, lexer.model()) == run(src, file_id, initial_model()),
        decreases src.len() - lexer.chars.index,
    {
        lexer.step();
    }
    lexer.finish();
    let ghost produced = lexer.model();
    let mut errs = lexer.errors;
    let ghost all = errs@;
    let n = errs.len();
    let mut i: usize = 0;
    while i < n
        invariant
            i <= n,
            n == all.len(),
            errs@ == all.skip(i as int),
            errors_view(report.errors@) == errors_view(old(report).errors@) + errors_view(all.take(i as int)),
            report.warnings == old(report).warnings,
            report.file_store == old(report).file_store,
        decreases n - i,
    {
        let e = errs.remove(0);
        assert(e == all[i as int]);
        let ghost prev_errors = report.errors@;
        report.add_error(e);
        assert(errors_view(report.errors@) =~= errors_view(prev_errors).push(all[i as int]@));
        assert(errors_view(all.take(i + 1)) =~= errors_view(all.take(i as int)).push(all[i as int]@));
        assert(errors_view(report.errors@) =~= errors_view(old(report).errors@) + errors_view(all.take(i + 1)));
        i = i + 1;
        assert(errs@ =~= all.skip(i as int));
    }
    assert(all.take(n as int) =~= all);
    let r = Tokens::new(lexer.tokens);
    proof {
        let l = lex(src, file_id);
        law_single_eof_at_end(src, file_id);
        law_spans_within_source(src, file_id);
        assert(tokens_view(r.tokens@).len() == r.tokens@.len());
        assert forall|i: int| 0 <= i < r.tokens@.len() implies #[trigger] r.tokens@[i]@ == l.tokens[i] by {
            assert(tokens_view(r.tokens@)[i] == r.tokens@[i]@);
        }
        assert(l.tokens.last() == r.tokens@.last()@);
        assert forall|i: int| 0 <= i < r.tokens@.len() - 1 implies !(#[trigger] r.tokens@[i].token@ is EOF) by {
            assert(l.tokens.drop_last()[i] == l.tokens[i]);
            assert(!(l.tokens.drop_last()[i].token is EOF));
            assert(r.tokens@[i]@ == l.tokens[i]);
        }
        assert forall|i: int| 0 <= i < r.tokens@.len() implies
            span_within(#[trigger] r.tokens@[i].span, file_id, byte_len(src)) by {
            assert(r.tokens@[i]@ == l.tokens[i]);
            assert(span_within(l.tokens[i].span, file_id, byte_len(src)));
        }
        let k = old(report).errors@.len();
        assert forall|i: int| k <= i < report.errors@.len() implies
            span_within(error_span(#[trigger] report.errors@[i]@), file_id, byte_len(src)) by {
            assert(errors_view(report.errors@)[i] == report.errors@[i]@);
            assert(errors_view(old(report).errors@).len() == k);
            assert((errors_view(old(report).errors@) + l.errors)[i] == l.errors[i - k]);
        }
    }
    r
}


} // verus!
