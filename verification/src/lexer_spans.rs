//! Where the lexer's tokens and errors point: every span names the file that
//! was lexed and lies within its bytes, so a diagnostic can always show it.
use vstd::prelude::*;
use crate::errors::{CompilerErrorView, LexerErrorView, Span, error_span};
use crate::lexer::{
    Cursor, LexModel, LexingState, TokenView, advance, advance_n, at, initial_model,
    input_fits, interpolation_step, lex, normal_step, number_chars, operator_of, peek, run,
    skip_block, skip_line, skippable, span_of, step, string_span, string_step, take_while,
    utf8_len, byte_len, lemma_byte_len_prefix, with_error, with_token, word_chars, hex_chars, identifier_start, ascii_digit,
    operator_start, symbol_of,
};
use crate::tokens::TokenTypeView;

verus! {

/// Whether `s` names file `file_id` and lies within the first `bound` bytes.
pub open spec fn span_within(s: Span, file_id: usize, bound: int) -> bool {
    &&& s.file_id == file_id
    &&& s.start <= s.end
    &&& s.end <= bound
}

/// Every token and every error points within the first `bound` bytes of file `file_id`.
pub open spec fn spans_within(tokens: Seq<TokenView>, errors: Seq<CompilerErrorView>, file_id: usize, bound: int) -> bool {
    &&& forall|i: int| 0 <= i < tokens.len() ==> span_within(#[trigger] tokens[i].span, file_id, bound)
    &&& forall|i: int| 0 <= i < errors.len() ==> span_within(error_span(#[trigger] errors[i]), file_id, bound)
}

/// The cursor's byte offset is the UTF-8 length of the characters before it.
spec fn exact(chars: Seq<char>, cur: Cursor) -> bool {
    &&& 0 <= cur.index <= chars.len()
    &&& cur.pos == byte_len(chars.take(cur.index))
}

/// What lexing keeps at every step: an exact cursor, a string start behind
/// it, and every span so far behind it too.
spec fn model_ok(chars: Seq<char>, file_id: usize, m: LexModel) -> bool {
    &&& input_fits(chars)
    &&& exact(chars, m.cur)
    &&& 0 <= m.start_pos <= m.cur.pos
    &&& spans_within(m.tokens, m.errors, file_id, m.cur.pos)
}

proof fn lemma_utf8_len_bounds(c: char)
    ensures
        1 <= utf8_len(c) <= 4,
{
}

proof fn lemma_byte_len_bounds(s: Seq<char>)
    ensures
        s.len() <= byte_len(s) <= 4 * s.len(),
    decreases s.len(),
{
    if s.len() > 0 {
        lemma_byte_len_bounds(s.drop_last());
        lemma_utf8_len_bounds(s.last());
    }
}

proof fn lemma_advance(chars: Seq<char>, cur: Cursor)
    requires
        exact(chars, cur),
    ensures
        exact(chars, advance(chars, cur)),
        cur.pos <= advance(chars, cur).pos,
        cur.index < chars.len() ==> cur.pos + 1 <= advance(chars, cur).pos,
        cur.index < chars.len() ==> advance(chars, cur).pos == cur.pos + utf8_len(chars[cur.index]),
{
    if cur.index < chars.len() {
        assert(chars.take(cur.index + 1).drop_last() =~= chars.take(cur.index));
        assert(chars.take(cur.index + 1).last() == chars[cur.index]);
        lemma_utf8_len_bounds(chars[cur.index]);
    }
}

proof fn lemma_skip_line(chars: Seq<char>, cur: Cursor)
    requires
        exact(chars, cur),
    ensures
        exact(chars, skip_line(chars, cur)),
        cur.pos <= skip_line(chars, cur).pos,
    decreases chars.len() - cur.index,
{
    if 0 <= cur.index < chars.len() {
        lemma_advance(chars, cur);
        if chars[cur.index] != '\n' {
            lemma_skip_line(chars, advance(chars, cur));
        }
    }
}

proof fn lemma_skip_block(chars: Seq<char>, cur: Cursor)
    requires
        exact(chars, cur),
    ensures
        exact(chars, skip_block(chars, cur).0),
        cur.pos <= skip_block(chars, cur).0.pos,
    decreases chars.len() - cur.index,
{
    if 0 <= cur.index < chars.len() {
        let next = advance(chars, cur);
        lemma_advance(chars, cur);
        lemma_advance(chars, next);
        if !(chars[cur.index] == '*' && peek(chars, next) == Some('/')) {
            lemma_skip_block(chars, next);
        }
    }
}

proof fn lemma_take_while(chars: Seq<char>, cur: Cursor, p: spec_fn(char) -> bool)
    requires
        exact(chars, cur),
    ensures
        exact(chars, take_while(chars, cur, p).1),
        cur.pos <= take_while(chars, cur, p).1.pos,
    decreases chars.len() - cur.index,
{
    if 0 <= cur.index < chars.len() && p(chars[cur.index]) {
        lemma_advance(chars, cur);
        lemma_take_while(chars, advance(chars, cur), p);
    }
}

proof fn lemma_advance_n(chars: Seq<char>, cur: Cursor, n: nat)
    requires
        exact(chars, cur),
    ensures
        exact(chars, advance_n(chars, cur, n)),
        cur.pos <= advance_n(chars, cur, n).pos,
    decreases n,
{
    if n > 0 {
        lemma_advance(chars, cur);
        lemma_advance_n(chars, advance(chars, cur), (n - 1) as nat);
    }
}

proof fn lemma_exact_fits(chars: Seq<char>, cur: Cursor)
    requires
        input_fits(chars),
        exact(chars, cur),
    ensures
        0 <= cur.pos <= byte_len(chars),
        byte_len(chars) <= usize::MAX,
{
    lemma_byte_len_prefix(chars, cur.index);
    lemma_byte_len_bounds(chars.take(cur.index));
    lemma_byte_len_bounds(chars);
}

proof fn lemma_raise(tokens: Seq<TokenView>, errors: Seq<CompilerErrorView>, file_id: usize, a: int, b: int)
    requires
        spans_within(tokens, errors, file_id, a),
        a <= b,
    ensures
        spans_within(tokens, errors, file_id, b),
{
}

proof fn lemma_add_token(m: LexModel, t: TokenTypeView, s: Span, file_id: usize, bound: int)
    requires
        spans_within(m.tokens, m.errors, file_id, bound),
        span_within(s, file_id, bound),
    ensures
        spans_within(with_token(m, t, s).tokens, with_token(m, t, s).errors, file_id, bound),
{
    let n = with_token(m, t, s).tokens;
    assert forall|i: int| 0 <= i < n.len() implies span_within(#[trigger] n[i].span, file_id, bound) by {
        if i < m.tokens.len() {
            assert(n[i] == m.tokens[i]);
        }
    }
}

proof fn lemma_add_error(m: LexModel, e: LexerErrorView, file_id: usize, bound: int)
    requires
        spans_within(m.tokens, m.errors, file_id, bound),
        span_within(error_span(CompilerErrorView::LexerError(e)), file_id, bound),
    ensures
        spans_within(with_error(m, e).tokens, with_error(m, e).errors, file_id, bound),
{
    let n = with_error(m, e).errors;
    assert forall|i: int| 0 <= i < n.len() implies span_within(error_span(#[trigger] n[i]), file_id, bound) by {
        if i < m.errors.len() {
            assert(n[i] == m.errors[i]);
        }
    }
}

/// A span from `start` to `end` fits under `bound` once these are ordered and the bound fits in `usize`.
proof fn lemma_span_of(file_id: usize, start: int, end: int, line: int, col: int, bound: int)
    requires
        0 <= start <= end <= bound <= usize::MAX,
    ensures
        span_within(span_of(file_id, start, end, line, col), file_id, bound),
{
}

proof fn lemma_normal_step(chars: Seq<char>, file_id: usize, m: LexModel)
    requires
        model_ok(chars, file_id, m),
        0 <= m.cur.index < chars.len(),
    ensures
        model_ok(chars, file_id, normal_step(chars, file_id, m)),
        m.cur.pos <= normal_step(chars, file_id, m).cur.pos,
{
    let cur = m.cur;
    let c = chars[cur.index];
    let (sp, sl, sc) = (cur.pos, cur.line, cur.col);
    let c1 = advance(chars, cur);
    lemma_advance(chars, cur);
    lemma_exact_fits(chars, c1);
    if skippable(c) {
        lemma_raise(m.tokens, m.errors, file_id, cur.pos, c1.pos);
    } else if c == '/' {
        let c2 = advance(chars, c1);
        lemma_advance(chars, c1);
        if peek(chars, c1) == Some('/') {
            lemma_skip_line(chars, c2);
            lemma_raise(m.tokens, m.errors, file_id, cur.pos, skip_line(chars, c2).pos);
        } else if peek(chars, c1) == Some('*') {
            lemma_skip_block(chars, c2);
            let (end, found) = skip_block(chars, c2);
            lemma_exact_fits(chars, end);
            lemma_raise(m.tokens, m.errors, file_id, cur.pos, end.pos);
            if !found {
                lemma_span_of(file_id, sp, end.pos, sl, sc, end.pos);
                lemma_add_error(
                    at(m, end),
                    LexerErrorView::UnterminatedMultiLineComment {
                        span: span_of(file_id, sp, end.pos, sl, sc),
                        suggestions: crate::lexer::unterminated_comment_note(),
                    },
                    file_id,
                    end.pos,
                );
            }
        } else {
            lemma_raise(m.tokens, m.errors, file_id, cur.pos, c1.pos);
            lemma_span_of(file_id, sp, c1.pos, sl, sc, c1.pos);
            lemma_add_token(at(m, c1), TokenTypeView::Operator(crate::tokens::Operator::Divide), span_of(file_id, sp, c1.pos, sl, sc), file_id, c1.pos);
        }
    } else if c == '"' {
        lemma_raise(m.tokens, m.errors, file_id, cur.pos, c1.pos);
    } else if identifier_start(c) {
        let (ident, end) = take_while(chars, cur, word_chars());
        lemma_take_while(chars, cur, word_chars());
        lemma_exact_fits(chars, end);
        lemma_raise(m.tokens, m.errors, file_id, cur.pos, end.pos);
        lemma_span_of(file_id, sp, end.pos, sl, sc, end.pos);
        let t = match crate::tokens::keyword_of(ident) {
            Some(k) => TokenTypeView::Keyword(k),
            None => TokenTypeView::Identifier(ident),
        };
        lemma_add_token(at(m, end), t, span_of(file_id, sp, end.pos, sl, sc), file_id, end.pos);
    } else if ascii_digit(c) {
        let (number, end) = take_while(chars, cur, number_chars());
        lemma_take_while(chars, cur, number_chars());
        lemma_exact_fits(chars, end);
        lemma_raise(m.tokens, m.errors, file_id, cur.pos, end.pos);
        let span = span_of(file_id, sp, end.pos, sl, sc);
        lemma_span_of(file_id, sp, end.pos, sl, sc, end.pos);
        lemma_add_token(at(m, end), TokenTypeView::FloatLiteral(number), span, file_id, end.pos);
        lemma_add_token(at(m, end), TokenTypeView::IntegerLiteral(crate::lexer::decimal_value(number) as i64), span, file_id, end.pos);
        lemma_add_error(at(m, end), LexerErrorView::InvalidNumberFormat { invalid_string: number, span, suggestions: crate::lexer::multiple_dots_note() }, file_id, end.pos);
        lemma_add_error(at(m, end), LexerErrorView::InvalidNumberFormat { invalid_string: number, span, suggestions: crate::lexer::out_of_range_note() }, file_id, end.pos);
    } else if operator_start(c) {
        let next = peek(chars, c1);
        let after = peek(chars, advance(chars, c1));
        let (tok, n) = operator_of(c, next, after);
        let end = advance_n(chars, cur, n as nat);
        lemma_advance_n(chars, cur, n as nat);
        lemma_exact_fits(chars, end);
        lemma_raise(m.tokens, m.errors, file_id, cur.pos, end.pos);
        if let Some(t) = tok {
            lemma_span_of(file_id, sp, end.pos, sl, sc, end.pos);
            lemma_add_token(at(m, end), t, span_of(file_id, sp, end.pos, sl, sc), file_id, end.pos);
        }
    } else if symbol_of(c) is Some {
        lemma_raise(m.tokens, m.errors, file_id, cur.pos, c1.pos);
        lemma_span_of(file_id, sp, c1.pos, sl, sc, c1.pos);
        lemma_add_token(at(m, c1), TokenTypeView::Symbol(symbol_of(c)->0), span_of(file_id, sp, c1.pos, sl, sc), file_id, c1.pos);
    } else {
        lemma_raise(m.tokens, m.errors, file_id, cur.pos, c1.pos);
        lemma_span_of(file_id, sp, sp, sl, sc, c1.pos);
        lemma_add_error(
            at(m, c1),
            LexerErrorView::UnrecognizedCharacter { character: c, span: span_of(file_id, sp, cur.pos, sl, sc), suggestion: Seq::empty() },
            file_id,
            c1.pos,
        );
    }
}

proof fn lemma_hex_escape(chars: Seq<char>, file_id: usize, m: LexModel, c2: Cursor)
    requires
        model_ok(chars, file_id, m),
        exact(chars, c2),
        m.cur.pos <= c2.pos,
    ensures
        model_ok(chars, file_id, crate::lexer::hex_escape_step(chars, file_id, m, c2)),
        m.cur.pos <= crate::lexer::hex_escape_step(chars, file_id, m, c2).cur.pos,
{
    let (hex, end) = take_while(chars, c2, hex_chars());
    lemma_take_while(chars, c2, hex_chars());
    lemma_exact_fits(chars, end);
    lemma_raise(m.tokens, m.errors, file_id, m.cur.pos, end.pos);
    lemma_span_of(file_id, m.start_pos, end.pos, m.start_line, m.start_col, end.pos);
    lemma_add_error(at(m, end), LexerErrorView::InvalidEscapeSequence { span: string_span(file_id, m, end), suggestions: crate::lexer::bad_hex_note() }, file_id, end.pos);
    lemma_add_error(at(m, end), LexerErrorView::InvalidEscapeSequence { span: string_span(file_id, m, end), suggestions: crate::lexer::bad_code_point_note() }, file_id, end.pos);
}

proof fn lemma_string_step(chars: Seq<char>, file_id: usize, m: LexModel)
    requires
        model_ok(chars, file_id, m),
        0 <= m.cur.index < chars.len(),
    ensures
        model_ok(chars, file_id, string_step(chars, file_id, m)),
        m.cur.pos <= string_step(chars, file_id, m).cur.pos,
{
    let cur = m.cur;
    let c = chars[cur.index];
    let c1 = advance(chars, cur);
    lemma_advance(chars, cur);
    lemma_exact_fits(chars, c1);
    lemma_raise(m.tokens, m.errors, file_id, cur.pos, c1.pos);
    if c == '"' {
        let s1 = string_span(file_id, m, c1);
        lemma_span_of(file_id, m.start_pos, c1.pos, m.start_line, m.start_col, c1.pos);
        lemma_add_token(at(m, c1), TokenTypeView::StringLiteral(m.buffer), s1, file_id, c1.pos);
        let m1 = with_token(at(m, c1), TokenTypeView::StringLiteral(m.buffer), s1);
        lemma_span_of(file_id, c1.pos, c1.pos, c1.line, c1.col, c1.pos);
        lemma_add_token(m1, TokenTypeView::ComplexStringEnd, span_of(file_id, c1.pos, c1.pos, c1.line, c1.col), file_id, c1.pos);
    } else if c == '$' {
        if peek(chars, c1) == Some('{') {
            let c2 = advance(chars, c1);
            lemma_advance(chars, c1);
            lemma_exact_fits(chars, c2);
            lemma_raise(m.tokens, m.errors, file_id, cur.pos, c2.pos);
            let m1 = LexModel { complex: true, ..at(m, c2) };
            let m2 = if m.buffer.len() > 0 {
                let s1 = span_of(file_id, m.start_pos, m.start_pos, m.start_line, m.start_col);
                lemma_span_of(file_id, m.start_pos, m.start_pos, m.start_line, m.start_col, c2.pos);
                lemma_add_token(m1, TokenTypeView::ComplexStringStart, s1, file_id, c2.pos);
                let a = with_token(m1, TokenTypeView::ComplexStringStart, s1);
                let s2 = span_of(file_id, m.start_pos, c2.pos - 1, m.start_line, m.start_col);
                lemma_span_of(file_id, m.start_pos, c2.pos - 1, m.start_line, m.start_col, c2.pos);
                lemma_add_token(a, TokenTypeView::StringLiteral(m.buffer), s2, file_id, c2.pos);
                let b = with_token(a, TokenTypeView::StringLiteral(m.buffer), s2);
                LexModel { buffer: Seq::empty(), ..b }
            } else {
                m1
            };
            lemma_span_of(file_id, c2.pos - 1, c2.pos, c2.line, c2.col, c2.pos);
            lemma_add_token(m2, TokenTypeView::StringInterpolationStart, span_of(file_id, c2.pos - 1, c2.pos, c2.line, c2.col), file_id, c2.pos);
        }
    } else if c == '\\' {
        match peek(chars, c1) {
            None => {
                lemma_span_of(file_id, m.start_pos, c1.pos, m.start_line, m.start_col, c1.pos);
                lemma_add_error(at(m, c1), LexerErrorView::UnterminatedStringLiteral { span: string_span(file_id, m, c1), suggestions: crate::lexer::unterminated_string_note() }, file_id, c1.pos);
            },
            Some(e) => {
                let c2 = advance(chars, c1);
                lemma_advance(chars, c1);
                lemma_exact_fits(chars, c2);
                lemma_raise(m.tokens, m.errors, file_id, cur.pos, c2.pos);
                lemma_hex_escape(chars, file_id, m, c2);
                lemma_span_of(file_id, m.start_pos, c1.pos, m.start_line, m.start_col, c1.pos);
                lemma_add_error(at(m, c1), LexerErrorView::InvalidEscapeSequence { span: string_span(file_id, m, c1), suggestions: crate::lexer::bad_escape_note(e) }, file_id, c1.pos);
            },
        }
    }
}

proof fn lemma_interpolation_step(chars: Seq<char>, file_id: usize, m: LexModel)
    requires
        model_ok(chars, file_id, m),
        0 <= m.cur.index < chars.len(),
    ensures
        model_ok(chars, file_id, interpolation_step(chars, file_id, m)),
        m.cur.pos <= interpolation_step(chars, file_id, m).cur.pos,
{
    let cur = m.cur;
    let c = chars[cur.index];
    let c1 = advance(chars, cur);
    lemma_advance(chars, cur);
    lemma_exact_fits(chars, c1);
    lemma_raise(m.tokens, m.errors, file_id, cur.pos, c1.pos);
    if skippable(c) {
    } else if c == '}' {
        lemma_span_of(file_id, c1.pos - 1, c1.pos, c1.line, c1.col, c1.pos);
        lemma_add_token(at(m, c1), TokenTypeView::StringInterpolationEnd, span_of(file_id, c1.pos - 1, c1.pos, c1.line, c1.col), file_id, c1.pos);
    } else {
        lemma_normal_step(chars, file_id, m);
    }
}

proof fn lemma_step(chars: Seq<char>, file_id: usize, m: LexModel)
    requires
        model_ok(chars, file_id, m),
        0 <= m.cur.index < chars.len(),
    ensures
        model_ok(chars, file_id, step(chars, file_id, m)),
{
    match m.mode {
        LexingState::Normal => lemma_normal_step(chars, file_id, m),
        LexingState::InString => lemma_string_step(chars, file_id, m),
        LexingState::InInterpolation => lemma_interpolation_step(chars, file_id, m),
    }
}

proof fn lemma_run(chars: Seq<char>, file_id: usize, m: LexModel)
    requires
        model_ok(chars, file_id, m),
    ensures
        model_ok(chars, file_id, run(chars, file_id, m)),
    decreases chars.len() - m.cur.index,
{
    if 0 <= m.cur.index < chars.len() {
        let next = step(chars, file_id, m);
        lemma_step(chars, file_id, m);
        if m.cur.index < next.cur.index <= chars.len() {
            lemma_run(chars, file_id, next);
        }
    }
}

/// Every token and every error that lexing `chars` as file `file_id`
/// produces names that file and points within its bytes: a span's start is
/// not after its end, and its end is at most the UTF-8 length of the source.
pub proof fn law_spans_within_source(chars: Seq<char>, file_id: usize)
    requires
        input_fits(chars),
    ensures
        spans_within(lex(chars, file_id).tokens, lex(chars, file_id).errors, file_id, byte_len(chars)),
{
    let m0 = initial_model();
    assert(chars.take(0) =~= Seq::<char>::empty());
    assert(model_ok(chars, file_id, m0));
    lemma_run(chars, file_id, m0);
    let r = run(chars, file_id, m0);
    lemma_exact_fits(chars, r.cur);
    let p = r.cur.pos;
    let m1 = match r.mode {
        LexingState::InString => {
            lemma_span_of(file_id, r.start_pos, p, r.start_line, r.start_col, p);
            lemma_add_error(r, LexerErrorView::UnterminatedStringLiteral {
                span: span_of(file_id, r.start_pos, p, r.start_line, r.start_col),
                suggestions: crate::lexer::unterminated_string_note(),
            }, file_id, p);
            with_error(r, LexerErrorView::UnterminatedStringLiteral {
                span: span_of(file_id, r.start_pos, p, r.start_line, r.start_col),
                suggestions: crate::lexer::unterminated_string_note(),
            })
        },
        LexingState::InInterpolation => {
            lemma_span_of(file_id, r.start_pos, p, r.start_line, r.start_col, p);
            lemma_add_error(r, LexerErrorView::UnterminatedInterpolation {
                span: span_of(file_id, r.start_pos, p, r.start_line, r.start_col),
                suggestions: crate::lexer::unterminated_interpolation_note(),
            }, file_id, p);
            with_error(r, LexerErrorView::UnterminatedInterpolation {
                span: span_of(file_id, r.start_pos, p, r.start_line, r.start_col),
                suggestions: crate::lexer::unterminated_interpolation_note(),
            })
        },
        LexingState::Normal => r,
    };
    lemma_span_of(file_id, p, p, r.cur.line, r.cur.col, p);
    lemma_add_token(m1, TokenTypeView::EOF, span_of(file_id, p, p, r.cur.line, r.cur.col), file_id, p);
    assert(lex(chars, file_id) == with_token(m1, TokenTypeView::EOF, span_of(file_id, p, p, r.cur.line, r.cur.col)));
    lemma_raise(lex(chars, file_id).tokens, lex(chars, file_id).errors, file_id, p, byte_len(chars));
}

} // verus!
