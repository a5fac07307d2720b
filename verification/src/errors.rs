//! Errors and warnings of the compiler front end, with their source locations.
use vstd::prelude::*;
use crate::text::{push_str, string_push};
use crate::tokens::{TokenType, TokenTypeView, token_type_text};

verus! {

/// A location in a source file: byte offsets `start..end`, and the line and
/// column (both from 1) where it begins.
#[derive(Debug, Clone, Copy, PartialEq, Eq, Structural)]
pub struct Span {
    pub file_id: usize,
    pub start: usize,
    pub end: usize,
    pub line: usize,
    pub col: usize,
}

impl Span {
    pub fn new(file_id: usize, start: usize, end: usize, line: usize, col: usize) -> (r: Span)
        ensures
            r == (Span { file_id, start, end, line, col }),
    {
        Span { file_id, start, end, line, col }
    }
}

/// The sequence of character sequences that a list of strings holds.
pub open spec fn strings_view(v: Seq<String>) -> Seq<Seq<char>> {
    v.map_values(|s: String| s@)
}

/// Errors found while splitting source text into tokens.
#[derive(Debug, Clone, PartialEq)]
pub enum LexerError {
    UnrecognizedCharacter { character: char, span: Span, suggestion: Vec<String> },
    UnterminatedStringLiteral { span: Span, suggestions: Vec<String> },
    UnterminatedInterpolation { span: Span, suggestions: Vec<String> },
    UnterminatedMultiLineComment { span: Span, suggestions: Vec<String> },
    InvalidEscapeSequence { span: Span, suggestions: Vec<String> },
    InvalidNumberFormat { invalid_string: String, span: Span, suggestions: Vec<String> },
}

/// Errors found while reading a token stream.
#[derive(Debug, Clone, PartialEq)]
pub enum ParserError {
    UnexpectedToken { expected: String, found: TokenType, span: Span, suggestion: Vec<String> },
}

/// Any error of the compiler front end.
#[derive(Debug, Clone, PartialEq)]
pub enum CompilerError {
    LexerError(LexerError),
    ParserError(ParserError),
}

/// Warnings of the compiler front end.
#[derive(Debug, Clone, PartialEq)]
pub enum CompilerWarning {
    UnusedVariable { name: String, span: Span, suggestion: Vec<String> },
    DeprecatedFeature { feature: String, span: Span, suggestion: Vec<String> },
}

/// A `LexerError` with its strings taken as character sequences.
pub enum LexerErrorView {
    UnrecognizedCharacter { character: char, span: Span, suggestion: Seq<Seq<char>> },
    UnterminatedStringLiteral { span: Span, suggestions: Seq<Seq<char>> },
    UnterminatedInterpolation { span: Span, suggestions: Seq<Seq<char>> },
    UnterminatedMultiLineComment { span: Span, suggestions: Seq<Seq<char>> },
    InvalidEscapeSequence { span: Span, suggestions: Seq<Seq<char>> },
    InvalidNumberFormat { invalid_string: Seq<char>, span: Span, suggestions: Seq<Seq<char>> },
}

/// A `ParserError` with its strings taken as character sequences.
pub enum ParserErrorView {
    UnexpectedToken {
        expected: Seq<char>,
        found: TokenTypeView,
        span: Span,
        suggestion: Seq<Seq<char>>,
    },
}

/// A `CompilerError` with its strings taken as character sequences.
pub enum CompilerErrorView {
    LexerError(LexerErrorView),
    ParserError(ParserErrorView),
}

impl View for LexerError {
    type V = LexerErrorView;

    open spec fn view(&self) -> LexerErrorView {
        match self {
            LexerError::UnrecognizedCharacter { character, span, suggestion } =>
                LexerErrorView::UnrecognizedCharacter {
                    character: *character,
                    span: *span,
                    suggestion: strings_view(suggestion@),
                },
            LexerError::UnterminatedStringLiteral { span, suggestions } =>
                LexerErrorView::UnterminatedStringLiteral {
                    span: *span,
                    suggestions: strings_view(suggestions@),
                },
            LexerError::UnterminatedInterpolation { span, suggestions } =>
                LexerErrorView::UnterminatedInterpolation {
                    span: *span,
                    suggestions: strings_view(suggestions@),
                },
            LexerError::UnterminatedMultiLineComment { span, suggestions } =>
                LexerErrorView::UnterminatedMultiLineComment {
                    span: *span,
                    suggestions: strings_view(suggestions@),
                },
            LexerError::InvalidEscapeSequence { span, suggestions } =>
                LexerErrorView::InvalidEscapeSequence {
                    span: *span,
                    suggestions: strings_view(suggestions@),
                },
            LexerError::InvalidNumberFormat { invalid_string, span, suggestions } =>
                LexerErrorView::InvalidNumberFormat {
                    invalid_string: invalid_string@,
                    span: *span,
                    suggestions: strings_view(suggestions@),
                },
        }
    }
}

impl View for ParserError {
    type V = ParserErrorView;

    open spec fn view(&self) -> ParserErrorView {
        match self {
            ParserError::UnexpectedToken { expected, found, span, suggestion } =>
                ParserErrorView::UnexpectedToken {
                    expected: expected@,
                    found: found@,
                    span: *span,
                    suggestion: strings_view(suggestion@),
                },
        }
    }
}

impl View for CompilerError {
    type V = CompilerErrorView;

    open spec fn view(&self) -> CompilerErrorView {
        match self {
            CompilerError::LexerError(e) => CompilerErrorView::LexerError(e@),
            CompilerError::ParserError(e) => CompilerErrorView::ParserError(e@),
        }
    }
}

/// The location of a lexer error.
pub open spec fn lexer_error_span(e: LexerErrorView) -> Span {
    match e {
        LexerErrorView::UnrecognizedCharacter { span, .. } => span,
        LexerErrorView::UnterminatedStringLiteral { span, .. } => span,
        LexerErrorView::UnterminatedInterpolation { span, .. } => span,
        LexerErrorView::UnterminatedMultiLineComment { span, .. } => span,
        LexerErrorView::InvalidEscapeSequence { span, .. } => span,
        LexerErrorView::InvalidNumberFormat { span, .. } => span,
    }
}

/// The suggestions attached to a lexer error.
pub open spec fn lexer_error_suggestions(e: LexerErrorView) -> Seq<Seq<char>> {
    match e {
        LexerErrorView::UnrecognizedCharacter { suggestion, .. } => suggestion,
        LexerErrorView::UnterminatedStringLiteral { suggestions, .. } => suggestions,
        LexerErrorView::UnterminatedInterpolation { suggestions, .. } => suggestions,
        LexerErrorView::UnterminatedMultiLineComment { suggestions, .. } => suggestions,
        LexerErrorView::InvalidEscapeSequence { suggestions, .. } => suggestions,
        LexerErrorView::InvalidNumberFormat { suggestions, .. } => suggestions,
    }
}

/// The one-line message of a lexer error.
pub open spec fn lexer_error_message(e: LexerErrorView) -> Seq<char> {
    match e {
        LexerErrorView::UnrecognizedCharacter { character, .. } =>
            "Unrecognized character '"@ + seq![character] + "'"@,
        LexerErrorView::UnterminatedStringLiteral { .. } => "Unterminated string literal"@,
        LexerErrorView::UnterminatedInterpolation { .. } => "Unterminated string interpolation"@,
        LexerErrorView::UnterminatedMultiLineComment { .. } => "Unterminated multi-line comment"@,
        LexerErrorView::InvalidEscapeSequence { .. } => "Invalid escape sequence"@,
        LexerErrorView::InvalidNumberFormat { invalid_string, .. } =>
            "Invalid number format: '"@ + invalid_string + "'"@,
    }
}

/// The one-line message of a parser error.
pub open spec fn parser_error_message(e: ParserErrorView) -> Seq<char> {
    match e {
        ParserErrorView::UnexpectedToken { expected, found, .. } =>
            "Unexpected token: expected '"@ + expected + "', found '"@ + token_type_text(found)
                + "'"@,
    }
}

/// The one-line message of any front-end error.
pub open spec fn error_message(e: CompilerErrorView) -> Seq<char> {
    match e {
        CompilerErrorView::LexerError(l) => lexer_error_message(l),
        CompilerErrorView::ParserError(p) => parser_error_message(p),
    }
}

/// The location of any front-end error.
pub open spec fn error_span(e: CompilerErrorView) -> Span {
    match e {
        CompilerErrorView::LexerError(l) => lexer_error_span(l),
        CompilerErrorView::ParserError(ParserErrorView::UnexpectedToken { span, .. }) => span,
    }
}

/// The suggestions attached to any front-end error.
pub open spec fn error_suggestions(e: CompilerErrorView) -> Seq<Seq<char>> {
    match e {
        CompilerErrorView::LexerError(l) => lexer_error_suggestions(l),
        CompilerErrorView::ParserError(ParserErrorView::UnexpectedToken { suggestion, .. }) =>
            suggestion,
    }
}

/// A copy of a list of strings.
pub fn copy_strings(v: &Vec<String>) -> (r: Vec<String>)
    ensures
        strings_view(r@) == strings_view(v@),
{
    let mut r: Vec<String> = Vec::new();
    let mut i: usize = 0;
    while i < v.len()
        invariant
            i <= v.len(),
            r@ =~= v@.take(i as int),
        decreases v.len() - i,
    {
        r.push(v[i].clone());
        i = i + 1;
        assert(r@ =~= v@.take(i as int));
    }
    assert(v@.take(v.len() as int) =~= v@);
    r
}

impl LexerError {
    /// The location of the error. Every lexer error has one.
    pub fn span(&self) -> (r: Option<Span>)
        ensures
            r == Some(lexer_error_span(self@)),
    {
        match self {
            LexerError::UnrecognizedCharacter { span, .. } => Some(*span),
            LexerError::UnterminatedStringLiteral { span, .. } => Some(*span),
            LexerError::UnterminatedInterpolation { span, .. } => Some(*span),
            LexerError::UnterminatedMultiLineComment { span, .. } => Some(*span),
            LexerError::InvalidEscapeSequence { span, .. } => Some(*span),
            LexerError::InvalidNumberFormat { span, .. } => Some(*span),
        }
    }

    /// The suggestions attached to the error.
    pub fn suggestions(&self) -> (r: Vec<String>)
        ensures
            strings_view(r@) == lexer_error_suggestions(self@),
    {
        match self {
            LexerError::UnrecognizedCharacter { suggestion, .. } => copy_strings(suggestion),
            LexerError::UnterminatedStringLiteral { suggestions, .. } => copy_strings(suggestions),
            LexerError::UnterminatedInterpolation { suggestions, .. } => copy_strings(suggestions),
            LexerError::UnterminatedMultiLineComment { suggestions, .. } => copy_strings(
                suggestions,
            ),
            LexerError::InvalidEscapeSequence { suggestions, .. } => copy_strings(suggestions),
            LexerError::InvalidNumberFormat { suggestions, .. } => copy_strings(suggestions),
        }
    }

    /// The one-line message of the error.
    pub fn message(&self) -> (r: String)
        ensures
            r@ == lexer_error_message(self@),
    {
        let mut out = String::new();
        match self {
            LexerError::UnrecognizedCharacter { character, .. } => {
                push_str(&mut out, "Unrecognized character '");
                string_push(&mut out, *character);
                push_str(&mut out, "'");
            },
            LexerError::UnterminatedStringLiteral { .. } => push_str(
                &mut out,
                "Unterminated string literal",
            ),
            LexerError::UnterminatedInterpolation { .. } => push_str(
                &mut out,
                "Unterminated string interpolation",
            ),
            LexerError::UnterminatedMultiLineComment { .. } => push_str(
                &mut out,
                "Unterminated multi-line comment",
            ),
            LexerError::InvalidEscapeSequence { .. } => push_str(&mut out, "Invalid escape sequence"),
            LexerError::InvalidNumberFormat { invalid_string, .. } => {
                push_str(&mut out, "Invalid number format: '");
                push_str(&mut out, invalid_string.as_str());
                push_str(&mut out, "'");
            },
        }
        assert(out@ =~= lexer_error_message(self@));
        out
    }
}

impl ParserError {
    /// The location of the error. Every parser error has one.
    pub fn span(&self) -> (r: Option<Span>)
        ensures
            r == Some(error_span(CompilerErrorView::ParserError(self@))),
    {
        match self {
            ParserError::UnexpectedToken { span, .. } => Some(*span),
        }
    }

    /// The suggestions attached to the error.
    pub fn suggestions(&self) -> (r: Vec<String>)
        ensures
            strings_view(r@) == error_suggestions(CompilerErrorView::ParserError(self@)),
    {
        match self {
            ParserError::UnexpectedToken { suggestion, .. } => copy_strings(suggestion),
        }
    }

    /// The one-line message of the error.
    pub fn message(&self) -> (r: String)
        ensures
            r@ == parser_error_message(self@),
    {
        let mut out = String::new();
        match self {
            ParserError::UnexpectedToken { expected, found, .. } => {
                push_str(&mut out, "Unexpected token: expected '");
                push_str(&mut out, expected.as_str());
                push_str(&mut out, "', found '");
                let f = found.to_text();
                push_str(&mut out, f.as_str());
                push_str(&mut out, "'");
            },
        }
        assert(out@ =~= parser_error_message(self@));
        out
    }
}

impl CompilerError {
    /// The one-line message of the error.
    pub fn message(&self) -> (r: String)
        ensures
            r@ == error_message(self@),
    {
        match self {
            CompilerError::LexerError(e) => e.message(),
            CompilerError::ParserError(e) => e.message(),
        }
    }

    /// The location of the error.
    pub fn span(&self) -> (r: Option<Span>)
        ensures
            r == Some(error_span(self@)),
    {
        match self {
            CompilerError::LexerError(e) => e.span(),
            CompilerError::ParserError(e) => e.span(),
        }
    }

    /// The suggestions attached to the error.
    pub fn suggestions(&self) -> (r: Vec<String>)
        ensures
            strings_view(r@) == error_suggestions(self@),
    {
        match self {
            CompilerError::LexerError(e) => e.suggestions(),
            CompilerError::ParserError(e) => e.suggestions(),
        }
    }
}

} // verus!
