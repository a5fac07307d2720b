use quiklang::common::CompilationReport;
use quiklang::errors::{CompilerError, LexerError, Span};
use quiklang::lexer::{tokenize, CharStream, Token};
use quiklang::tokens::{Keyword, Operator, Symbol, TokenType};

fn lex(source: &str) -> (Vec<Token>, Vec<CompilerError>) {
    let mut report = CompilationReport::default();
    let tokens = tokenize(source, 7, &mut report).tokens;
    (tokens, report.errors)
}

fn kinds(tokens: &[Token]) -> Vec<TokenType> {
    tokens.iter().map(|t| t.token.clone()).collect()
}

fn op(o: Operator) -> TokenType {
    TokenType::Operator(o)
}

fn sym(s: Symbol) -> TokenType {
    TokenType::Symbol(s)
}

fn escape_error(e: &CompilerError) -> (Span, Vec<String>) {
    match e {
        CompilerError::LexerError(LexerError::InvalidEscapeSequence { span, suggestions }) => {
            (*span, suggestions.clone())
        }
        other => panic!("expected an invalid escape sequence, got {:?}", other),
    }
}

#[test]
fn operators_and_symbols() {
    let (tokens, errors) = lex("!= !! ! ?? ? == = <= << < >= >> > && & || | -> - .. ..= . :: :");
    assert!(errors.is_empty());
    assert_eq!(
        kinds(&tokens),
        vec![
            op(Operator::NotEqual),
            op(Operator::DoubleExclamation),
            op(Operator::LogicalNot),
            op(Operator::DoubleQuestion),
            op(Operator::QuestionMark),
            op(Operator::Equal),
            op(Operator::Assign),
            op(Operator::LessOrEqual),
            op(Operator::ShiftLeft),
            op(Operator::LessThan),
            op(Operator::GreaterOrEqual),
            op(Operator::ShiftRight),
            op(Operator::GreaterThan),
            op(Operator::And),
            op(Operator::BitwiseAnd),
            op(Operator::Or),
            op(Operator::BitwiseOr),
            sym(Symbol::Arrow),
            op(Operator::Subtract),
            op(Operator::RangeExclusive),
            op(Operator::RangeInclusive),
            sym(Symbol::Dot),
            sym(Symbol::DoubleColon),
            sym(Symbol::Colon),
            TokenType::EOF,
        ]
    );
}

#[test]
fn brackets_and_separators() {
    let (tokens, errors) = lex("()[]{},;");
    assert!(errors.is_empty());
    assert_eq!(
        kinds(&tokens),
        vec![
            sym(Symbol::LeftParen),
            sym(Symbol::RightParen),
            sym(Symbol::LeftBracket),
            sym(Symbol::RightBracket),
            sym(Symbol::LeftBrace),
            sym(Symbol::RightBrace),
            sym(Symbol::Comma),
            sym(Symbol::Semicolon),
            TokenType::EOF,
        ]
    );
}

#[test]
fn plus_star_and_friends_make_no_token() {
    let (tokens, errors) = lex("1 + 2 * 3 @ ^ ~");
    assert!(errors.is_empty());
    assert_eq!(
        kinds(&tokens),
        vec![
            TokenType::IntegerLiteral(1),
            TokenType::IntegerLiteral(2),
            TokenType::IntegerLiteral(3),
            TokenType::EOF,
        ]
    );
}

#[test]
fn keywords_are_recognised() {
    let (tokens, errors) = lex("let mut fun return if else while for in break continue lets");
    assert!(errors.is_empty());
    assert_eq!(
        kinds(&tokens),
        vec![
            TokenType::Keyword(Keyword::Let),
            TokenType::Keyword(Keyword::Mut),
            TokenType::Keyword(Keyword::Fun),
            TokenType::Keyword(Keyword::Return),
            TokenType::Keyword(Keyword::If),
            TokenType::Keyword(Keyword::Else),
            TokenType::Keyword(Keyword::While),
            TokenType::Keyword(Keyword::For),
            TokenType::Keyword(Keyword::In),
            TokenType::Keyword(Keyword::Break),
            TokenType::Keyword(Keyword::Continue),
            TokenType::Identifier("lets".to_string()),
            TokenType::EOF,
        ]
    );
}

#[test]
fn spans_count_bytes_lines_and_columns() {
    let (tokens, errors) = lex("let\n  héllo_1 = 25;");
    assert!(errors.is_empty());
    assert_eq!(tokens[0].span, Span::new(7, 0, 3, 1, 1));
    assert_eq!(tokens[1].token, TokenType::Identifier("héllo_1".to_string()));
    // 'é' takes two bytes, one column
    assert_eq!(tokens[1].span, Span::new(7, 6, 14, 2, 3));
    assert_eq!(tokens[2].span, Span::new(7, 15, 16, 2, 11));
    assert_eq!(tokens[3].span, Span::new(7, 17, 19, 2, 13));
    assert_eq!(tokens[4].span, Span::new(7, 19, 20, 2, 15));
    assert_eq!(tokens[5].token, TokenType::EOF);
    assert_eq!(tokens[5].span, Span::new(7, 20, 20, 2, 16));
}

#[test]
fn comments_are_skipped() {
    let (tokens, errors) = lex("1 // one\n2 /* two\n * */ 3 / 4");
    assert!(errors.is_empty());
    assert_eq!(
        kinds(&tokens),
        vec![
            TokenType::IntegerLiteral(1),
            TokenType::IntegerLiteral(2),
            TokenType::IntegerLiteral(3),
            op(Operator::Divide),
            TokenType::IntegerLiteral(4),
            TokenType::EOF,
        ]
    );
}

#[test]
fn divide_at_end_of_input() {
    let (tokens, errors) = lex("/");
    assert!(errors.is_empty());
    assert_eq!(tokens[0].token, op(Operator::Divide));
    assert_eq!(tokens[0].span, Span::new(7, 0, 1, 1, 1));
    assert_eq!(tokens[1].token, TokenType::EOF);
}

#[test]
fn unterminated_multi_line_comment() {
    let (tokens, errors) = lex("x /* open");
    assert_eq!(kinds(&tokens), vec![TokenType::Identifier("x".to_string()), TokenType::EOF]);
    assert_eq!(errors.len(), 1);
    match &errors[0] {
        CompilerError::LexerError(LexerError::UnterminatedMultiLineComment { span, suggestions }) => {
            assert_eq!(*span, Span::new(7, 2, 9, 1, 3));
            assert_eq!(
                suggestions,
                &vec!["You may have forgotten to close the comment with '*/'.".to_string()]
            );
        }
        other => panic!("unexpected error {:?}", other),
    }
}

#[test]
fn numbers_integer_float_and_too_large() {
    let (tokens, errors) = lex("9223372036854775807 3.25 7. 9223372036854775808");
    assert_eq!(
        kinds(&tokens),
        vec![
            TokenType::IntegerLiteral(i64::MAX),
            TokenType::FloatLiteral("3.25".to_string()),
            TokenType::FloatLiteral("7.".to_string()),
            TokenType::EOF,
        ]
    );
    assert_eq!(errors.len(), 1);
    match &errors[0] {
        CompilerError::LexerError(LexerError::InvalidNumberFormat { invalid_string, span, suggestions }) => {
            assert_eq!(invalid_string, "9223372036854775808");
            assert_eq!(span.start, 28);
            assert_eq!(span.end, 47);
            assert_eq!(
                suggestions,
                &vec!["Your number may be too large or too small.".to_string()]
            );
        }
        other => panic!("unexpected error {:?}", other),
    }
}

#[test]
fn two_dots_are_an_invalid_number() {
    let (_tokens, errors) = lex("1.2.3");
    assert_eq!(errors.len(), 1);
    match &errors[0] {
        CompilerError::LexerError(LexerError::InvalidNumberFormat { invalid_string, suggestions, .. }) => {
            assert_eq!(invalid_string, "1.2.3");
            assert_eq!(suggestions, &vec!["You may have multiple decimal points.".to_string()]);
        }
        other => panic!("unexpected error {:?}", other),
    }
}

#[test]
fn simple_escapes() {
    // `\$` leaves the dollar sign to be read again, so it comes out twice
    let (tokens, errors) = lex(r#""a\n\t\r\0\\\"\'\$b""#);
    assert!(errors.is_empty(), "{:?}", errors);
    assert_eq!(
        kinds(&tokens),
        vec![TokenType::StringLiteral("a\n\t\r\0\\\"'$$b".to_string()), TokenType::EOF]
    );
}

#[test]
fn hex_and_unicode_escapes() {
    let (tokens, errors) = lex(r#""\x41\u00e9\U1F600!""#);
    assert!(errors.is_empty(), "{:?}", errors);
    assert_eq!(
        kinds(&tokens),
        vec![TokenType::StringLiteral("Aé😀!".to_string()), TokenType::EOF]
    );
}

#[test]
fn unknown_escape_is_reported_and_the_character_kept() {
    let (tokens, errors) = lex(r#""a\qb""#);
    assert_eq!(
        kinds(&tokens),
        vec![TokenType::StringLiteral("aqb".to_string()), TokenType::EOF]
    );
    assert_eq!(errors.len(), 1);
    let (span, suggestions) = escape_error(&errors[0]);
    assert_eq!(span, Span::new(7, 0, 3, 1, 1));
    assert_eq!(suggestions, vec!["'q' is not a valid escape sequence.".to_string()]);
}

#[test]
fn hex_escape_without_digits() {
    let (tokens, errors) = lex(r#""\xg""#);
    assert_eq!(
        kinds(&tokens),
        vec![TokenType::StringLiteral("g".to_string()), TokenType::EOF]
    );
    assert_eq!(errors.len(), 1);
    let (_, suggestions) = escape_error(&errors[0]);
    assert_eq!(
        suggestions,
        vec!["The escape sequence is not a valid hexadecimal number.".to_string()]
    );
}

#[test]
fn hex_escape_too_long_for_u32() {
    let (_tokens, errors) = lex(r#""\u123456789""#);
    assert_eq!(errors.len(), 1);
    let (_, suggestions) = escape_error(&errors[0]);
    assert_eq!(
        suggestions,
        vec!["The escape sequence is not a valid hexadecimal number.".to_string()]
    );
}

#[test]
fn surrogate_escape_is_not_a_character() {
    let (tokens, errors) = lex(r#""\uD800x""#);
    assert_eq!(
        kinds(&tokens),
        vec![TokenType::StringLiteral("x".to_string()), TokenType::EOF]
    );
    assert_eq!(errors.len(), 1);
    let (span, suggestions) = escape_error(&errors[0]);
    assert_eq!(span, Span::new(7, 0, 7, 1, 1));
    assert_eq!(
        suggestions,
        vec!["The escape sequence is not a valid Unicode code point.".to_string()]
    );
}

#[test]
fn backslash_at_end_of_input() {
    let (tokens, errors) = lex("\"ab\\");
    assert_eq!(kinds(&tokens), vec![TokenType::EOF]);
    assert_eq!(errors.len(), 1);
    match &errors[0] {
        CompilerError::LexerError(LexerError::UnterminatedStringLiteral { span, suggestions }) => {
            assert_eq!(*span, Span::new(7, 0, 4, 1, 1));
            assert_eq!(
                suggestions,
                &vec!["You may have forgotten to close the string with '\"'.".to_string()]
            );
        }
        other => panic!("unexpected error {:?}", other),
    }
}

#[test]
fn dollar_without_brace_stays_in_the_string() {
    let (tokens, errors) = lex(r#""a$b""#);
    assert!(errors.is_empty());
    assert_eq!(
        kinds(&tokens),
        vec![TokenType::StringLiteral("a$b".to_string()), TokenType::EOF]
    );
}

#[test]
fn interpolation_at_the_start_has_no_leading_segment() {
    let (tokens, errors) = lex(r#""${ x }""#);
    assert!(errors.is_empty());
    assert_eq!(
        kinds(&tokens),
        vec![
            TokenType::StringInterpolationStart,
            TokenType::Identifier("x".to_string()),
            TokenType::StringInterpolationEnd,
            TokenType::StringLiteral(String::new()),
            TokenType::ComplexStringEnd,
            TokenType::EOF,
        ]
    );
}

#[test]
fn unterminated_interpolation() {
    let (tokens, errors) = lex(r#""a${x"#);
    assert_eq!(
        kinds(&tokens),
        vec![
            TokenType::ComplexStringStart,
            TokenType::StringLiteral("a".to_string()),
            TokenType::StringInterpolationStart,
            TokenType::Identifier("x".to_string()),
            TokenType::EOF,
        ]
    );
    assert_eq!(errors.len(), 1);
    match &errors[0] {
        CompilerError::LexerError(LexerError::UnterminatedInterpolation { span, suggestions }) => {
            assert_eq!(*span, Span::new(7, 0, 5, 1, 1));
            assert_eq!(
                suggestions,
                &vec!["You may have forgotten to close the interpolation with '}'.".to_string()]
            );
        }
        other => panic!("unexpected error {:?}", other),
    }
}

#[test]
fn blank_input_gives_only_end_of_file() {
    let (tokens, errors) = lex(" \n\t ");
    assert!(errors.is_empty());
    assert_eq!(kinds(&tokens), vec![TokenType::EOF]);
    assert_eq!(tokens[0].span, Span::new(7, 4, 4, 2, 3));
}

#[test]
fn end_of_file_comes_once_and_last() {
    let (tokens, _errors) = lex("let $ \"x ${ 1.2.3 \\q");
    let eofs = tokens.iter().filter(|t| t.token == TokenType::EOF).count();
    assert_eq!(eofs, 1);
    assert_eq!(tokens.last().unwrap().token, TokenType::EOF);
}

#[test]
fn every_span_lies_within_the_source() {
    let source = "let s = \"é${ x \\q 1.2.3 $ \u{1F600} /* never closed";
    let (tokens, errors) = lex(source);
    assert!(!errors.is_empty());
    for t in &tokens {
        assert_eq!(t.span.file_id, 7);
        assert!(t.span.start <= t.span.end && t.span.end <= source.len(), "{:?}", t);
    }
    for e in &errors {
        let span = e.span().unwrap();
        assert_eq!(span.file_id, 7);
        assert!(span.start <= span.end && span.end <= source.len(), "{:?}", e);
    }
    assert_eq!(tokens.last().unwrap().span.start, source.len());
}

const WHITE_SPACE: [u32; 25] = [
    0x09, 0x0A, 0x0B, 0x0C, 0x0D, 0x20, 0x85, 0xA0, 0x1680, 0x2000, 0x2001, 0x2002, 0x2003, 0x2004,
    0x2005, 0x2006, 0x2007, 0x2008, 0x2009, 0x200A, 0x2028, 0x2029, 0x202F, 0x205F, 0x3000,
];

#[test]
fn white_space_is_the_listed_code_points() {
    for v in 0..=0x10FFFFu32 {
        if let Some(c) = char::from_u32(v) {
            assert_eq!(c.is_whitespace(), WHITE_SPACE.contains(&v), "{:#x}", v);
        }
    }
    let (tokens, errors) = lex("\u{3000}x\u{2028}\u{85}y");
    assert!(errors.is_empty());
    assert_eq!(
        kinds(&tokens),
        vec![
            TokenType::Identifier("x".to_string()),
            TokenType::Identifier("y".to_string()),
            TokenType::EOF
        ]
    );
}

#[test]
fn positions_count_newlines_and_columns() {
    // byte offset, line and column of each token follow the characters before it
    let (tokens, errors) = lex("a\n\n  bc é\nd");
    assert!(errors.is_empty());
    assert_eq!(tokens[0].span, Span::new(7, 0, 1, 1, 1));
    assert_eq!(tokens[1].span, Span::new(7, 5, 7, 3, 3));
    assert_eq!(tokens[2].span, Span::new(7, 8, 10, 3, 6));
    assert_eq!(tokens[3].span, Span::new(7, 11, 12, 4, 1));
    assert_eq!(tokens[4].span, Span::new(7, 12, 12, 4, 2));
}

#[test]
fn char_stream_positions_follow_the_consumed_prefix() {
    let mut s = CharStream::new("ab\né\n\nxyz");
    assert_eq!(s.get_position(), (0, 1, 1));
    let mut read = String::new();
    while let Some(c) = s.next_char() {
        read.push(c);
        let newlines = read.matches('\n').count();
        let after = read.rsplit('\n').next().unwrap().chars().count();
        assert_eq!(s.get_position(), (read.len(), 1 + newlines, 1 + after));
    }
    assert_eq!(read, "ab\né\n\nxyz");
    assert_eq!(s.peek_char(), None);
}

#[test]
fn ascii_letters_and_digits_are_the_ascii_word_characters() {
    for v in 0..0x80u32 {
        let c = char::from_u32(v).unwrap();
        assert_eq!(c.is_alphabetic(), c.is_ascii_alphabetic(), "{:#x}", v);
        assert_eq!(c.is_alphanumeric(), c.is_ascii_alphanumeric(), "{:#x}", v);
    }
}
