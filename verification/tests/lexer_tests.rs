use quiklang::common::{CompilationReport, FileStore};
use quiklang::errors::{CompilerError, LexerError};
use quiklang::lexer::{tokenize, Token};
use quiklang::tokens::{Keyword, Operator, Symbol, TokenType};

fn setup_file_store(source: &str, file_name: &str, file_store: &mut FileStore) -> usize {
    file_store.add_file(file_name.to_string(), source.to_string())
}

fn assert_tokens(actual: &[Token], expected: &[TokenType], _file_id: usize) {
    assert_eq!(actual.len(), expected.len(), "Number of tokens mismatch.");
    for (i, (act, exp)) in actual.iter().zip(expected.iter()).enumerate() {
        assert_eq!(
            &act.token, exp,
            "Token mismatch at index {}: expected {:?}, got {:?}",
            i, exp, act.token
        );
    }
}

fn lex_source(source: &str, file_name: &str) -> (Vec<Token>, CompilationReport, usize) {
    let mut file_store = FileStore::default();
    let file_id = setup_file_store(source, file_name, &mut file_store);
    let mut report = CompilationReport {
        file_store: file_store.clone(),
        ..Default::default()
    };
    let tokens = tokenize(
        &file_store.get_file(file_id).unwrap().source,
        file_id,
        &mut report,
    )
    .tokens;
    (tokens, report, file_id)
}

#[test]
fn test_simple_function() {
    let source = r#"
            fun main() {
                let x = 42;
                let y = "hello";
            }
        "#;
    let (tokens, report, file_id) = lex_source(source, "test_simple_function.quik");

    let expected_tokens = vec![
        TokenType::Keyword(Keyword::Fun),
        TokenType::Identifier("main".to_string()),
        TokenType::Symbol(Symbol::LeftParen),
        TokenType::Symbol(Symbol::RightParen),
        TokenType::Symbol(Symbol::LeftBrace),
        TokenType::Keyword(Keyword::Let),
        TokenType::Identifier("x".to_string()),
        TokenType::Operator(Operator::Assign),
        TokenType::IntegerLiteral(42),
        TokenType::Symbol(Symbol::Semicolon),
        TokenType::Keyword(Keyword::Let),
        TokenType::Identifier("y".to_string()),
        TokenType::Operator(Operator::Assign),
        TokenType::StringLiteral("hello".to_string()),
        TokenType::Symbol(Symbol::Semicolon),
        TokenType::Symbol(Symbol::RightBrace),
        TokenType::EOF,
    ];

    assert!(
        !report.has_errors(),
        "Unexpected lexer errors: {:?}",
        report.errors
    );
    assert_tokens(&tokens, &expected_tokens, file_id);
}

#[test]
fn test_unrecognized_character() {
    let source = r#"
            let x = 10;
            let y = $invalid;
        "#;
    let (tokens, report, file_id) = lex_source(source, "test_unrecognized_character.quik");

    let expected_tokens = vec![
        TokenType::Keyword(Keyword::Let),
        TokenType::Identifier("x".to_string()),
        TokenType::Operator(Operator::Assign),
        TokenType::IntegerLiteral(10),
        TokenType::Symbol(Symbol::Semicolon),
        TokenType::Keyword(Keyword::Let),
        TokenType::Identifier("y".to_string()),
        TokenType::Operator(Operator::Assign),
        TokenType::Identifier("invalid".to_string()),
        TokenType::Symbol(Symbol::Semicolon),
        TokenType::EOF,
    ];

    assert_eq!(report.errors.len(), 1, "Expected one lexer error.");

    if let CompilerError::LexerError(LexerError::UnrecognizedCharacter {
        character,
        span,
        suggestion,
    }) = &report.errors[0]
    {
        assert_eq!(*character, '$');
        assert_eq!(span.line, 3);
        assert_eq!(span.col, 21);
        assert_eq!(*suggestion, Vec::<String>::new());
    } else {
        panic!("Expected UnrecognizedCharacter lexer error.");
    }

    assert_tokens(&tokens, &expected_tokens, file_id);
}

#[test]
fn test_unterminated_string_literal() {
    let source = r#"
            let message = "Hello, World!;"#;
    let (tokens, report, file_id) = lex_source(source, "test_unterminated_string_literal.quik");

    let expected_tokens = vec![
        TokenType::Keyword(Keyword::Let),
        TokenType::Identifier("message".to_string()),
        TokenType::Operator(Operator::Assign),
        TokenType::EOF,
    ];

    assert_eq!(report.errors.len(), 1, "Expected one lexer error.");

    if let CompilerError::LexerError(LexerError::UnterminatedStringLiteral { span, .. }) =
        &report.errors[0]
    {
        assert_eq!(span.line, 2);
        assert_eq!(span.col, 27);
    } else {
        panic!("Expected UnterminatedStringLiteral lexer error.");
    }

    assert_tokens(&tokens, &expected_tokens, file_id);
}

#[test]
fn test_multi_line_comments() {
    let source = r#"
            /* This is a
               multi-line comment */
            let x = 100;
        "#;
    let (tokens, report, file_id) = lex_source(source, "test_multi_line_comments.quik");

    let expected_tokens = vec![
        TokenType::Keyword(Keyword::Let),
        TokenType::Identifier("x".to_string()),
        TokenType::Operator(Operator::Assign),
        TokenType::IntegerLiteral(100),
        TokenType::Symbol(Symbol::Semicolon),
        TokenType::EOF,
    ];

    assert!(
        !report.has_errors(),
        "Unexpected lexer errors: {:?}",
        report.errors
    );
    assert_tokens(&tokens, &expected_tokens, file_id);
}

#[test]
fn test_invalid_number_format() {
    let source = r#"
            let x = 12.34.56;
        "#;
    let (tokens, report, file_id) = lex_source(source, "test_invalid_number_format.quik");

    let expected_tokens = vec![
        TokenType::Keyword(Keyword::Let),
        TokenType::Identifier("x".to_string()),
        TokenType::Operator(Operator::Assign),
        TokenType::Symbol(Symbol::Semicolon),
        TokenType::EOF,
    ];

    assert_eq!(report.errors.len(), 1, "Expected one lexer error.");

    if let CompilerError::LexerError(LexerError::InvalidNumberFormat {
        invalid_string,
        span,
        ..
    }) = &report.errors[0]
    {
        assert_eq!(invalid_string, "12.34.56");
        assert_eq!(span.line, 2);
        assert_eq!(span.col, 21);
    } else {
        panic!("Expected InvalidNumberFormat lexer error.");
    }

    assert_tokens(&tokens, &expected_tokens, file_id);
}

#[test]
fn test_string_interpolation() {
    let source = r#"
            let name = "Alice";
            let greeting = "Hello, ${name}!";
        "#;
    let (tokens, _report, file_id) = lex_source(source, "test_string_interpolation.quik");

    println!("{:#?}", tokens);

    let expected_tokens = vec![
        TokenType::Keyword(Keyword::Let),
        TokenType::Identifier("name".to_string()),
        TokenType::Operator(Operator::Assign),
        TokenType::StringLiteral("Alice".to_string()),
        TokenType::Symbol(Symbol::Semicolon),
        TokenType::Keyword(Keyword::Let),
        TokenType::Identifier("greeting".to_string()),
        TokenType::Operator(Operator::Assign),
        TokenType::ComplexStringStart,
        TokenType::StringLiteral("Hello, ".to_string()),
        TokenType::StringInterpolationStart,
        TokenType::Identifier("name".to_string()),
        TokenType::StringInterpolationEnd,
        TokenType::StringLiteral("!".to_string()),
        TokenType::ComplexStringEnd,
        TokenType::Symbol(Symbol::Semicolon),
        TokenType::EOF,
    ];

    assert_tokens(&tokens, &expected_tokens, file_id);
}
