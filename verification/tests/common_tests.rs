use quiklang::common::{CompilationReport, FileStore, PackageMetadata};
use quiklang::errors::{CompilerError, CompilerWarning, LexerError, ParserError, Span};
use quiklang::lexer::{tokenize, Token, Tokens};
use quiklang::tokens::{Keyword, Operator, Symbol, TokenType};

#[test]
fn files_get_consecutive_ids() {
    let mut store = FileStore::new();
    assert!(store.files().is_empty());
    let a = store.add_file("src/main.quik".to_string(), "let a = 1;".to_string());
    let b = store.add_file("src/util.quik".to_string(), "let b = 2;".to_string());
    assert_eq!(a, 0);
    assert_eq!(b, 1);
    let f = store.get_file(1).unwrap();
    assert_eq!(f.id, 1);
    assert_eq!(f.name, "src/util.quik");
    assert_eq!(f.source, "let b = 2;");
    assert!(store.get_file(2).is_none());
    assert_eq!(store.files().len(), 2);
    assert_eq!(store.files()[0].name, "src/main.quik");
}

#[test]
fn file_lookup_by_name_finds_the_first() {
    let mut store = FileStore::default();
    store.add_file("a.quik".to_string(), "one".to_string());
    store.add_file("b.quik".to_string(), "two".to_string());
    store.add_file("a.quik".to_string(), "three".to_string());
    let f = store.get_file_by_name("a.quik").unwrap();
    assert_eq!(f.id, 0);
    assert_eq!(f.source, "one");
    assert_eq!(store.get_file_by_name("b.quik").unwrap().id, 1);
    assert!(store.get_file_by_name("c.quik").is_none());
}

#[test]
fn project_files_are_added_in_order() {
    let mut store = FileStore::new();
    store.add_file("extra.quik".to_string(), String::new());
    store.add_project_files(
        "/work/project".to_string(),
        PackageMetadata { manifest: "[package]\nname = \"demo\"\n".to_string() },
        vec![
            ("/work/project/src/main.quik".to_string(), "fun main() {}".to_string()),
            ("/work/project/src/lib/x.quik".to_string(), "let x = 1;".to_string()),
        ],
    );
    assert_eq!(store.root_dir, "/work/project");
    assert_eq!(
        store.project_metadata.as_ref().unwrap().manifest,
        "[package]\nname = \"demo\"\n"
    );
    assert_eq!(store.files().len(), 3);
    assert_eq!(store.files()[0].name, "extra.quik");
    assert_eq!(store.files()[1].id, 1);
    assert_eq!(store.files()[1].name, "/work/project/src/main.quik");
    assert_eq!(store.files()[2].id, 2);
    assert_eq!(store.files()[2].source, "let x = 1;");
}

#[test]
fn report_collects_errors() {
    let mut report = CompilationReport::new(FileStore::new());
    assert!(!report.has_errors());
    report.add_error(CompilerError::LexerError(LexerError::UnterminatedStringLiteral {
        span: Span::new(0, 0, 1, 1, 1),
        suggestions: vec![],
    }));
    assert!(report.has_errors());
    assert_eq!(report.errors.len(), 1);
    assert!(report.warnings.is_empty());
}

#[test]
fn diagnostics_label_known_files_only() {
    let mut store = FileStore::new();
    let id = store.add_file("main.quik".to_string(), "let $ = 1;".to_string());
    let mut report = CompilationReport::new(store);
    let here = Span::new(id, 4, 5, 1, 5);
    report.add_error(CompilerError::LexerError(LexerError::UnrecognizedCharacter {
        character: '$',
        span: here,
        suggestion: vec!["Remove it.".to_string()],
    }));
    let elsewhere = Span::new(9, 0, 1, 1, 1);
    report.add_error(CompilerError::LexerError(LexerError::InvalidNumberFormat {
        invalid_string: "1.2.3".to_string(),
        span: elsewhere,
        suggestions: vec!["You may have multiple decimal points.".to_string()],
    }));
    let plans = report.diagnostics();
    assert_eq!(plans.len(), 2);
    assert_eq!(plans[0].message, "Unrecognized character '$'");
    assert_eq!(plans[0].label, Some(here));
    assert_eq!(plans[0].notes, vec!["Remove it.".to_string()]);
    assert_eq!(plans[1].message, "Invalid number format: '1.2.3'");
    assert_eq!(plans[1].label, None);
    assert_eq!(
        plans[1].notes,
        vec![
            "File ID not recognized.".to_string(),
            "You may have multiple decimal points.".to_string()
        ]
    );
}

#[test]
fn error_messages() {
    let span = Span::new(0, 0, 0, 1, 1);
    let lexer = |e: LexerError| CompilerError::LexerError(e).message();
    assert_eq!(
        lexer(LexerError::UnterminatedStringLiteral { span, suggestions: vec![] }),
        "Unterminated string literal"
    );
    assert_eq!(
        lexer(LexerError::UnterminatedInterpolation { span, suggestions: vec![] }),
        "Unterminated string interpolation"
    );
    assert_eq!(
        lexer(LexerError::UnterminatedMultiLineComment { span, suggestions: vec![] }),
        "Unterminated multi-line comment"
    );
    assert_eq!(
        lexer(LexerError::InvalidEscapeSequence { span, suggestions: vec![] }),
        "Invalid escape sequence"
    );
    let parser = ParserError::UnexpectedToken {
        expected: ";".to_string(),
        found: TokenType::StringLiteral("hi".to_string()),
        span,
        suggestion: vec!["Add a semicolon.".to_string()],
    };
    assert_eq!(parser.message(), "Unexpected token: expected ';', found '\"hi\"'");
    assert_eq!(parser.span(), Some(span));
    assert_eq!(parser.suggestions(), vec!["Add a semicolon.".to_string()]);
}

#[test]
fn token_kinds_as_text() {
    assert_eq!(TokenType::Keyword(Keyword::Continue).to_text(), "continue");
    assert_eq!(TokenType::Operator(Operator::RangeInclusive).to_text(), "..=");
    assert_eq!(TokenType::Symbol(Symbol::Arrow).to_text(), "->");
    assert_eq!(TokenType::IntegerLiteral(-12).to_text(), "-12");
    assert_eq!(TokenType::EOF.to_text(), "end of file");
    assert_eq!(Keyword::parse(&"while".to_string()), Some(Keyword::While));
    assert_eq!(Keyword::parse(&"While".to_string()), None);
    assert!(TokenType::Identifier("a".to_string()).same_as(&TokenType::Identifier("a".to_string())));
    assert!(!TokenType::Identifier("a".to_string()).same_as(&TokenType::StringLiteral("a".to_string())));
}

fn stream(source: &str) -> (Tokens, CompilationReport) {
    let mut report = CompilationReport::default();
    let tokens = tokenize(source, 0, &mut report);
    (tokens, report)
}

#[test]
fn token_stream_reading() {
    let (mut tokens, _) = stream("let x;");
    assert_eq!(tokens.index(), 0);
    assert!(tokens.not_eof());
    assert_eq!(tokens.at().token, TokenType::Keyword(Keyword::Let));
    assert_eq!(tokens.peek().unwrap().token, TokenType::Identifier("x".to_string()));
    assert_eq!(tokens.eat().token, TokenType::Keyword(Keyword::Let));
    assert_eq!(tokens.index(), 1);
    tokens.un_eat();
    assert_eq!(tokens.index(), 0);
    let t: Token = tokens.next().unwrap();
    assert_eq!(t.token, TokenType::Keyword(Keyword::Let));
    assert_eq!(tokens.get(2).token, TokenType::Symbol(Symbol::Semicolon));
    tokens.next();
    tokens.next();
    assert!(!tokens.not_eof());
    assert!(tokens.peek().is_none());
    assert_eq!(tokens.next().unwrap().token, TokenType::EOF);
    assert!(tokens.next().is_none());
}

#[test]
fn expect_records_an_unexpected_token() {
    let (mut tokens, mut report) = stream("let 5");
    assert_eq!(tokens.expect(TokenType::Keyword(Keyword::Let), &mut report), Some(()));
    assert!(!report.has_errors());
    assert_eq!(
        tokens.expect(TokenType::Identifier("x".to_string()), &mut report),
        None
    );
    assert_eq!(tokens.index(), 2);
    assert_eq!(report.errors.len(), 1);
    match &report.errors[0] {
        CompilerError::ParserError(ParserError::UnexpectedToken { expected, found, span, suggestion }) => {
            assert_eq!(expected, "x");
            assert_eq!(*found, TokenType::IntegerLiteral(5));
            assert_eq!(*span, Span::new(0, 4, 5, 1, 5));
            assert!(suggestion.is_empty());
        }
        other => panic!("unexpected error {:?}", other),
    }
    assert_eq!(
        report.errors[0].message(),
        "Unexpected token: expected 'x', found '5'"
    );
}

#[test]
fn report_collects_warnings_apart_from_errors() {
    let mut report = CompilationReport::default();
    report.add_warning(CompilerWarning::UnusedVariable {
        name: "x".to_string(),
        span: Span::new(0, 4, 5, 1, 5),
        suggestion: vec![],
    });
    assert_eq!(report.warnings.len(), 1);
    assert!(!report.has_errors());
    assert!(report.diagnostics().is_empty());
}

#[test]
fn get_file_over_a_history_of_additions() {
    let adds = [("a.quik", "1"), ("b.quik", "2"), ("c.quik", "3")];
    let mut store = FileStore::new();
    let mut ids = Vec::new();
    for (name, source) in adds {
        ids.push(store.add_file(name.to_string(), source.to_string()));
    }
    assert_eq!(ids, vec![0, 1, 2]);
    for (i, (name, source)) in adds.iter().enumerate() {
        let f = store.get_file(i).unwrap();
        assert_eq!((f.id, f.name.as_str(), f.source.as_str()), (i, *name, *source));
    }
    assert!(store.get_file(3).is_none());
    assert!(store.get_file(usize::MAX).is_none());
}
