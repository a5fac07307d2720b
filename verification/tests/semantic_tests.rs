use quiklang::common::{CompilationReport, FileStore};
use quiklang::errors::{CompilerError, LexerError, Span};
use quiklang::semantic::{Binary, Module, Package, SemanticAnalyzer};

#[test]
fn analyzer_writes_through_to_the_report_and_package() {
    let mut report = CompilationReport::new(FileStore::new());
    let mut package = Package {
        library: Some(Module { name: "lib".to_string(), file_id: 0 }),
        binaries: vec![],
    };
    {
        let analyzer = SemanticAnalyzer::new(&mut report, &mut package);
        assert_eq!(analyzer.package.library.as_ref().unwrap().name, "lib");
        assert!(!analyzer.compilation_report.has_errors());
        analyzer.compilation_report.add_error(CompilerError::LexerError(
            LexerError::UnterminatedStringLiteral { span: Span::new(0, 0, 1, 1, 1), suggestions: vec![] },
        ));
        analyzer.package.binaries.push(Binary { module: Module { name: "main".to_string(), file_id: 1 } });
    }
    assert!(report.has_errors());
    assert_eq!(package.binaries.len(), 1);
    assert_eq!(package.binaries[0].module.file_id, 1);
}
