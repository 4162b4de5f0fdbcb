use luma::ast::expressions::LiteralKind;
use luma::ast::types::TypeKind;
use luma::diagnostic::reporter::Reporter;
use luma::diagnostic::{DiagnosticKind, DiagnosticMessage};
use luma::lexer::tokens::kind::TokenKind;
use luma::pipeline::{analyze_source, parse_source, tokenize_input};
use luma::semantics::diagnostics::AnalyzerDiagnostic;
use luma::semantics::hir::expressions::{HirLiteralFloatKind, HirLiteralIntegerKind, HirLiteralKind};
use luma::semantics::stages::literal::{ast_to_hir_literal, is_float_text};

#[test]
fn tokens_come_in_source_order_and_end_with_end_of_file() {
    let mut reporter = Reporter::new();
    let mut stream = tokenize_input(&mut reporter, "let x = 1;");
    let mut lexemes = Vec::new();
    let mut last_kind_is_eof = false;
    while !stream.is_at_end() {
        let token = stream.current();
        lexemes.push(token.lexeme.clone());
        last_kind_is_eof = matches!(token.kind, TokenKind::EndOfFile);
        stream.advance();
    }
    assert_eq!(&lexemes[..5], &["let", "x", "=", "1", ";"]);
    assert!(last_kind_is_eof);
    assert_eq!(reporter.diagnostic_count(DiagnosticKind::Error), 0);
}

#[test]
fn an_unknown_name_is_reported_once() {
    let mut reporter = Reporter::new();
    let parsed = parse_source(&mut reporter, "let a = b;");
    assert_eq!(reporter.diagnostic_count(DiagnosticKind::Error), 0);
    let ok = analyze_source(&mut reporter, parsed);
    assert!(!ok);
    assert_eq!(reporter.diagnostic_count(DiagnosticKind::Error), 1);
    let entry = &reporter.entries()[0];
    match &entry.diagnostic.message {
        DiagnosticMessage::Analyzer(AnalyzerDiagnostic::UnresolvedSymbol(name)) => assert_eq!(name, "b"),
        _ => panic!("expected an unresolved symbol"),
    }
}

#[test]
fn a_program_with_known_names_analyzes_cleanly() {
    let mut reporter = Reporter::new();
    let parsed = parse_source(&mut reporter, "let a = 1;\nlet b = a;");
    assert!(analyze_source(&mut reporter, parsed));
    assert_eq!(reporter.diagnostic_count(DiagnosticKind::Error), 0);
}

#[test]
fn integer_literals_are_read_as_u32_where_they_fit() {
    assert!(matches!(
        ast_to_hir_literal(&LiteralKind::Integer, "42"),
        Ok(HirLiteralKind::Integer(HirLiteralIntegerKind::UInt32(42)))
    ));
    assert!(matches!(
        ast_to_hir_literal(&LiteralKind::Integer, "4294967296"),
        Ok(HirLiteralKind::Integer(HirLiteralIntegerKind::UInt64(4294967296)))
    ));
}

#[test]
fn an_unreadable_integer_is_reported_as_u64() {
    match ast_to_hir_literal(&LiteralKind::Integer, "18446744073709551616") {
        Err(d) => match d.message {
            DiagnosticMessage::Analyzer(AnalyzerDiagnostic::InvalidLiteralValue(TypeKind::UInt64, v)) => {
                assert_eq!(v, "18446744073709551616")
            },
            _ => panic!("expected an invalid literal value"),
        },
        Ok(_) => panic!("the value does not fit in u64"),
    }
}

#[test]
fn float_literals_keep_their_text() {
    match ast_to_hir_literal(&LiteralKind::Float, "2.5e3") {
        Ok(HirLiteralKind::Float(HirLiteralFloatKind::Float64(t))) => assert_eq!(t, "2.5e3"),
        _ => panic!("2.5e3 is a float"),
    }
    assert!(matches!(
        ast_to_hir_literal(&LiteralKind::Float, "2.5.1"),
        Err(_)
    ));
}

#[test]
fn boolean_literals_are_true_or_false() {
    assert!(matches!(ast_to_hir_literal(&LiteralKind::Boolean, "true"), Ok(HirLiteralKind::Boolean(true))));
    assert!(matches!(ast_to_hir_literal(&LiteralKind::Boolean, "false"), Ok(HirLiteralKind::Boolean(false))));
    assert!(ast_to_hir_literal(&LiteralKind::Boolean, "yes").is_err());
}

#[test]
fn float_text_follows_the_standard_reader() {
    for text in ["1", "1.", ".5", "-2.5", "+3e10", "1E-3", "inf", "-Infinity", "NaN", "nan"] {
        assert!(is_float_text(text), "{text} is float text");
        assert!(text.parse::<f64>().is_ok());
    }
    for text in ["", ".", "e5", "1e", "1.2.3", "0x10", "infinit", "--1"] {
        assert!(!is_float_text(text), "{text} is not float text");
        assert!(text.parse::<f64>().is_err());
    }
}

#[test]
fn analysis_files_under_the_analyzer_and_stage_name() {
    let mut reporter = Reporter::new();
    let parsed = parse_source(&mut reporter, "let a = b;");
    assert_eq!(reporter.entries().len(), 0);
    assert!(!analyze_source(&mut reporter, parsed));
    let entries = reporter.entries();
    assert_eq!(entries.len(), 1);
    assert_eq!(entries[0].reporter_name, "Tmain:analyzer:NameResolution");
}
