use luma::ast::expressions::{ExpressionKind, LiteralKind};
use luma::ast::operators::BinaryOperator;
use luma::ast::statements::StatementKind;
use luma::diagnostic::reporter::Reporter;
use luma::diagnostic::{DiagnosticKind, DiagnosticMessage};
use luma::parser::diagnostics::ParserDiagnostic;
use luma::parser::LumaParser;
use luma::pipeline::tokenize_input;
use luma::semantics::analyzer::get_default_stages;
use luma::lexer::tokens::{LiteralKind as TokenLiteralKind, Token, TokenKind, TokenStream};
use luma::span::{CodeSourceId, Cursor, Span};

fn parser_for(text: &str) -> LumaParser {
    let mut reporter = Reporter::new();
    let tokens = tokenize_input(&mut reporter, text);
    assert_eq!(reporter.diagnostic_count(DiagnosticKind::Error), 0);
    LumaParser::new(tokens, &reporter)
}

fn literal_value(kind: &ExpressionKind) -> &str {
    match kind {
        ExpressionKind::Literal { value, .. } => value.as_str(),
        other => panic!("expected a literal, found {}", other.name()),
    }
}

#[test]
fn subtraction_groups_left_under_multiplication() {
    let mut parser = parser_for("1 - 2 * 3 - 4");
    let e = parser.parse_expression().unwrap();
    let (left, right) = match &e.kind {
        ExpressionKind::Binary { left, operator: BinaryOperator::Subtract, right } => (left, right),
        other => panic!("expected a subtraction, found {}", other.name()),
    };
    assert_eq!(literal_value(&right.kind), "4");
    let (ll, lr) = match &left.kind {
        ExpressionKind::Binary { left, operator: BinaryOperator::Subtract, right } => (left, right),
        other => panic!("expected a subtraction, found {}", other.name()),
    };
    assert_eq!(literal_value(&ll.kind), "1");
    match &lr.kind {
        ExpressionKind::Binary { left, operator: BinaryOperator::Multiply, right } => {
            assert_eq!(literal_value(&left.kind), "2");
            assert_eq!(literal_value(&right.kind), "3");
        },
        other => panic!("expected a multiplication, found {}", other.name()),
    }
    assert_eq!(parser.into_reporter().diagnostic_count(DiagnosticKind::Error), 0);
}

#[test]
fn a_scope_takes_its_last_expression_as_value() {
    let mut parser = parser_for("{ 1; 2 }");
    let e = parser.consume_scope().unwrap();
    match e.kind {
        ExpressionKind::Scope { statements, block_value } => {
            assert_eq!(statements.len(), 1);
            match &statements[0].kind {
                StatementKind::Expression { inner } => assert_eq!(literal_value(&inner.kind), "1"),
                _ => panic!("expected an expression statement"),
            }
            assert_eq!(literal_value(&block_value.unwrap().kind), "2");
        },
        other => panic!("expected a scope, found {}", other.name()),
    }
}

#[test]
fn a_scope_ending_in_a_semicolon_has_no_value() {
    let mut parser = parser_for("{ 1; 2; }");
    let e = parser.consume_scope().unwrap();
    match e.kind {
        ExpressionKind::Scope { statements, block_value } => {
            assert_eq!(statements.len(), 2);
            assert!(block_value.is_none());
        },
        other => panic!("expected a scope, found {}", other.name()),
    }
}

#[test]
fn a_missing_semicolon_is_reported_and_the_declaration_kept() {
    let mut parser = parser_for("let x = 1");
    let st = parser.parse_statement(None).unwrap();
    match &st.kind {
        StatementKind::VarDecl(decl) => {
            assert_eq!(decl.symbol.name.as_str(), "x");
            assert!(!decl.mutable);
            assert!(decl.ty.is_none());
            match &decl.value {
                Some(v) => match &v.kind {
                    ExpressionKind::Literal { kind, value } => {
                        assert_eq!(*kind, LiteralKind::Integer);
                        assert_eq!(value.as_str(), "1");
                    },
                    other => panic!("expected a literal, found {}", other.name()),
                },
                None => panic!("expected a value"),
            }
        },
        _ => panic!("expected a variable declaration"),
    }
    assert_eq!(parser.into_reporter().diagnostic_count(DiagnosticKind::Error), 1);
}

#[test]
fn a_statement_read_without_requiring_a_semicolon_files_nothing() {
    let mut parser = parser_for("let x = 1");
    assert!(parser.parse_statement(Some(false)).is_ok());
    assert_eq!(parser.into_reporter().diagnostic_count(DiagnosticKind::Error), 0);
}

#[test]
fn a_program_keeps_its_one_declaration() {
    let mut parser = parser_for("let x = 1;");
    let ast = parser.parse();
    assert_eq!(ast.statements.len(), 1);
    assert!(matches!(ast.statements[0].kind, StatementKind::VarDecl(_)));
    assert_eq!(parser.into_reporter().diagnostic_count(DiagnosticKind::Error), 0);
}

/// A parser over one integer literal `text` and the end of the file.
fn literal_parser(text: &str) -> LumaParser {
    let span = Span::new(CodeSourceId::new(0), 0, 1);
    let cursor = Cursor::new(1, 1);
    let tokens = vec![
        Token { kind: TokenKind::Literal(TokenLiteralKind::Integer), lexeme: text.to_string(), cursor, span },
        Token { kind: TokenKind::EndOfFile, lexeme: String::new(), cursor, span },
    ];
    LumaParser::new(TokenStream::new(tokens), &Reporter::new())
}

#[test]
fn a_radix_literal_that_cannot_be_read_is_reported() {
    let mut parser = literal_parser("0x");
    let err = parser.parse_expression().unwrap_err();
    match err.message {
        DiagnosticMessage::Parser(ParserDiagnostic::InvalidNumberLiteral(text)) => assert_eq!(text.as_str(), "0x"),
        other => panic!("expected an invalid number literal, found {:?}", other),
    }
    let mut parser = literal_parser("0q1");
    assert!(parser.parse_expression().is_err());
}

#[test]
fn a_radix_literal_reads_as_its_decimal_value() {
    let mut parser = literal_parser("0x1F");
    let e = parser.parse_expression().unwrap();
    assert_eq!(literal_value(&e.kind), "31");
    let mut parser = literal_parser("0b101");
    let e = parser.parse_expression().unwrap();
    assert_eq!(literal_value(&e.kind), "5");
    let mut parser = literal_parser("042");
    let e = parser.parse_expression().unwrap();
    assert_eq!(literal_value(&e.kind), "042");
}

#[test]
fn a_source_identifier_converts_to_and_from_its_value() {
    let id = CodeSourceId::from(7u32);
    assert_eq!(id.value(), 7);
    assert_eq!(u32::from(id), 7);
    assert_eq!(u32::from(CodeSourceId::new(12)), 12);
}

#[test]
fn the_default_stages_have_their_names() {
    let stages = get_default_stages();
    let names: Vec<&str> = stages.iter().map(|s| s.name()).collect();
    assert_eq!(names, vec!["NameResolution", "AstLowering", "TypeInference"]);
}

#[test]
fn a_stream_is_at_its_end_after_as_many_advances_as_tokens() {
    assert!(TokenStream::new(Vec::new()).is_at_end());
    let mut reporter = Reporter::new();
    let mut stream = tokenize_input(&mut reporter, "a b");
    assert!(!stream.is_at_end());
    stream.advance();
    stream.advance();
    assert!(!stream.is_at_end());
    stream.advance();
    assert!(stream.is_at_end());
    stream.advance();
    assert!(stream.is_at_end());
}

#[test]
fn a_function_declaration_keeps_its_parameters_in_order() {
    let mut parser = parser_for("fn f(mut a: int, b: int): int = a;");
    let st = parser.parse_statement(None).unwrap();
    match &st.kind {
        StatementKind::FuncDecl(decl) => {
            assert_eq!(decl.symbol.name.as_str(), "f");
            assert_eq!(decl.parameters.len(), 2);
            assert!(decl.parameters[0].mutable);
            assert_eq!(decl.parameters[0].symbol.name.as_str(), "a");
            assert!(!decl.parameters[1].mutable);
            assert_eq!(decl.parameters[1].symbol.name.as_str(), "b");
            assert!(decl.return_type.is_some());
            assert!(decl.body.is_some());
        },
        _ => panic!("expected a function declaration"),
    }
    assert_eq!(parser.into_reporter().diagnostic_count(DiagnosticKind::Error), 0);
}

#[test]
fn a_return_without_value_ends_at_its_semicolon() {
    let mut parser = parser_for("return; break: outer;");
    let st = parser.parse_statement(None).unwrap();
    assert!(matches!(st.kind, StatementKind::Return { value: None }));
    let st = parser.parse_statement(None).unwrap();
    match &st.kind {
        StatementKind::Break { label: Some(label) } => assert_eq!(label.name.as_str(), "outer"),
        _ => panic!("expected a labelled break"),
    }
}
