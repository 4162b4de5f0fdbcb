use luma::ast::expressions::{Expression, ExpressionKind};
use luma::ast::statements::{ImportPropertyKind, Renameable, StatementKind};
use luma::ast::types::TypeKind;
use luma::ast::visibility::Visibility;
use luma::diagnostic::reporter::Reporter;
use luma::diagnostic::{DiagnosticKind, DiagnosticMessage};
use luma::parser::diagnostics::ParserDiagnostic;
use luma::parser::LumaParser;
use luma::pipeline::tokenize_input;

fn parser_over(text: &str) -> LumaParser {
    let mut reporter = Reporter::new();
    let tokens = tokenize_input(&mut reporter, text);
    assert_eq!(reporter.diagnostic_count(DiagnosticKind::Error), 0);
    LumaParser::new(tokens, &reporter)
}

fn literal_text(e: &Expression) -> &str {
    match &e.kind {
        ExpressionKind::Literal { value, .. } => value.as_str(),
        other => panic!("expected a literal, found {}", other.name()),
    }
}

fn variable_name(e: &Expression) -> &str {
    match &e.kind {
        ExpressionKind::Variable { symbol } => symbol.name.as_str(),
        other => panic!("expected a variable, found {}", other.name()),
    }
}

fn scope_value(e: &Expression) -> &Expression {
    match &e.kind {
        ExpressionKind::Scope { statements, block_value } => {
            assert!(statements.is_empty());
            block_value.as_deref().expect("the scope has a value")
        },
        other => panic!("expected a scope, found {}", other.name()),
    }
}

#[test]
fn an_if_keeps_its_branches_in_order_and_its_else() {
    let mut parser = parser_over("if a { 1 } else if b { 2 } else { 3 }");
    let e = parser.parse_expression().unwrap();
    match &e.kind {
        ExpressionKind::If { main_branch, branches, else_branch } => {
            assert_eq!(variable_name(&main_branch.condition), "a");
            assert_eq!(literal_text(scope_value(&main_branch.body)), "1");
            assert_eq!(branches.len(), 1);
            assert_eq!(variable_name(&branches[0].condition), "b");
            assert_eq!(literal_text(scope_value(&branches[0].body)), "2");
            let other = else_branch.as_deref().expect("an else branch");
            assert_eq!(literal_text(scope_value(other)), "3");
        },
        other => panic!("expected an if, found {}", other.name()),
    }
    assert_eq!(parser.into_reporter().diagnostic_count(DiagnosticKind::Error), 0);
}

#[test]
fn an_if_without_else_has_none() {
    let mut parser = parser_over("if a { 1 }");
    let e = parser.parse_expression().unwrap();
    match &e.kind {
        ExpressionKind::If { branches, else_branch, .. } => {
            assert!(branches.is_empty());
            assert!(else_branch.is_none());
        },
        other => panic!("expected an if, found {}", other.name()),
    }
}

#[test]
fn a_scope_can_stand_as_a_declared_value() {
    let mut parser = parser_over("let y = { 1; 2 };");
    let ast = parser.parse();
    assert_eq!(ast.statements.len(), 1);
    match &ast.statements[0].kind {
        StatementKind::VarDecl(d) => {
            let value = d.value.as_deref().expect("a value");
            match &value.kind {
                ExpressionKind::Scope { statements, block_value } => {
                    assert_eq!(statements.len(), 1);
                    assert_eq!(literal_text(block_value.as_deref().unwrap()), "2");
                },
                other => panic!("expected a scope, found {}", other.name()),
            }
        },
        _ => panic!("expected a variable declaration"),
    }
    assert_eq!(parser.into_reporter().diagnostic_count(DiagnosticKind::Error), 0);
}

#[test]
fn an_array_literal_keeps_its_elements() {
    let mut parser = parser_over("[1, 2]");
    let e = parser.parse_expression().unwrap();
    match &e.kind {
        ExpressionKind::ArrayLiteral { elements, inner_type, size } => {
            assert_eq!(elements.len(), 2);
            assert_eq!(literal_text(&elements[0]), "1");
            assert_eq!(literal_text(&elements[1]), "2");
            assert!(matches!(inner_type, TypeKind::Unknown));
            assert!(size.is_none());
        },
        other => panic!("expected an array literal, found {}", other.name()),
    }
}

#[test]
fn a_sized_array_literal_reads_its_type_and_size() {
    let mut parser = parser_over("[i32; 3]");
    let e = parser.parse_expression().unwrap();
    match &e.kind {
        ExpressionKind::ArrayLiteral { elements, inner_type, size } => {
            assert!(elements.is_empty());
            assert!(matches!(inner_type, TypeKind::Int32));
            assert_eq!(literal_text(size.as_deref().unwrap()), "3");
        },
        other => panic!("expected an array literal, found {}", other.name()),
    }
}

#[test]
fn an_array_size_after_an_expression_is_refused() {
    let mut parser = parser_over("[1 + 2; 3]");
    let d = parser.parse_expression().unwrap_err();
    assert!(matches!(d.message, DiagnosticMessage::Parser(ParserDiagnostic::MissingArrayTypeAnnotation)));
}

#[test]
fn a_public_function_with_a_braced_body_needs_no_semicolon() {
    let mut parser = parser_over("pub fn f() { 1 }");
    let ast = parser.parse();
    assert_eq!(ast.statements.len(), 1);
    match &ast.statements[0].kind {
        StatementKind::FuncDecl(d) => {
            assert_eq!(d.visibility, Visibility::Public);
            assert_eq!(d.symbol.name.as_str(), "f");
            assert!(d.parameters.is_empty());
            assert_eq!(literal_text(scope_value(d.body.as_deref().unwrap())), "1");
        },
        _ => panic!("expected a function declaration"),
    }
    assert_eq!(parser.into_reporter().diagnostic_count(DiagnosticKind::Error), 0);
}

#[test]
fn a_scoped_visibility_is_kept_on_a_variable() {
    let mut parser = parser_over("pub(module) let x = 1;");
    let ast = parser.parse();
    assert_eq!(ast.statements.len(), 1);
    match &ast.statements[0].kind {
        StatementKind::VarDecl(d) => assert_eq!(d.visibility, Visibility::Module),
        _ => panic!("expected a variable declaration"),
    }
    assert_eq!(parser.into_reporter().diagnostic_count(DiagnosticKind::Error), 0);
}

#[test]
fn an_import_of_everything_keeps_its_name() {
    let mut parser = parser_over("import * as m from \"lib\";");
    let ast = parser.parse();
    assert_eq!(ast.statements.len(), 1);
    match &ast.statements[0].kind {
        StatementKind::Import { kind: ImportPropertyKind::All(name), path } => {
            assert_eq!(name.as_str(), "m");
            assert!(path.contains("lib"));
        },
        _ => panic!("expected an import of everything"),
    }
    assert_eq!(parser.into_reporter().diagnostic_count(DiagnosticKind::Error), 0);
}

#[test]
fn an_import_list_keeps_its_names_and_renames() {
    let mut parser = parser_over("import { a, b as c } from \"lib\";");
    let ast = parser.parse();
    assert_eq!(ast.statements.len(), 1);
    match &ast.statements[0].kind {
        StatementKind::Import { kind: ImportPropertyKind::Individual(items), .. } => {
            assert_eq!(items.len(), 2);
            assert!(matches!(&items[0], Renameable::Normally(a) if a.as_str() == "a"));
            assert!(matches!(&items[1], Renameable::Renamed(b, c) if b.as_str() == "b" && c.as_str() == "c"));
        },
        _ => panic!("expected an import list"),
    }
    assert_eq!(parser.into_reporter().diagnostic_count(DiagnosticKind::Error), 0);
}

#[test]
fn an_import_without_from_is_reported() {
    let mut parser = parser_over("import { a } \"lib\";");
    let ast = parser.parse();
    assert_eq!(ast.statements.len(), 1);
    assert!(matches!(ast.statements[0].kind, StatementKind::Expression { .. }));
    assert_eq!(parser.into_reporter().diagnostic_count(DiagnosticKind::Error), 1);
}
