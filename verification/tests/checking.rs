use luma::ast::types::TypeKind;
use luma::diagnostic::reporter::Reporter;
use luma::diagnostic::{DiagnosticMessage, DiagnosticReport};
use luma::semantics::ctx::AnalyzerContext;
use luma::semantics::diagnostics::AnalyzerDiagnostic;
use luma::semantics::hir::expressions::{HirExpression, HirExpressionKind, HirLiteralIntegerKind, HirLiteralKind};
use luma::semantics::hir::statements::{HirStatement, HirStatementKind};
use luma::semantics::hir::{Hir, HirConditionalBranch};
use luma::semantics::source::{ParsedCodeKind, ParsedCodeSource};
use luma::semantics::stages::type_checking::TypeCheckingStage;
use luma::semantics::symbol::SymbolsTable;
use luma::source::CodeSource;
use luma::span::{CodeSourceId, Cursor, Span};

fn span_at(pos: u32) -> Span {
    Span::new(CodeSourceId::zero(), pos, pos + 1)
}

fn expr(kind: HirExpressionKind, ty: TypeKind, pos: u32) -> HirExpression {
    HirExpression { kind, ty, span: span_at(pos), cursor: Cursor::new(1, pos as usize + 1) }
}

fn boolean(pos: u32) -> HirExpression {
    expr(HirExpressionKind::Literal { kind: HirLiteralKind::Boolean(true) }, TypeKind::Bool, pos)
}

fn uint32(pos: u32) -> HirExpression {
    expr(
        HirExpressionKind::Literal { kind: HirLiteralKind::Integer(HirLiteralIntegerKind::UInt32(1)) },
        TypeKind::UInt32,
        pos,
    )
}

fn variable(id: usize, ty: TypeKind, pos: u32) -> HirExpression {
    expr(HirExpressionKind::Variable { symbol_id: id }, ty, pos)
}

fn empty_scope(pos: u32) -> HirExpression {
    expr(HirExpressionKind::Scope { statements: Vec::new(), value: None }, TypeKind::Unit, pos)
}

fn call(callee: HirExpression, arguments: Vec<HirExpression>, pos: u32) -> HirExpression {
    expr(HirExpressionKind::Invoke { callee: Box::new(callee), arguments }, TypeKind::Unknown, pos)
}

fn if_expr(condition: HirExpression, body: HirExpression, else_expr: Option<HirExpression>, pos: u32) -> HirExpression {
    expr(
        HirExpressionKind::If {
            main_expr: Box::new(HirConditionalBranch { condition, body }),
            branches: Vec::new(),
            else_expr: else_expr.map(Box::new),
        },
        TypeKind::Unknown,
        pos,
    )
}

fn statement(inner: HirExpression) -> HirStatement {
    HirStatement { kind: HirStatementKind::Expression { inner }, span: span_at(0), cursor: Cursor::new(1, 1) }
}

fn function(params: Vec<TypeKind>, ret: TypeKind) -> TypeKind {
    TypeKind::Function { param_types: params, return_type: Box::new(ret) }
}

/// Tables with `f: fn(u32) -> bool` (id 0) and `n: i32` (id 1).
fn tables() -> SymbolsTable {
    let mut t = SymbolsTable::new();
    t.declare_value("f".to_string(), function(vec![TypeKind::UInt32], TypeKind::Bool));
    t.declare_value("n".to_string(), TypeKind::Int32);
    t
}

/// Type checks `statements` and gives what was reported.
fn check(statements: Vec<HirStatement>) -> Vec<DiagnosticReport> {
    let reporter = Reporter::new();
    let source = ParsedCodeSource::new(CodeSource::new(String::new(), None), ParsedCodeKind::Hir(Hir { statements }));
    let mut ctx = AnalyzerContext::new(&reporter, source);
    ctx.symbol_table = tables();
    let before = ctx.input.code.as_hir().map(|h| h.statements.len());
    assert!(TypeCheckingStage.run(&mut ctx));
    assert_eq!(ctx.input.code.as_hir().map(|h| h.statements.len()), before);
    let AnalyzerContext { reporter, .. } = ctx;
    let mut out = Vec::new();
    for entry in reporter.entries() {
        out.push(DiagnosticReport {
            message: match &entry.diagnostic.message {
                DiagnosticMessage::Analyzer(d) => DiagnosticMessage::Analyzer(copy(d)),
                _ => panic!("type checking reports analyzer diagnostics only"),
            },
            span: entry.diagnostic.span,
            cursor: entry.diagnostic.cursor,
        });
    }
    out
}

fn copy(d: &AnalyzerDiagnostic) -> AnalyzerDiagnostic {
    match d {
        AnalyzerDiagnostic::MismatchedTypes(a, b) => AnalyzerDiagnostic::MismatchedTypes(a.duplicate(), b.duplicate()),
        AnalyzerDiagnostic::ExpectedTypeFoundType(a, b) => {
            AnalyzerDiagnostic::ExpectedTypeFoundType(a.duplicate(), b.duplicate())
        },
        AnalyzerDiagnostic::CalleeNotFunction(a) => AnalyzerDiagnostic::CalleeNotFunction(a.duplicate()),
        AnalyzerDiagnostic::MissingElseBranch(a) => AnalyzerDiagnostic::MissingElseBranch(a.duplicate()),
        AnalyzerDiagnostic::InvalidAmountOfArguments(a, b) => AnalyzerDiagnostic::InvalidAmountOfArguments(*a, *b),
        AnalyzerDiagnostic::UnresolvedSymbol(s) => AnalyzerDiagnostic::UnresolvedSymbol(s.clone()),
        AnalyzerDiagnostic::InvalidLiteralValue(t, v) => AnalyzerDiagnostic::InvalidLiteralValue(t.duplicate(), v.clone()),
    }
}

#[test]
fn a_well_typed_call_reports_nothing() {
    let f = variable(0, TypeKind::Unknown, 0);
    let reports = check(vec![statement(call(f, vec![uint32(2)], 0))]);
    assert!(reports.is_empty());
}

#[test]
fn an_argument_of_another_type_is_reported_at_the_argument() {
    let f = variable(0, TypeKind::Unknown, 0);
    let reports = check(vec![statement(call(f, vec![boolean(5)], 0))]);
    assert_eq!(reports.len(), 1);
    assert!(matches!(
        reports[0].message,
        DiagnosticMessage::Analyzer(AnalyzerDiagnostic::MismatchedTypes(TypeKind::UInt32, TypeKind::Bool))
    ));
    assert_eq!(reports[0].span, span_at(5));
    assert_eq!(reports[0].cursor, Cursor::new(1, 6));
}

#[test]
fn a_wrong_number_of_arguments_is_reported_at_the_call() {
    let f = variable(0, TypeKind::Unknown, 1);
    let reports = check(vec![statement(call(f, vec![uint32(3), uint32(4)], 9))]);
    assert_eq!(reports.len(), 1);
    assert!(matches!(
        reports[0].message,
        DiagnosticMessage::Analyzer(AnalyzerDiagnostic::InvalidAmountOfArguments(1, 2))
    ));
    assert_eq!(reports[0].span, span_at(9));
}

#[test]
fn calling_a_value_that_is_no_function_is_reported() {
    let n = variable(1, TypeKind::Int32, 0);
    let reports = check(vec![statement(call(n, vec![], 2))]);
    assert_eq!(reports.len(), 1);
    assert!(matches!(
        reports[0].message,
        DiagnosticMessage::Analyzer(AnalyzerDiagnostic::CalleeNotFunction(TypeKind::Int32))
    ));
    assert_eq!(reports[0].span, span_at(2));
}

#[test]
fn calling_something_other_than_a_name_is_reported() {
    let reports = check(vec![statement(call(boolean(0), vec![], 3))]);
    assert_eq!(reports.len(), 1);
    assert!(matches!(
        reports[0].message,
        DiagnosticMessage::Analyzer(AnalyzerDiagnostic::CalleeNotFunction(TypeKind::Bool))
    ));
}

#[test]
fn a_condition_must_be_bool() {
    let n = variable(1, TypeKind::Int32, 4);
    let reports = check(vec![statement(if_expr(n, empty_scope(6), None, 0))]);
    assert_eq!(reports.len(), 1);
    assert!(matches!(
        reports[0].message,
        DiagnosticMessage::Analyzer(AnalyzerDiagnostic::ExpectedTypeFoundType(TypeKind::Bool, TypeKind::Int32))
    ));
    assert_eq!(reports[0].span, span_at(4));
}

#[test]
fn a_call_has_the_return_type_of_its_function() {
    let f = variable(0, TypeKind::Unknown, 0);
    let condition = call(f, vec![uint32(1)], 0);
    let reports = check(vec![statement(if_expr(condition, empty_scope(6), None, 0))]);
    assert!(reports.is_empty());
}

#[test]
fn an_if_with_a_value_needs_an_else() {
    let reports = check(vec![statement(if_expr(boolean(1), boolean(2), None, 7))]);
    assert_eq!(reports.len(), 1);
    assert!(matches!(
        reports[0].message,
        DiagnosticMessage::Analyzer(AnalyzerDiagnostic::MissingElseBranch(TypeKind::Bool))
    ));
    assert_eq!(reports[0].span, span_at(7));
}

#[test]
fn an_else_of_another_type_is_reported_at_the_else() {
    let reports = check(vec![statement(if_expr(boolean(1), boolean(2), Some(empty_scope(8)), 0))]);
    assert_eq!(reports.len(), 1);
    assert!(matches!(
        reports[0].message,
        DiagnosticMessage::Analyzer(AnalyzerDiagnostic::ExpectedTypeFoundType(TypeKind::Bool, TypeKind::Unit))
    ));
    assert_eq!(reports[0].span, span_at(8));
}

#[test]
fn reports_come_in_the_order_of_the_source() {
    let f = variable(0, TypeKind::Unknown, 0);
    let n = variable(1, TypeKind::Int32, 0);
    let reports = check(vec![statement(call(f, vec![boolean(1)], 0)), statement(call(n, vec![], 2))]);
    assert_eq!(reports.len(), 2);
    assert!(matches!(reports[0].message, DiagnosticMessage::Analyzer(AnalyzerDiagnostic::MismatchedTypes(..))));
    assert!(matches!(reports[1].message, DiagnosticMessage::Analyzer(AnalyzerDiagnostic::CalleeNotFunction(..))));
}
