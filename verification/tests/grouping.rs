use luma::ast::expressions::{Expression, ExpressionKind};
use luma::ast::operators::{BinaryOperator, ComparisonOperator, LogicalOperator, UnaryOperator};
use luma::ast::statements::StatementKind;
use luma::diagnostic::reporter::Reporter;
use luma::diagnostic::DiagnosticKind;
use luma::pipeline::parse_source;
use luma::semantics::source::ParsedCodeKind;

/// The expression of the first statement of `text`.
fn expression(text: &str) -> Expression {
    let mut reporter = Reporter::new();
    let parsed = parse_source(&mut reporter, text);
    assert_eq!(reporter.diagnostic_count(DiagnosticKind::Error), 0);
    match parsed.code {
        ParsedCodeKind::Ast(ast) => match ast.statements.into_iter().next().map(|s| s.kind) {
            Some(StatementKind::Expression { inner }) => inner,
            _ => panic!("expected an expression statement"),
        },
        _ => panic!("parsing gives a syntax tree"),
    }
}

fn variable(e: &Expression) -> &str {
    match &e.kind {
        ExpressionKind::Variable { symbol } => symbol.name.as_str(),
        other => panic!("expected a variable, found {}", other.name()),
    }
}

fn binary(e: &Expression) -> (&Expression, BinaryOperator, &Expression) {
    match &e.kind {
        ExpressionKind::Binary { left, operator, right } => (left, *operator, right),
        other => panic!("expected a binary operation, found {}", other.name()),
    }
}

#[test]
fn equal_precedence_groups_to_the_left() {
    let e = expression("a - b - c;");
    let (left, op, right) = binary(&e);
    assert_eq!(op, BinaryOperator::Subtract);
    assert_eq!(variable(right), "c");
    let (ll, lop, lr) = binary(left);
    assert_eq!(lop, BinaryOperator::Subtract);
    assert_eq!((variable(ll), variable(lr)), ("a", "b"));
}

#[test]
fn tighter_operators_nest_below_looser_ones() {
    let e = expression("a + b * c;");
    let (left, op, right) = binary(&e);
    assert_eq!(op, BinaryOperator::Add);
    assert_eq!(variable(left), "a");
    let (rl, rop, rr) = binary(right);
    assert_eq!(rop, BinaryOperator::Multiply);
    assert_eq!((variable(rl), variable(rr)), ("b", "c"));
}

#[test]
fn logical_and_binds_tighter_than_or() {
    match &expression("a || b && c;").kind {
        ExpressionKind::Logical { left, operator: LogicalOperator::Or, right } => {
            assert_eq!(variable(left), "a");
            assert!(matches!(right.kind, ExpressionKind::Logical { operator: LogicalOperator::And, .. }));
        },
        other => panic!("expected ||, found {}", other.name()),
    }
}

#[test]
fn comparisons_take_arithmetic_operands() {
    match &expression("a < b + c;").kind {
        ExpressionKind::Comparison { left, operator: ComparisonOperator::LessThan, right } => {
            assert_eq!(variable(left), "a");
            assert_eq!(binary(right).1, BinaryOperator::Add);
        },
        other => panic!("expected <, found {}", other.name()),
    }
}

#[test]
fn unary_operators_bind_tightest() {
    let e = expression("-a * b;");
    let (left, op, right) = binary(&e);
    assert_eq!(op, BinaryOperator::Multiply);
    assert_eq!(variable(right), "b");
    assert!(matches!(left.kind, ExpressionKind::Unary { operator: UnaryOperator::Negative, .. }));
}

#[test]
fn parentheses_group_explicitly() {
    let e = expression("(a + b) * c;");
    let (left, op, _) = binary(&e);
    assert_eq!(op, BinaryOperator::Multiply);
    match &left.kind {
        ExpressionKind::Group { inner } => assert_eq!(binary(inner).1, BinaryOperator::Add),
        other => panic!("expected a group, found {}", other.name()),
    }
}

#[test]
fn compound_assignment_stands_for_the_operation() {
    match &expression("x += y || z;").kind {
        ExpressionKind::Assign { symbol, value } => {
            assert_eq!(symbol.name, "x");
            let (left, op, right) = binary(value);
            assert_eq!(op, BinaryOperator::Add);
            assert_eq!(variable(left), "x");
            assert!(matches!(right.kind, ExpressionKind::Logical { operator: LogicalOperator::Or, .. }));
        },
        other => panic!("expected an assignment, found {}", other.name()),
    }
}
