use vstd::prelude::*;

use crate::ast::operators::{BinaryOperator, ComparisonOperator, LogicalOperator, UnaryOperator};
use crate::ast::statements::Statement;
use crate::ast::symbol::AstSymbol;
use crate::ast::types::TypeKind;
use crate::span::{Cursor, Span};

verus! {

#[derive(Debug)]
pub struct Expression {
    pub kind: ExpressionKind,
    pub span: Span,
    pub cursor: Cursor,
}

/// A condition and the expression evaluated when it holds.
#[derive(Debug)]
pub struct ConditionalBranch {
    pub condition: Expression,
    pub body: Expression,
}

#[derive(Debug)]
pub enum ExpressionKind {
    If {
        main_branch: Box<ConditionalBranch>,
        branches: Vec<ConditionalBranch>,
        else_branch: Option<Box<Expression>>,
    },
    Invoke { callee: Box<Expression>, arguments: Vec<Expression> },
    Assign { symbol: AstSymbol, value: Box<Expression> },
    Binary { left: Box<Expression>, operator: BinaryOperator, right: Box<Expression> },
    Comparison { left: Box<Expression>, operator: ComparisonOperator, right: Box<Expression> },
    Logical { left: Box<Expression>, operator: LogicalOperator, right: Box<Expression> },
    Unary { operator: UnaryOperator, value: Box<Expression> },
    Group { inner: Box<Expression> },
    Variable { symbol: AstSymbol },
    Scope {
        statements: Vec<Statement>,
        /// The implicit value of the scope (last expression with no semicolon)
        block_value: Option<Box<Expression>>,
    },
    Literal { kind: LiteralKind, value: String },
    Get { object: Box<Expression>, property_symbol: AstSymbol },
    ArrayGet { array: Box<Expression>, index: Box<Expression> },
    ArraySet { array: Box<Expression>, index: Box<Expression>, value: Box<Expression> },
    /// `[a, b, c]`, or `[T; n]` for an array of `n` elements of type `T`.
    ArrayLiteral { elements: Vec<Expression>, inner_type: TypeKind, size: Option<Box<Expression>> },
}

#[derive(Debug, Clone, Copy, PartialEq, Eq, Structural)]
pub enum LiteralKind {
    Integer,
    Float,
    String,
    Boolean,
}

impl ExpressionKind {
    pub open spec fn spec_name(self) -> Seq<char> {
        match self {
            ExpressionKind::If { .. } => "if"@,
            ExpressionKind::Invoke { .. } => "invoke"@,
            ExpressionKind::Assign { .. } => "assign"@,
            ExpressionKind::Binary { .. } => "binary"@,
            ExpressionKind::Comparison { .. } => "comparison"@,
            ExpressionKind::Logical { .. } => "logical"@,
            ExpressionKind::Unary { .. } => "unary"@,
            ExpressionKind::Group { .. } => "group"@,
            ExpressionKind::Variable { .. } => "variable"@,
            ExpressionKind::Scope { .. } => "scope"@,
            ExpressionKind::Literal { .. } => "literal"@,
            ExpressionKind::Get { .. } => "get"@,
            ExpressionKind::ArrayGet { .. } => "array_get"@,
            ExpressionKind::ArraySet { .. } => "array_set"@,
            ExpressionKind::ArrayLiteral { .. } => "array_literal"@,
        }
    }

    /// The snake-case name of the kind of expression.
    pub fn name(&self) -> (r: &'static str)
        ensures
            r@ == self.spec_name(),
    {
        match self {
            ExpressionKind::If { .. } => "if",
            ExpressionKind::Invoke { .. } => "invoke",
            ExpressionKind::Assign { .. } => "assign",
            ExpressionKind::Binary { .. } => "binary",
            ExpressionKind::Comparison { .. } => "comparison",
            ExpressionKind::Logical { .. } => "logical",
            ExpressionKind::Unary { .. } => "unary",
            ExpressionKind::Group { .. } => "group",
            ExpressionKind::Variable { .. } => "variable",
            ExpressionKind::Scope { .. } => "scope",
            ExpressionKind::Literal { .. } => "literal",
            ExpressionKind::Get { .. } => "get",
            ExpressionKind::ArrayGet { .. } => "array_get",
            ExpressionKind::ArraySet { .. } => "array_set",
            ExpressionKind::ArrayLiteral { .. } => "array_literal",
        }
    }
}

impl LiteralKind {
    pub open spec fn spec_name(self) -> Seq<char> {
        match self {
            LiteralKind::Integer => "integer"@,
            LiteralKind::Float => "float"@,
            LiteralKind::String => "string"@,
            LiteralKind::Boolean => "boolean"@,
        }
    }

    /// The snake-case name of the kind of literal.
    pub fn name(&self) -> (r: &'static str)
        ensures
            r@ == self.spec_name(),
    {
        match self {
            LiteralKind::Integer => "integer",
            LiteralKind::Float => "float",
            LiteralKind::String => "string",
            LiteralKind::Boolean => "boolean",
        }
    }
}

} // verus!
