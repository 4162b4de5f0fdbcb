use vstd::prelude::*;

use crate::ast::operators::{BinaryOperator, ComparisonOperator, LogicalOperator, UnaryOperator};
use crate::ast::symbol::SymbolId;
use crate::ast::types::TypeKind;
use crate::semantics::hir::statements::HirStatement;
use crate::semantics::hir::HirConditionalBranch;
use crate::span::{Cursor, Span};

verus! {

/// An expression with the type it was found to have.
#[derive(Debug)]
pub struct HirExpression {
    pub kind: HirExpressionKind,
    pub ty: TypeKind,
    pub span: Span,
    pub cursor: Cursor,
}

#[derive(Debug)]
pub enum HirExpressionKind {
    If {
        main_expr: Box<HirConditionalBranch>,
        branches: Vec<HirConditionalBranch>,
        else_expr: Option<Box<HirExpression>>,
    },
    Invoke { callee: Box<HirExpression>, arguments: Vec<HirExpression> },
    Assign { symbol_id: SymbolId, value: Box<HirExpression> },
    Binary { left: Box<HirExpression>, operator: BinaryOperator, right: Box<HirExpression> },
    Comparison { left: Box<HirExpression>, operator: ComparisonOperator, right: Box<HirExpression> },
    Logical { left: Box<HirExpression>, operator: LogicalOperator, right: Box<HirExpression> },
    Unary { operator: UnaryOperator, value: Box<HirExpression> },
    Group { inner: Box<HirExpression> },
    Variable { symbol_id: SymbolId },
    Scope { statements: Vec<HirStatement>, value: Option<Box<HirExpression>> },
    Literal { kind: HirLiteralKind },
    Get { object: Box<HirExpression>, property_symbol_id: SymbolId },
    ArrayGet { array: Box<HirExpression>, index: Box<HirExpression> },
    ArraySet { array: Box<HirExpression>, index: Box<HirExpression>, value: Box<HirExpression> },
    /// `[a, b, c]`, or `[T; n]`: the elements, and the element count where it is given.
    ArrayLiteral { elements: Vec<HirExpression>, size: Option<Box<HirExpression>> },
}

/// The value of a literal.
#[derive(Debug, Clone, PartialEq, Eq)]
pub enum HirLiteralKind {
    Integer(HirLiteralIntegerKind),
    Float(HirLiteralFloatKind),
    String(String),
    Boolean(bool),
}

#[derive(Debug, Clone, Copy, PartialEq, Eq, Structural)]
pub enum HirLiteralIntegerKind {
    Int8(i8),
    Int16(i16),
    Int32(i32),
    Int64(i64),
    UInt8(u8),
    UInt16(u16),
    UInt32(u32),
    UInt64(u64),
}

/// A floating-point literal, kept as the decimal text it was written with.
#[derive(Debug, Clone, PartialEq, Eq)]
pub enum HirLiteralFloatKind {
    Float32(String),
    Float64(String),
}

/// The type of a literal's value.
pub open spec fn literal_type(kind: HirLiteralKind) -> TypeKind {
    match kind {
        HirLiteralKind::String(_) => TypeKind::String,
        HirLiteralKind::Boolean(_) => TypeKind::Bool,
        HirLiteralKind::Integer(HirLiteralIntegerKind::Int8(_)) => TypeKind::Int8,
        HirLiteralKind::Integer(HirLiteralIntegerKind::Int16(_)) => TypeKind::Int16,
        HirLiteralKind::Integer(HirLiteralIntegerKind::Int32(_)) => TypeKind::Int32,
        HirLiteralKind::Integer(HirLiteralIntegerKind::Int64(_)) => TypeKind::Int64,
        HirLiteralKind::Integer(HirLiteralIntegerKind::UInt8(_)) => TypeKind::UInt8,
        HirLiteralKind::Integer(HirLiteralIntegerKind::UInt16(_)) => TypeKind::UInt16,
        HirLiteralKind::Integer(HirLiteralIntegerKind::UInt32(_)) => TypeKind::UInt32,
        HirLiteralKind::Integer(HirLiteralIntegerKind::UInt64(_)) => TypeKind::UInt64,
        HirLiteralKind::Float(HirLiteralFloatKind::Float32(_)) => TypeKind::Float32,
        HirLiteralKind::Float(HirLiteralFloatKind::Float64(_)) => TypeKind::Float64,
    }
}

impl HirLiteralKind {
    /// The type of the literal's value.
    pub fn type_kind(&self) -> (r: TypeKind)
        ensures
            r == literal_type(*self),
    {
        match self {
            HirLiteralKind::String(_) => TypeKind::String,
            HirLiteralKind::Boolean(_) => TypeKind::Bool,
            HirLiteralKind::Integer(HirLiteralIntegerKind::Int8(_)) => TypeKind::Int8,
            HirLiteralKind::Integer(HirLiteralIntegerKind::Int16(_)) => TypeKind::Int16,
            HirLiteralKind::Integer(HirLiteralIntegerKind::Int32(_)) => TypeKind::Int32,
            HirLiteralKind::Integer(HirLiteralIntegerKind::Int64(_)) => TypeKind::Int64,
            HirLiteralKind::Integer(HirLiteralIntegerKind::UInt8(_)) => TypeKind::UInt8,
            HirLiteralKind::Integer(HirLiteralIntegerKind::UInt16(_)) => TypeKind::UInt16,
            HirLiteralKind::Integer(HirLiteralIntegerKind::UInt32(_)) => TypeKind::UInt32,
            HirLiteralKind::Integer(HirLiteralIntegerKind::UInt64(_)) => TypeKind::UInt64,
            HirLiteralKind::Float(HirLiteralFloatKind::Float32(_)) => TypeKind::Float32,
            HirLiteralKind::Float(HirLiteralFloatKind::Float64(_)) => TypeKind::Float64,
        }
    }
}

impl HirExpressionKind {
    pub open spec fn spec_name(self) -> Seq<char> {
        match self {
            HirExpressionKind::If { .. } => "if"@,
            HirExpressionKind::Invoke { .. } => "invoke"@,
            HirExpressionKind::Assign { .. } => "assign"@,
            HirExpressionKind::Binary { .. } => "binary"@,
            HirExpressionKind::Comparison { .. } => "comparison"@,
            HirExpressionKind::Logical { .. } => "logical"@,
            HirExpressionKind::Unary { .. } => "unary"@,
            HirExpressionKind::Group { .. } => "group"@,
            HirExpressionKind::Variable { .. } => "variable"@,
            HirExpressionKind::Scope { .. } => "scope"@,
            HirExpressionKind::Literal { .. } => "literal"@,
            HirExpressionKind::Get { .. } => "get"@,
            HirExpressionKind::ArrayGet { .. } => "array_get"@,
            HirExpressionKind::ArraySet { .. } => "array_set"@,
            HirExpressionKind::ArrayLiteral { .. } => "array_literal"@,
        }
    }

    /// The snake-case name of the kind of expression.
    pub fn name(&self) -> (r: &'static str)
        ensures
            r@ == self.spec_name(),
    {
        match self {
            HirExpressionKind::If { .. } => "if",
            HirExpressionKind::Invoke { .. } => "invoke",
            HirExpressionKind::Assign { .. } => "assign",
            HirExpressionKind::Binary { .. } => "binary",
            HirExpressionKind::Comparison { .. } => "comparison",
            HirExpressionKind::Logical { .. } => "logical",
            HirExpressionKind::Unary { .. } => "unary",
            HirExpressionKind::Group { .. } => "group",
            HirExpressionKind::Variable { .. } => "variable",
            HirExpressionKind::Scope { .. } => "scope",
            HirExpressionKind::Literal { .. } => "literal",
            HirExpressionKind::Get { .. } => "get",
            HirExpressionKind::ArrayGet { .. } => "array_get",
            HirExpressionKind::ArraySet { .. } => "array_set",
            HirExpressionKind::ArrayLiteral { .. } => "array_literal",
        }
    }
}

} // verus!
