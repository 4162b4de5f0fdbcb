use vstd::prelude::*;

use crate::ast::expressions::LiteralKind as AstLiteralKind;
use crate::ast::operators::{BinaryOperator, ComparisonOperator, LogicalOperator, Operator, UnaryOperator};
use crate::lexer::tokens::kind::{LiteralKind, OperatorKind};

verus! {

/// The operator that an assigning operator token applies before it assigns.
pub open spec fn spec_assign_operator(k: OperatorKind) -> Option<Operator> {
    match k {
        OperatorKind::Equals => Some(Operator::Binary(BinaryOperator::Assignment)),
        OperatorKind::PlusEquals => Some(Operator::Binary(BinaryOperator::Add)),
        OperatorKind::MinusEquals => Some(Operator::Binary(BinaryOperator::Subtract)),
        OperatorKind::AsteriskEquals => Some(Operator::Binary(BinaryOperator::Multiply)),
        OperatorKind::SlashEquals => Some(Operator::Binary(BinaryOperator::Divide)),
        OperatorKind::PercentEquals => Some(Operator::Binary(BinaryOperator::Modulo)),
        OperatorKind::AndEquals => Some(Operator::Logical(LogicalOperator::And)),
        OperatorKind::OrEquals => Some(Operator::Logical(LogicalOperator::Or)),
        OperatorKind::BitwiseAndEquals => Some(Operator::Binary(BinaryOperator::BitwiseAnd)),
        OperatorKind::BitwiseOrEquals => Some(Operator::Binary(BinaryOperator::BitwiseOr)),
        OperatorKind::BitwiseXorEquals => Some(Operator::Binary(BinaryOperator::BitwiseXor)),
        OperatorKind::ShiftLeftEquals => Some(Operator::Binary(BinaryOperator::ShiftLeft)),
        OperatorKind::ShiftRightEquals => Some(Operator::Binary(BinaryOperator::ShiftRight)),
        _ => None,
    }
}

pub open spec fn spec_binary_operator(k: OperatorKind) -> Result<BinaryOperator, ()> {
    match k {
        OperatorKind::Plus => Ok(BinaryOperator::Add),
        OperatorKind::Minus => Ok(BinaryOperator::Subtract),
        OperatorKind::Asterisk => Ok(BinaryOperator::Multiply),
        OperatorKind::Slash => Ok(BinaryOperator::Divide),
        OperatorKind::Percent => Ok(BinaryOperator::Modulo),
        OperatorKind::BitwiseAnd => Ok(BinaryOperator::BitwiseAnd),
        OperatorKind::BitwiseOr => Ok(BinaryOperator::BitwiseOr),
        OperatorKind::BitwiseXor => Ok(BinaryOperator::BitwiseXor),
        OperatorKind::ShiftLeft => Ok(BinaryOperator::ShiftLeft),
        OperatorKind::ShiftRight => Ok(BinaryOperator::ShiftRight),
        OperatorKind::PlusEquals => Ok(BinaryOperator::Add),
        _ => Err(()),
    }
}

pub open spec fn spec_logical_operator(k: OperatorKind) -> Result<LogicalOperator, ()> {
    match k {
        OperatorKind::And => Ok(LogicalOperator::And),
        OperatorKind::Or => Ok(LogicalOperator::Or),
        _ => Err(()),
    }
}

pub open spec fn spec_comparison_operator(k: OperatorKind) -> Result<ComparisonOperator, ()> {
    match k {
        OperatorKind::Equals | OperatorKind::EqualsEquals => Ok(ComparisonOperator::Equals),
        OperatorKind::NotEquals => Ok(ComparisonOperator::NotEquals),
        OperatorKind::GreaterThan => Ok(ComparisonOperator::GreaterThan),
        OperatorKind::GreaterThanOrEqual => Ok(ComparisonOperator::GreaterThanOrEqual),
        OperatorKind::LessThan => Ok(ComparisonOperator::LessThan),
        OperatorKind::LessThanOrEqual => Ok(ComparisonOperator::LessThanOrEqual),
        _ => Err(()),
    }
}

pub open spec fn spec_unary_operator(k: OperatorKind) -> Result<UnaryOperator, ()> {
    match k {
        OperatorKind::Not => Ok(UnaryOperator::Not),
        OperatorKind::Minus => Ok(UnaryOperator::Negative),
        OperatorKind::Plus => Ok(UnaryOperator::Positive),
        OperatorKind::BitwiseNot => Ok(UnaryOperator::BitwiseNot),
        _ => Err(()),
    }
}

impl OperatorKind {
    /// Whether the operator assigns (`=`, or an operator followed by `=`).
    pub fn is_assign_op(&self) -> (r: bool)
        ensures
            r == spec_assign_operator(*self).is_some(),
    {
        matches!(
            self,
            OperatorKind::Equals | OperatorKind::PlusEquals | OperatorKind::MinusEquals
                | OperatorKind::AsteriskEquals | OperatorKind::SlashEquals
                | OperatorKind::PercentEquals | OperatorKind::AndEquals | OperatorKind::OrEquals
                | OperatorKind::BitwiseAndEquals | OperatorKind::BitwiseOrEquals
                | OperatorKind::BitwiseXorEquals | OperatorKind::ShiftLeftEquals
                | OperatorKind::ShiftRightEquals
        )
    }

    /// The operator that an assigning operator applies before it assigns
    /// (`Assignment` for a plain `=`).
    pub fn as_assign_operator(&self) -> (r: Option<Operator>)
        ensures
            r == spec_assign_operator(*self),
    {
        match self {
            OperatorKind::Equals => Some(Operator::Binary(BinaryOperator::Assignment)),
            OperatorKind::PlusEquals => Some(Operator::Binary(BinaryOperator::Add)),
            OperatorKind::MinusEquals => Some(Operator::Binary(BinaryOperator::Subtract)),
            OperatorKind::AsteriskEquals => Some(Operator::Binary(BinaryOperator::Multiply)),
            OperatorKind::SlashEquals => Some(Operator::Binary(BinaryOperator::Divide)),
            OperatorKind::PercentEquals => Some(Operator::Binary(BinaryOperator::Modulo)),
            OperatorKind::AndEquals => Some(Operator::Logical(LogicalOperator::And)),
            OperatorKind::OrEquals => Some(Operator::Logical(LogicalOperator::Or)),
            OperatorKind::BitwiseAndEquals => Some(Operator::Binary(BinaryOperator::BitwiseAnd)),
            OperatorKind::BitwiseOrEquals => Some(Operator::Binary(BinaryOperator::BitwiseOr)),
            OperatorKind::BitwiseXorEquals => Some(Operator::Binary(BinaryOperator::BitwiseXor)),
            OperatorKind::ShiftLeftEquals => Some(Operator::Binary(BinaryOperator::ShiftLeft)),
            OperatorKind::ShiftRightEquals => Some(Operator::Binary(BinaryOperator::ShiftRight)),
            _ => None,
        }
    }
}

impl From<LiteralKind> for AstLiteralKind {
    fn from(kind: LiteralKind) -> (r: AstLiteralKind) {
        match kind {
            LiteralKind::Integer => AstLiteralKind::Integer,
            LiteralKind::Decimal => AstLiteralKind::Float,
            LiteralKind::String => AstLiteralKind::String,
            LiteralKind::Boolean => AstLiteralKind::Boolean,
        }
    }
}

impl vstd::std_specs::convert::FromSpecImpl<LiteralKind> for AstLiteralKind {
    open spec fn obeys_from_spec() -> bool {
        true
    }

    open spec fn from_spec(kind: LiteralKind) -> AstLiteralKind {
        match kind {
            LiteralKind::Integer => AstLiteralKind::Integer,
            LiteralKind::Decimal => AstLiteralKind::Float,
            LiteralKind::String => AstLiteralKind::String,
            LiteralKind::Boolean => AstLiteralKind::Boolean,
        }
    }
}

impl TryFrom<OperatorKind> for BinaryOperator {
    type Error = ();

    fn try_from(kind: OperatorKind) -> (r: Result<Self, Self::Error>) {
        match kind {
            OperatorKind::Plus => Ok(BinaryOperator::Add),
            OperatorKind::Minus => Ok(BinaryOperator::Subtract),
            OperatorKind::Asterisk => Ok(BinaryOperator::Multiply),
            OperatorKind::Slash => Ok(BinaryOperator::Divide),
            OperatorKind::Percent => Ok(BinaryOperator::Modulo),
            OperatorKind::BitwiseAnd => Ok(BinaryOperator::BitwiseAnd),
            OperatorKind::BitwiseOr => Ok(BinaryOperator::BitwiseOr),
            OperatorKind::BitwiseXor => Ok(BinaryOperator::BitwiseXor),
            OperatorKind::ShiftLeft => Ok(BinaryOperator::ShiftLeft),
            OperatorKind::ShiftRight => Ok(BinaryOperator::ShiftRight),
            OperatorKind::PlusEquals => Ok(BinaryOperator::Add),
            _ => Err(()),
        }
    }
}

impl vstd::std_specs::convert::TryFromSpecImpl<OperatorKind> for BinaryOperator {
    open spec fn obeys_try_from_spec() -> bool {
        true
    }

    open spec fn try_from_spec(kind: OperatorKind) -> Result<Self, ()> {
        spec_binary_operator(kind)
    }
}

impl TryFrom<OperatorKind> for LogicalOperator {
    type Error = ();

    fn try_from(kind: OperatorKind) -> (r: Result<Self, Self::Error>) {
        match kind {
            OperatorKind::And => Ok(LogicalOperator::And),
            OperatorKind::Or => Ok(LogicalOperator::Or),
            _ => Err(()),
        }
    }
}

impl vstd::std_specs::convert::TryFromSpecImpl<OperatorKind> for LogicalOperator {
    open spec fn obeys_try_from_spec() -> bool {
        true
    }

    open spec fn try_from_spec(kind: OperatorKind) -> Result<Self, ()> {
        spec_logical_operator(kind)
    }
}

impl TryFrom<OperatorKind> for ComparisonOperator {
    type Error = ();

    /// `==` (and `=`) compare for equality; the ordering operators compare by order.
    fn try_from(kind: OperatorKind) -> (r: Result<Self, Self::Error>) {
        match kind {
            OperatorKind::Equals | OperatorKind::EqualsEquals => Ok(ComparisonOperator::Equals),
            OperatorKind::NotEquals => Ok(ComparisonOperator::NotEquals),
            OperatorKind::GreaterThan => Ok(ComparisonOperator::GreaterThan),
            OperatorKind::GreaterThanOrEqual => Ok(ComparisonOperator::GreaterThanOrEqual),
            OperatorKind::LessThan => Ok(ComparisonOperator::LessThan),
            OperatorKind::LessThanOrEqual => Ok(ComparisonOperator::LessThanOrEqual),
            _ => Err(()),
        }
    }
}

impl vstd::std_specs::convert::TryFromSpecImpl<OperatorKind> for ComparisonOperator {
    open spec fn obeys_try_from_spec() -> bool {
        true
    }

    open spec fn try_from_spec(kind: OperatorKind) -> Result<Self, ()> {
        spec_comparison_operator(kind)
    }
}

impl TryFrom<OperatorKind> for UnaryOperator {
    type Error = ();

    fn try_from(kind: OperatorKind) -> (r: Result<Self, Self::Error>) {
        match kind {
            OperatorKind::Not => Ok(UnaryOperator::Not),
            OperatorKind::Minus => Ok(UnaryOperator::Negative),
            OperatorKind::Plus => Ok(UnaryOperator::Positive),
            OperatorKind::BitwiseNot => Ok(UnaryOperator::BitwiseNot),
            _ => Err(()),
        }
    }
}

impl vstd::std_specs::convert::TryFromSpecImpl<OperatorKind> for UnaryOperator {
    open spec fn obeys_try_from_spec() -> bool {
        true
    }

    open spec fn try_from_spec(kind: OperatorKind) -> Result<Self, ()> {
        spec_unary_operator(kind)
    }
}

/// Every assigning operator other than `=` is read as the binary or logical operator it applies.
pub proof fn lemma_compound_assign_is_binary_or_logical(k: OperatorKind)
    requires
        spec_assign_operator(k) is Some,
        k != OperatorKind::Equals,
    ensures
        spec_assign_operator(k) matches Some(op) && (op is Binary || op is Logical),
        !(spec_assign_operator(k) matches Some(Operator::Binary(BinaryOperator::Assignment))),
{
}

} // verus!
