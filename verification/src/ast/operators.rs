use vstd::prelude::*;

verus! {

/// Any operator of the language.
#[derive(Debug, Clone, Copy, PartialEq, Eq, Structural)]
pub enum Operator {
    Binary(BinaryOperator),
    Logical(LogicalOperator),
    Comparison(ComparisonOperator),
    Unary(UnaryOperator),
}

#[derive(Debug, Clone, Copy, PartialEq, Eq, Structural)]
pub enum BinaryOperator {
    Assignment,
    Add,
    Subtract,
    Multiply,
    Divide,
    Modulo,
    BitwiseAnd,
    BitwiseOr,
    BitwiseXor,
    ShiftLeft,
    ShiftRight,
}

#[derive(Debug, Clone, Copy, PartialEq, Eq, Structural)]
pub enum LogicalOperator {
    And,
    Or,
}

#[derive(Debug, Clone, Copy, PartialEq, Eq, Structural)]
pub enum ComparisonOperator {
    Equals,
    NotEquals,
    GreaterThan,
    GreaterThanOrEqual,
    LessThan,
    LessThanOrEqual,
}

#[derive(Debug, Clone, Copy, PartialEq, Eq, Structural)]
pub enum UnaryOperator {
    Not,
    Negative,
    Positive,
    BitwiseNot,
}

impl BinaryOperator {
    pub open spec fn spec_name(self) -> Seq<char> {
        match self {
            BinaryOperator::Assignment => "assignment"@,
            BinaryOperator::Add => "add"@,
            BinaryOperator::Subtract => "subtract"@,
            BinaryOperator::Multiply => "multiply"@,
            BinaryOperator::Divide => "divide"@,
            BinaryOperator::Modulo => "modulo"@,
            BinaryOperator::BitwiseAnd => "bitwise_and"@,
            BinaryOperator::BitwiseOr => "bitwise_or"@,
            BinaryOperator::BitwiseXor => "bitwise_xor"@,
            BinaryOperator::ShiftLeft => "shift_left"@,
            BinaryOperator::ShiftRight => "shift_right"@,
        }
    }

    /// The snake-case name of the operator.
    pub fn name(&self) -> (r: &'static str)
        ensures
            r@ == self.spec_name(),
    {
        match self {
            BinaryOperator::Assignment => "assignment",
            BinaryOperator::Add => "add",
            BinaryOperator::Subtract => "subtract",
            BinaryOperator::Multiply => "multiply",
            BinaryOperator::Divide => "divide",
            BinaryOperator::Modulo => "modulo",
            BinaryOperator::BitwiseAnd => "bitwise_and",
            BinaryOperator::BitwiseOr => "bitwise_or",
            BinaryOperator::BitwiseXor => "bitwise_xor",
            BinaryOperator::ShiftLeft => "shift_left",
            BinaryOperator::ShiftRight => "shift_right",
        }
    }
}

impl LogicalOperator {
    pub open spec fn spec_name(self) -> Seq<char> {
        match self {
            LogicalOperator::And => "and"@,
            LogicalOperator::Or => "or"@,
        }
    }

    /// The snake-case name of the operator.
    pub fn name(&self) -> (r: &'static str)
        ensures
            r@ == self.spec_name(),
    {
        match self {
            LogicalOperator::And => "and",
            LogicalOperator::Or => "or",
        }
    }
}

impl ComparisonOperator {
    pub open spec fn spec_name(self) -> Seq<char> {
        match self {
            ComparisonOperator::Equals => "equals"@,
            ComparisonOperator::NotEquals => "not_equals"@,
            ComparisonOperator::GreaterThan => "greater_than"@,
            ComparisonOperator::GreaterThanOrEqual => "greater_than_or_equal"@,
            ComparisonOperator::LessThan => "less_than"@,
            ComparisonOperator::LessThanOrEqual => "less_than_or_equal"@,
        }
    }

    /// The snake-case name of the operator.
    pub fn name(&self) -> (r: &'static str)
        ensures
            r@ == self.spec_name(),
    {
        match self {
            ComparisonOperator::Equals => "equals",
            ComparisonOperator::NotEquals => "not_equals",
            ComparisonOperator::GreaterThan => "greater_than",
            ComparisonOperator::GreaterThanOrEqual => "greater_than_or_equal",
            ComparisonOperator::LessThan => "less_than",
            ComparisonOperator::LessThanOrEqual => "less_than_or_equal",
        }
    }
}

impl UnaryOperator {
    pub open spec fn spec_name(self) -> Seq<char> {
        match self {
            UnaryOperator::Not => "not"@,
            UnaryOperator::Negative => "negative"@,
            UnaryOperator::Positive => "positive"@,
            UnaryOperator::BitwiseNot => "bitwise_not"@,
        }
    }

    /// The snake-case name of the operator.
    pub fn name(&self) -> (r: &'static str)
        ensures
            r@ == self.spec_name(),
    {
        match self {
            UnaryOperator::Not => "not",
            UnaryOperator::Negative => "negative",
            UnaryOperator::Positive => "positive",
            UnaryOperator::BitwiseNot => "bitwise_not",
        }
    }
}

impl Operator {
    pub open spec fn spec_name(self) -> Seq<char> {
        match self {
            Operator::Binary(op) => op.spec_name(),
            Operator::Logical(op) => op.spec_name(),
            Operator::Comparison(op) => op.spec_name(),
            Operator::Unary(op) => op.spec_name(),
        }
    }

    /// The name of the operator, as it is displayed.
    pub fn name(&self) -> (r: &'static str)
        ensures
            r@ == self.spec_name(),
    {
        match self {
            Operator::Binary(op) => op.name(),
            Operator::Logical(op) => op.name(),
            Operator::Comparison(op) => op.name(),
            Operator::Unary(op) => op.name(),
        }
    }
}

} // verus!
