pub mod expressions;
pub mod operators;
pub mod statements;
pub mod symbol;
pub mod types;
pub mod visibility;

use vstd::prelude::*;

use crate::ast::statements::Statement;
use crate::span::Span;

verus! {

/// The syntax tree of one source: its statements in order.
#[derive(Debug)]
pub struct Ast {
    pub statements: Vec<Statement>,
    pub span: Span,
}

impl Ast {
    pub fn new(span: Span, statements: Vec<Statement>) -> (r: Self)
        ensures
            r.span == span,
            r.statements@ == statements@,
    {
        Ast { span, statements }
    }
}

} // verus!
