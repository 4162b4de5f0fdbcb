pub mod expressions;
pub mod statements;

use vstd::prelude::*;

use crate::semantics::hir::expressions::HirExpression;
use crate::semantics::hir::statements::HirStatement;

verus! {

/// The lowered form of one source: its statements, with every name resolved to a symbol.
#[derive(Debug)]
pub struct Hir {
    pub statements: Vec<HirStatement>,
}

impl Hir {
    pub fn new() -> (r: Self)
        ensures
            r.statements@.len() == 0,
    {
        Hir { statements: Vec::new() }
    }

    pub fn with_capacity(capacity: usize) -> (r: Self)
        ensures
            r.statements@.len() == 0,
    {
        Hir { statements: Vec::with_capacity(capacity) }
    }
}

impl Default for Hir {
    fn default() -> (r: Self)
        ensures
            r.statements@.len() == 0,
    {
        Hir::new()
    }
}

/// A condition and the expression evaluated when it holds.
#[derive(Debug)]
pub struct HirConditionalBranch {
    pub condition: HirExpression,
    pub body: HirExpression,
}

} // verus!
