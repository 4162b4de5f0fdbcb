use vstd::prelude::*;

use crate::ast::symbol::SymbolId;
use crate::ast::types::Type;
use crate::ast::visibility::Visibility;
use crate::semantics::hir::expressions::HirExpression;
use crate::span::{Cursor, Span};

verus! {

#[derive(Debug)]
pub struct HirStatement {
    pub kind: HirStatementKind,
    pub span: Span,
    pub cursor: Cursor,
}

#[derive(Debug)]
pub enum HirStatementKind {
    Loop { symbol_id: SymbolId, body: Box<HirStatement> },
    Expression { inner: HirExpression },
    Continue { label: Option<SymbolId> },
    Break { label: Option<SymbolId> },
    Return { value: Option<Box<HirExpression>> },
    Import { kind: HirImportPropertyKind, path: String },
    FuncDecl(HirFuncDecl),
    VarDecl(HirVarDecl),
    ClassDecl(HirClassDecl),
}

#[derive(Debug)]
pub struct HirFuncDecl {
    pub visibility: Visibility,
    pub symbol_id: SymbolId,
    pub parameters: Vec<HirParameter>,
    pub return_type: Type,
    pub body: Option<Box<HirExpression>>,
}

#[derive(Debug)]
pub struct HirVarDecl {
    pub visibility: Visibility,
    pub symbol_id: SymbolId,
    pub mutable: bool,
    pub ty: Type,
    pub value: Option<Box<HirExpression>>,
}

#[derive(Debug)]
pub struct HirClassDecl {
    pub visibility: Visibility,
    pub symbol_id: SymbolId,
    pub fields: Vec<HirParameter>,
    pub methods: Vec<HirFuncDecl>,
}

#[derive(Debug)]
pub struct HirParameter {
    pub symbol_id: SymbolId,
    pub mutable: bool,
    pub ty: Type,
    pub span: Span,
    pub cursor: Cursor,
}

#[derive(Debug, Clone, PartialEq, Eq)]
pub enum HirImportPropertyKind {
    All(String),
    Individual(Vec<HirRenameable>),
    Bare,
}

#[derive(Debug, Clone, PartialEq, Eq)]
pub enum HirRenameable {
    Normally(String),
    Renamed(String, String),
}

impl HirStatementKind {
    pub open spec fn spec_name(self) -> Seq<char> {
        match self {
            HirStatementKind::Loop { .. } => "loop"@,
            HirStatementKind::Expression { .. } => "expression"@,
            HirStatementKind::Continue { .. } => "continue"@,
            HirStatementKind::Break { .. } => "break"@,
            HirStatementKind::Return { .. } => "return"@,
            HirStatementKind::Import { .. } => "import"@,
            HirStatementKind::FuncDecl(_) => "func_decl"@,
            HirStatementKind::VarDecl(_) => "var_decl"@,
            HirStatementKind::ClassDecl(_) => "class_decl"@,
        }
    }

    /// The snake-case name of the kind of statement.
    pub fn name(&self) -> (r: &'static str)
        ensures
            r@ == self.spec_name(),
    {
        match self {
            HirStatementKind::Loop { .. } => "loop",
            HirStatementKind::Expression { .. } => "expression",
            HirStatementKind::Continue { .. } => "continue",
            HirStatementKind::Break { .. } => "break",
            HirStatementKind::Return { .. } => "return",
            HirStatementKind::Import { .. } => "import",
            HirStatementKind::FuncDecl(_) => "func_decl",
            HirStatementKind::VarDecl(_) => "var_decl",
            HirStatementKind::ClassDecl(_) => "class_decl",
        }
    }
}

} // verus!
