use vstd::prelude::*;

use crate::ast::expressions::Expression;
use crate::ast::symbol::AstSymbol;
use crate::ast::types::Type;
use crate::ast::visibility::Visibility;
use crate::span::{Cursor, Span};

verus! {

#[derive(Debug)]
pub struct Statement {
    pub kind: StatementKind,
    pub span: Span,
    pub cursor: Cursor,
}

#[derive(Debug)]
pub enum StatementKind {
    While { label: Option<AstSymbol>, condition: Expression, body: Expression },
    Expression { inner: Expression },
    Continue { label: Option<AstSymbol> },
    Break { label: Option<AstSymbol> },
    Return { value: Option<Expression> },
    Import { kind: ImportPropertyKind, path: String },
    FuncDecl(FuncDecl),
    VarDecl(VarDecl),
    ClassDecl(ClassDecl),
    EndOfFile,
}

#[derive(Debug)]
pub struct FuncDecl {
    pub visibility: Visibility,
    pub symbol: AstSymbol,
    pub parameters: Vec<Parameter>,
    pub return_type: Option<Type>,
    pub body: Option<Box<Expression>>,
}

#[derive(Debug)]
pub struct VarDecl {
    pub visibility: Visibility,
    pub symbol: AstSymbol,
    pub mutable: bool,
    pub value: Option<Box<Expression>>,
    pub ty: Option<Type>,
}

#[derive(Debug)]
pub struct ClassDecl {
    pub visibility: Visibility,
    pub symbol: AstSymbol,
    pub fields: Vec<Parameter>,
    pub methods: Vec<FuncDecl>,
}

#[derive(Debug)]
pub struct Parameter {
    pub symbol: AstSymbol,
    pub mutable: bool,
    pub ty: Type,
    pub span: Span,
    pub cursor: Cursor,
}

#[derive(Debug, Clone)]
pub enum ImportPropertyKind {
    /// `import * as name from "lib"`
    All(String),
    /// `import { a, b as c } from "lib"`
    Individual(Vec<Renameable>),
    /// `import "lib"` (nothing is selected from the library)
    Bare,
}

#[derive(Debug, Clone)]
pub enum Renameable {
    Normally(String),
    Renamed(String, String),
}

impl StatementKind {
    pub open spec fn spec_name(self) -> Seq<char> {
        match self {
            StatementKind::While { .. } => "while"@,
            StatementKind::Expression { .. } => "expression"@,
            StatementKind::Continue { .. } => "continue"@,
            StatementKind::Break { .. } => "break"@,
            StatementKind::Return { .. } => "return"@,
            StatementKind::Import { .. } => "import"@,
            StatementKind::FuncDecl(_) => "func_decl"@,
            StatementKind::VarDecl(_) => "var_decl"@,
            StatementKind::ClassDecl(_) => "class_decl"@,
            StatementKind::EndOfFile => "end_of_file"@,
        }
    }

    /// The snake-case name of the kind of statement.
    pub fn name(&self) -> (r: &'static str)
        ensures
            r@ == self.spec_name(),
    {
        match self {
            StatementKind::While { .. } => "while",
            StatementKind::Expression { .. } => "expression",
            StatementKind::Continue { .. } => "continue",
            StatementKind::Break { .. } => "break",
            StatementKind::Return { .. } => "return",
            StatementKind::Import { .. } => "import",
            StatementKind::FuncDecl(_) => "func_decl",
            StatementKind::VarDecl(_) => "var_decl",
            StatementKind::ClassDecl(_) => "class_decl",
            StatementKind::EndOfFile => "end_of_file",
        }
    }
}

} // verus!
