use vstd::prelude::*;

use crate::ast::Ast;
use crate::semantics::hir::Hir;
use crate::source::CodeSource;

verus! {

/// A source with the code read from it, as a syntax tree or, once lowered, as HIR.
#[derive(Debug)]
pub struct ParsedCodeSource {
    pub source: CodeSource,
    pub code: ParsedCodeKind,
}

impl ParsedCodeSource {
    pub fn new(source: CodeSource, code: ParsedCodeKind) -> (r: Self)
        ensures
            r.source == source,
            r.code == code,
    {
        ParsedCodeSource { source, code }
    }
}

#[derive(Debug)]
pub enum ParsedCodeKind {
    Ast(Ast),
    Hir(Hir),
}

impl ParsedCodeKind {
    pub fn as_ast(&self) -> (r: Option<&Ast>)
        ensures
            match *self {
                ParsedCodeKind::Ast(a) => r == Some(&a),
                _ => r is None,
            },
    {
        match self {
            ParsedCodeKind::Ast(ast) => Some(ast),
            _ => None,
        }
    }

    /// The syntax tree; the code must not have been lowered.
    pub fn as_ast_unchecked(&self) -> (r: &Ast)
        requires
            self is Ast,
        ensures
            *self == ParsedCodeKind::Ast(*r),
    {
        match self {
            ParsedCodeKind::Ast(ast) => ast,
            _ => vstd::pervasive::unreached(),
        }
    }

    pub fn as_ast_mut(&mut self) -> (r: Option<&mut Ast>)
        ensures
            match *old(self) {
                ParsedCodeKind::Ast(a) => r is Some && *r->0 == a && *final(self) == ParsedCodeKind::Ast(*final(r->0)),
                _ => r is None && *final(self) == *old(self),
            },
    {
        match self {
            ParsedCodeKind::Ast(ast) => Some(ast),
            _ => None,
        }
    }

    /// The parsed code, to change it; the code must not have been lowered yet.
    pub fn as_ast_mut_unchecked(&mut self) -> (r: &mut Ast)
        requires
            *old(self) is Ast,
        ensures
            *old(self) == ParsedCodeKind::Ast(*r),
            *final(self) == ParsedCodeKind::Ast(*final(r)),
    {
        match self {
            ParsedCodeKind::Ast(ast) => ast,
            _ => vstd::pervasive::unreached(),
        }
    }

    pub fn as_hir(&self) -> (r: Option<&Hir>)
        ensures
            match *self {
                ParsedCodeKind::Hir(h) => r == Some(&h),
                _ => r is None,
            },
    {
        match self {
            ParsedCodeKind::Hir(hir) => Some(hir),
            _ => None,
        }
    }

    /// The lowered code; the code must have been lowered.
    pub fn as_hir_unchecked(&self) -> (r: &Hir)
        requires
            self is Hir,
        ensures
            *self == ParsedCodeKind::Hir(*r),
    {
        match self {
            ParsedCodeKind::Hir(hir) => hir,
            _ => vstd::pervasive::unreached(),
        }
    }

    pub fn as_hir_mut(&mut self) -> (r: Option<&mut Hir>)
        ensures
            match *old(self) {
                ParsedCodeKind::Hir(h) => r is Some && *r->0 == h && *final(self) == ParsedCodeKind::Hir(*final(r->0)),
                _ => r is None && *final(self) == *old(self),
            },
    {
        match self {
            ParsedCodeKind::Hir(hir) => Some(hir),
            _ => None,
        }
    }

    /// The lowered code, to change it; the code must have been lowered.
    pub fn as_hir_mut_unchecked(&mut self) -> (r: &mut Hir)
        requires
            *old(self) is Hir,
        ensures
            *old(self) == ParsedCodeKind::Hir(*r),
            *final(self) == ParsedCodeKind::Hir(*final(r)),
    {
        match self {
            ParsedCodeKind::Hir(hir) => hir,
            _ => vstd::pervasive::unreached(),
        }
    }
}

} // verus!
