use vstd::prelude::*;

use crate::span::{Cursor, Span};

verus! {

/// The index of a symbol in a symbol table.
pub type SymbolId = usize;

/// A name as written in the source, with the symbol it was resolved to (if any).
#[derive(Debug, Clone)]
pub struct AstSymbol {
    pub name: String,
    pub id: Option<SymbolId>,
    pub span: Span,
    pub cursor: Cursor,
}

impl AstSymbol {
    /// An unresolved symbol.
    pub fn new(name: String, span: Span, cursor: Cursor) -> (r: AstSymbol)
        ensures
            r.name@ == name@,
            r.id is None,
            r.span == span,
            r.cursor == cursor,
    {
        AstSymbol { name, id: None, span, cursor }
    }
}

/// A symbol that is either only named, or named and identified.
#[derive(Debug, Clone)]
pub enum SymbolKind {
    Named { name: String },
    Identified { name: String, id: usize },
}

impl SymbolKind {
    pub open spec fn spec_name(self) -> Seq<char> {
        match self {
            SymbolKind::Named { name } => name@,
            SymbolKind::Identified { name, .. } => name@,
        }
    }

    pub open spec fn spec_id(self) -> Option<usize> {
        match self {
            SymbolKind::Named { .. } => None,
            SymbolKind::Identified { id, .. } => Some(id),
        }
    }

    pub fn named(name: String) -> (r: Self)
        ensures
            r.spec_name() == name@,
            r.spec_id() is None,
    {
        SymbolKind::Named { name }
    }

    pub fn identified(name: String, id: usize) -> (r: Self)
        ensures
            r.spec_name() == name@,
            r.spec_id() == Some(id),
    {
        SymbolKind::Identified { name, id }
    }

    /// The same name, identified by `id` (replacing any earlier identification).
    pub fn with_id(self, id: usize) -> (r: Self)
        ensures
            r.spec_name() == self.spec_name(),
            r.spec_id() == Some(id),
    {
        match self {
            SymbolKind::Named { name } => SymbolKind::Identified { name, id },
            SymbolKind::Identified { name, .. } => SymbolKind::Identified { name, id },
        }
    }

    pub fn set_id(&mut self, id: usize)
        ensures
            final(self).spec_name() == old(self).spec_name(),
            final(self).spec_id() == Some(id),
    {
        let name = match self {
            SymbolKind::Named { name } => name.clone(),
            SymbolKind::Identified { name, .. } => name.clone(),
        };
        *self = SymbolKind::Identified { name, id };
    }

    pub fn name(&self) -> (r: &str)
        ensures
            r@ == self.spec_name(),
    {
        match self {
            SymbolKind::Named { name } => name.as_str(),
            SymbolKind::Identified { name, .. } => name.as_str(),
        }
    }

    pub fn id(&self) -> (r: Option<usize>)
        ensures
            r == self.spec_id(),
    {
        match self {
            SymbolKind::Identified { id, .. } => Some(*id),
            SymbolKind::Named { .. } => None,
        }
    }

    pub fn is_named(&self) -> (r: bool)
        ensures
            r == (*self is Named),
    {
        matches!(self, SymbolKind::Named { .. })
    }

    pub fn is_identified(&self) -> (r: bool)
        ensures
            r == (*self is Identified),
    {
        matches!(self, SymbolKind::Identified { .. })
    }
}

} // verus!
