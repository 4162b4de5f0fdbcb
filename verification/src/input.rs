use vstd::prelude::*;

use crate::ast::Ast;
use crate::text::{trim, trimmed};

verus! {

/// Where an input comes from.
#[derive(Debug)]
pub enum CodeInputKind {
    /// A file, by its path.
    File(String),
    Virtual,
}

impl CodeInputKind {
    pub open spec fn spec_path(self) -> Seq<char> {
        match self {
            CodeInputKind::File(p) => p@,
            CodeInputKind::Virtual => "<virtual>"@,
        }
    }

    /// The path of the file, or `<virtual>`.
    pub fn text(&self) -> (r: String)
        ensures
            r@ == self.spec_path(),
    {
        match self {
            CodeInputKind::File(p) => p.clone(),
            CodeInputKind::Virtual => "<virtual>".to_owned(),
        }
    }
}

/// The text of an input, not parsed yet.
#[derive(Debug)]
pub struct CodeInput {
    kind: CodeInputKind,
    source: String,
}

/// The text of an input, with its syntax tree.
#[derive(Debug)]
pub struct ParsedCodeInput {
    kind: CodeInputKind,
    source: String,
    pub ast: Ast,
}

impl CodeInput {
    pub closed spec fn spec_kind(&self) -> CodeInputKind {
        self.kind
    }

    pub closed spec fn spec_source(&self) -> Seq<char> {
        self.source@
    }

    /// An input of kind `kind` with the text `source`.
    pub fn new(kind: CodeInputKind, source: String) -> (r: Self)
        ensures
            r.spec_kind() == kind,
            r.spec_source() == source@,
    {
        CodeInput { kind, source }
    }

    /// A virtual input holding `source` without leading and trailing white space.
    pub fn from_text(source: &str) -> (r: Self)
        ensures
            r.spec_kind() is Virtual,
            r.spec_source() == trimmed(source@),
    {
        CodeInput { kind: CodeInputKind::Virtual, source: trim(source).to_owned() }
    }

    /// The path of the input's file, or `<virtual>`.
    pub fn path(&self) -> (r: String)
        ensures
            r@ == self.spec_kind().spec_path(),
    {
        self.kind.text()
    }

    pub fn kind(&self) -> (r: &CodeInputKind)
        ensures
            *r == self.spec_kind(),
    {
        &self.kind
    }

    pub fn source(&self) -> (r: &str)
        ensures
            r@ == self.spec_source(),
    {
        self.source.as_str()
    }

    /// The input with its syntax tree `ast`.
    pub fn with_ast(self, ast: Ast) -> (r: ParsedCodeInput)
        ensures
            r.spec_kind() == self.spec_kind(),
            r.spec_source() == self.spec_source(),
            r.spec_ast() == ast,
    {
        ParsedCodeInput { kind: self.kind, source: self.source, ast }
    }
}

impl ParsedCodeInput {
    pub closed spec fn spec_ast(&self) -> Ast {
        self.ast
    }

    pub closed spec fn spec_kind(&self) -> CodeInputKind {
        self.kind
    }

    pub closed spec fn spec_source(&self) -> Seq<char> {
        self.source@
    }

    /// The input `input` with its syntax tree `ast`.
    pub fn from_input(input: CodeInput, ast: Ast) -> (r: Self)
        ensures
            r.spec_kind() == input.spec_kind(),
            r.spec_source() == input.spec_source(),
            r.spec_ast() == ast,
    {
        ParsedCodeInput { kind: input.kind, source: input.source, ast }
    }

    /// The path of the input's file, or `<virtual>`.
    pub fn path(&self) -> (r: String)
        ensures
            r@ == self.spec_kind().spec_path(),
    {
        self.kind.text()
    }

    pub fn kind(&self) -> (r: &CodeInputKind)
        ensures
            *r == self.spec_kind(),
    {
        &self.kind
    }

    pub fn source(&self) -> (r: &str)
        ensures
            r@ == self.spec_source(),
    {
        self.source.as_str()
    }
}

} // verus!
