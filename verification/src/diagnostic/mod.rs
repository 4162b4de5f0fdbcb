pub mod annotated;
pub mod error;
pub mod pretty;
pub mod render;
pub mod reporter;
pub mod store;

use vstd::prelude::*;

use crate::lexer::diagnostics::LexerDiagnostic;
use crate::parser::diagnostics::ParserDiagnostic;
use crate::semantics::diagnostics::AnalyzerDiagnostic;
use crate::span::{Cursor, Span};

verus! {

/// How severe a reported diagnostic is.
#[derive(Debug, Clone, Copy, PartialEq, Eq, Structural, Hash)]
pub enum DiagnosticKind {
    Error,
    Warning,
}

impl DiagnosticKind {
    pub open spec fn spec_name(self) -> Seq<char> {
        match self {
            DiagnosticKind::Error => "error"@,
            DiagnosticKind::Warning => "warning"@,
        }
    }

    pub fn name(&self) -> (r: &'static str)
        ensures
            r@ == self.spec_name(),
    {
        match self {
            DiagnosticKind::Error => "error",
            DiagnosticKind::Warning => "warning",
        }
    }
}

/// The message of a reported diagnostic, by the stage that reported it.
#[derive(Debug)]
pub enum DiagnosticMessage {
    Lexer(LexerDiagnostic),
    Parser(ParserDiagnostic),
    Analyzer(AnalyzerDiagnostic),
}

impl DiagnosticMessage {
    pub open spec fn spec_kind(self) -> DiagnosticKind {
        match self {
            DiagnosticMessage::Lexer(d) => d.spec_kind(),
            DiagnosticMessage::Parser(d) => d.spec_kind(),
            DiagnosticMessage::Analyzer(d) => d.spec_kind(),
        }
    }

    pub fn kind(&self) -> (r: DiagnosticKind)
        ensures
            r == self.spec_kind(),
    {
        match self {
            DiagnosticMessage::Lexer(d) => d.kind(),
            DiagnosticMessage::Parser(d) => d.kind(),
            DiagnosticMessage::Analyzer(d) => d.kind(),
        }
    }

    pub open spec fn spec_text(self) -> Seq<char> {
        match self {
            DiagnosticMessage::Lexer(d) => d.spec_text(),
            DiagnosticMessage::Parser(d) => d.spec_text(),
            DiagnosticMessage::Analyzer(d) => d.spec_text(),
        }
    }

    /// The text of the message.
    pub fn text(&self) -> (r: String)
        ensures
            r@ == self.spec_text(),
    {
        match self {
            DiagnosticMessage::Lexer(d) => d.text(),
            DiagnosticMessage::Parser(d) => d.text(),
            DiagnosticMessage::Analyzer(d) => d.text(),
        }
    }

    pub open spec fn spec_note(self) -> Option<Seq<char>> {
        match self {
            DiagnosticMessage::Lexer(d) => d.spec_note(),
            DiagnosticMessage::Parser(_) => None,
            DiagnosticMessage::Analyzer(_) => None,
        }
    }

    pub fn note(&self) -> (r: Option<String>)
        ensures
            match r {
                Some(n) => self.spec_note() == Some(n@),
                None => self.spec_note() is None,
            },
    {
        match self {
            DiagnosticMessage::Lexer(d) => d.note(),
            DiagnosticMessage::Parser(_) => None,
            DiagnosticMessage::Analyzer(_) => None,
        }
    }
}

/// A diagnostic as a stage reports it: the message, and where in the source it applies.
#[derive(Debug)]
pub struct DiagnosticReport {
    pub message: DiagnosticMessage,
    pub span: Span,
    pub cursor: Cursor,
}

pub type DiagnosticResult<T> = Result<T, DiagnosticReport>;

} // verus!
