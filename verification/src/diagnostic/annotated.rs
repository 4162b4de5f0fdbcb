use vstd::prelude::*;

use crate::span::Span;

verus! {

/// A diagnostic with a title, an optional annotation and location, and further annotated
/// places that give context.
#[derive(Debug, Clone, PartialEq, Eq)]
pub struct Diagnostic {
    pub level: DiagnosticLevel,
    pub title: String,
    pub annotation: Option<String>,
    pub span: Option<Span>,
    pub additional_contexts: Vec<DiagnosticContext>,
    /// Where in the compiler the diagnostic was raised.
    pub thrower: CallerInfo,
}

impl Diagnostic {
    /// The same diagnostic, located at `span`.
    pub fn span(self, span: Span) -> (r: Self)
        ensures
            r.span == Some(span),
            r.level == self.level,
            r.title == self.title,
            r.annotation == self.annotation,
            r.additional_contexts == self.additional_contexts,
            r.thrower == self.thrower,
    {
        let mut d = self;
        d.span = Some(span);
        d
    }

    /// The same diagnostic, located at `span` if there is one, else at no place.
    pub fn maybe_span(self, span: Option<Span>) -> (r: Self)
        ensures
            r.span == span,
            r.level == self.level,
            r.title == self.title,
            r.annotation == self.annotation,
            r.additional_contexts == self.additional_contexts,
            r.thrower == self.thrower,
    {
        let mut d = self;
        d.span = span;
        d
    }

    /// The same diagnostic, with `context` added after its other contexts.
    pub fn context(self, context: DiagnosticContext) -> (r: Self)
        ensures
            r.additional_contexts@ == self.additional_contexts@.push(context),
            r.span == self.span,
            r.level == self.level,
            r.title == self.title,
            r.annotation == self.annotation,
            r.thrower == self.thrower,
    {
        let mut d = self;
        d.additional_contexts.push(context);
        d
    }
}

#[derive(Debug, Clone, Copy, PartialEq, Eq, Structural)]
pub enum DiagnosticLevel {
    Error,
    Warning,
    Note,
}

/// A further place that a diagnostic points at.
#[derive(Debug, Clone, PartialEq, Eq)]
pub struct DiagnosticContext {
    pub kind: DiagnosticContextKind,
    pub annotation: Option<String>,
    pub span: Option<Span>,
}

#[derive(Debug, Clone, Copy, PartialEq, Eq, Structural)]
pub enum DiagnosticContextKind {
    Primary,
    Context,
    Unannotated,
}

/// A place in the compiler's own source.
#[derive(Debug, Clone, PartialEq, Eq)]
pub struct CallerInfo {
    pub file: &'static str,
    pub line: u32,
    pub column: u32,
}

/// A value that can be shown as a diagnostic.
pub trait AsDiagnostic {
    fn level(&self) -> DiagnosticLevel;

    fn title(&self) -> String;

    fn annotation(&self) -> Option<String>;
}

/// A value that can be shown as a context of a diagnostic.
pub trait AsDiagnosticContext {
    fn kind(&self) -> DiagnosticContextKind;

    fn annotation(&self) -> Option<String>;
}

} // verus!
