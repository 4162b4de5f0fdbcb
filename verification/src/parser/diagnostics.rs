use vstd::prelude::*;

use crate::diagnostic::DiagnosticKind;
use crate::lexer::tokens::kind::TokenKind;
use crate::text::{push_str, surround};

verus! {

/// What the parser reports.
#[derive(Debug, Clone)]
pub enum ParserDiagnostic {
    UnexpectedEnd,
    /// The token kind expected, and the one found.
    ExpectedToken(TokenKind, TokenKind),
    /// An expression (by the name of its kind) where none is allowed.
    UnexpectedExpression(String),
    UnexpectedToken(TokenKind),
    InvalidVisibilityScope(String),
    /// A statement (by the name of its kind) that cannot carry a visibility.
    UnsupportedVisibilityStatement(String),
    InvalidNumberLiteral(String),
    VariableCannotInfer(String),
    /// An assignment whose left-hand side (by the name of its kind) is no variable.
    InvalidLeftHandSide(String),
    UnusedStatementDueToEarlyReturn,
    MissingTypeAnnotation(String),
    ExpectedSpecialKeyword(String),
    MissingFunctionBody,
    MissingArrayTypeAnnotation,
}

impl ParserDiagnostic {
    pub open spec fn spec_kind(self) -> DiagnosticKind {
        match self {
            ParserDiagnostic::UnusedStatementDueToEarlyReturn => DiagnosticKind::Warning,
            _ => DiagnosticKind::Error,
        }
    }

    pub fn kind(&self) -> (r: DiagnosticKind)
        ensures
            r == self.spec_kind(),
    {
        match self {
            ParserDiagnostic::UnusedStatementDueToEarlyReturn => DiagnosticKind::Warning,
            _ => DiagnosticKind::Error,
        }
    }

    pub open spec fn spec_text(self) -> Seq<char> {
        match self {
            ParserDiagnostic::UnexpectedEnd => "unexpected end"@,
            ParserDiagnostic::ExpectedToken(a, b) => "expected token '"@ + a.spec_name() + "', found '"@
                + b.spec_name() + "'"@,
            ParserDiagnostic::UnexpectedExpression(e) => "unexpected expression '"@ + e@ + "'"@,
            ParserDiagnostic::UnexpectedToken(t) => "unexpected token '"@ + t.spec_name() + "'"@,
            ParserDiagnostic::InvalidVisibilityScope(s) => "invalid visibility scope '"@ + s@
                + "'. expected 'inherit', 'module', 'this' or empty"@,
            ParserDiagnostic::UnsupportedVisibilityStatement(s) => "statement of kind '"@ + s@
                + "' does not support visibility modifiers"@,
            ParserDiagnostic::InvalidNumberLiteral(s) => "invalid number literal '"@ + s@ + "'"@,
            ParserDiagnostic::VariableCannotInfer(s) => "variable '"@ + s@
                + "' does not have a declared type or value"@,
            ParserDiagnostic::InvalidLeftHandSide(s) => "left-hand side of assignment must be a variable, found '"@
                + s@ + "'"@,
            ParserDiagnostic::UnusedStatementDueToEarlyReturn => "unused statement due to early return"@,
            ParserDiagnostic::MissingTypeAnnotation(s) => "missing type annotation for '"@ + s@ + "'"@,
            ParserDiagnostic::ExpectedSpecialKeyword(s) => "expected special keyword '"@ + s@ + "'"@,
            ParserDiagnostic::MissingFunctionBody => "missing function body"@,
            ParserDiagnostic::MissingArrayTypeAnnotation => "missing array type annotation"@,
        }
    }

    /// The message of the diagnostic.
    pub fn text(&self) -> (r: String)
        ensures
            r@ == self.spec_text(),
    {
        match self {
            ParserDiagnostic::UnexpectedEnd => "unexpected end".to_owned(),
            ParserDiagnostic::ExpectedToken(a, b) => {
                let mut s = surround("expected token '", a.name(), "', found '");
                push_str(&mut s, b.name());
                push_str(&mut s, "'");
                s
            },
            ParserDiagnostic::UnexpectedExpression(e) => surround("unexpected expression '", e.as_str(), "'"),
            ParserDiagnostic::UnexpectedToken(t) => surround("unexpected token '", t.name(), "'"),
            ParserDiagnostic::InvalidVisibilityScope(s) => surround(
                "invalid visibility scope '",
                s.as_str(),
                "'. expected 'inherit', 'module', 'this' or empty",
            ),
            ParserDiagnostic::UnsupportedVisibilityStatement(s) => surround(
                "statement of kind '",
                s.as_str(),
                "' does not support visibility modifiers",
            ),
            ParserDiagnostic::InvalidNumberLiteral(s) => surround("invalid number literal '", s.as_str(), "'"),
            ParserDiagnostic::VariableCannotInfer(s) => surround(
                "variable '",
                s.as_str(),
                "' does not have a declared type or value",
            ),
            ParserDiagnostic::InvalidLeftHandSide(s) => surround(
                "left-hand side of assignment must be a variable, found '",
                s.as_str(),
                "'",
            ),
            ParserDiagnostic::UnusedStatementDueToEarlyReturn => "unused statement due to early return".to_owned(),
            ParserDiagnostic::MissingTypeAnnotation(s) => surround("missing type annotation for '", s.as_str(), "'"),
            ParserDiagnostic::ExpectedSpecialKeyword(s) => surround("expected special keyword '", s.as_str(), "'"),
            ParserDiagnostic::MissingFunctionBody => "missing function body".to_owned(),
            ParserDiagnostic::MissingArrayTypeAnnotation => "missing array type annotation".to_owned(),
        }
    }
}

} // verus!
