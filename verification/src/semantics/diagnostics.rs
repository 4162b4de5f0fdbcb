use vstd::prelude::*;

use crate::ast::types::TypeKind;
use crate::diagnostic::DiagnosticKind;
use crate::text::{decimal, push_decimal, push_str};

verus! {

/// What the semantic analysis reports.
#[derive(Debug)]
pub enum AnalyzerDiagnostic {
    /// The type expected, and the one found.
    MismatchedTypes(TypeKind, TypeKind),
    UnresolvedSymbol(String),
    /// The type the literal was read as, and its text.
    InvalidLiteralValue(TypeKind, String),
    /// The number of parameters, and the number of arguments.
    InvalidAmountOfArguments(usize, usize),
    CalleeNotFunction(TypeKind),
    /// The type expected, and the one found.
    ExpectedTypeFoundType(TypeKind, TypeKind),
    /// An `if` with a value of this type and no `else`.
    MissingElseBranch(TypeKind),
}

impl AnalyzerDiagnostic {
    pub open spec fn spec_kind(self) -> DiagnosticKind {
        DiagnosticKind::Error
    }

    pub fn kind(&self) -> (r: DiagnosticKind)
        ensures
            r == self.spec_kind(),
    {
        DiagnosticKind::Error
    }

    pub open spec fn spec_text(self) -> Seq<char> {
        match self {
            AnalyzerDiagnostic::MismatchedTypes(a, b) => "mismatched types: expected `"@ + a.spec_kind_name()
                + "`, found `"@ + b.spec_kind_name() + "`"@,
            AnalyzerDiagnostic::UnresolvedSymbol(s) => "unresolved symbol: `"@ + s@ + "`"@,
            AnalyzerDiagnostic::InvalidLiteralValue(t, v) => "invalid literal value for type `"@
                + t.spec_kind_name() + "`: `"@ + v@ + "`"@,
            AnalyzerDiagnostic::InvalidAmountOfArguments(a, b) => "invalid amount of arguments: expected `"@
                + decimal(a as nat) + "`, found `"@ + decimal(b as nat) + "`"@,
            AnalyzerDiagnostic::CalleeNotFunction(t) => "callee is not a function, found `"@ + t.spec_kind_name()
                + "`"@,
            AnalyzerDiagnostic::ExpectedTypeFoundType(a, b) => "expected type '"@ + a.spec_kind_name()
                + "', found '"@ + b.spec_kind_name() + "'"@,
            AnalyzerDiagnostic::MissingElseBranch(t) => "missing else branch for an if of type `"@
                + t.spec_kind_name() + "`"@,
        }
    }

    /// The text of the message.
    pub fn text(&self) -> (r: String)
        ensures
            r@ == self.spec_text(),
    {
        let mut s = String::new();
        match self {
            AnalyzerDiagnostic::MismatchedTypes(a, b) => {
                push_str(&mut s, "mismatched types: expected `");
                push_str(&mut s, a.kind_name());
                push_str(&mut s, "`, found `");
                push_str(&mut s, b.kind_name());
                push_str(&mut s, "`");
            },
            AnalyzerDiagnostic::UnresolvedSymbol(name) => {
                push_str(&mut s, "unresolved symbol: `");
                push_str(&mut s, name.as_str());
                push_str(&mut s, "`");
            },
            AnalyzerDiagnostic::InvalidLiteralValue(t, v) => {
                push_str(&mut s, "invalid literal value for type `");
                push_str(&mut s, t.kind_name());
                push_str(&mut s, "`: `");
                push_str(&mut s, v.as_str());
                push_str(&mut s, "`");
            },
            AnalyzerDiagnostic::InvalidAmountOfArguments(a, b) => {
                push_str(&mut s, "invalid amount of arguments: expected `");
                push_decimal(&mut s, *a);
                push_str(&mut s, "`, found `");
                push_decimal(&mut s, *b);
                push_str(&mut s, "`");
            },
            AnalyzerDiagnostic::CalleeNotFunction(t) => {
                push_str(&mut s, "callee is not a function, found `");
                push_str(&mut s, t.kind_name());
                push_str(&mut s, "`");
            },
            AnalyzerDiagnostic::ExpectedTypeFoundType(a, b) => {
                push_str(&mut s, "expected type '");
                push_str(&mut s, a.kind_name());
                push_str(&mut s, "', found '");
                push_str(&mut s, b.kind_name());
                push_str(&mut s, "'");
            },
            AnalyzerDiagnostic::MissingElseBranch(t) => {
                push_str(&mut s, "missing else branch for an if of type `");
                push_str(&mut s, t.kind_name());
                push_str(&mut s, "`");
            },
        }
        s
    }
}

} // verus!
