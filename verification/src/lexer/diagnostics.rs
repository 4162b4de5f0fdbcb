use vstd::prelude::*;

use crate::diagnostic::DiagnosticKind;
use crate::text::{surround_char};

verus! {

/// What the lexer reports.
#[derive(Debug, Clone, Copy, PartialEq, Eq, Structural)]
pub enum LexerDiagnostic {
    /// A character that starts no token (a warning: the character is skipped).
    UnexpectedCharacter(char),
    /// A letter after a leading `0` that names no number radix.
    UnexpectedRadixIdentifier(char),
    /// A string literal that the source ends inside of.
    UnterminatedString,
}

impl LexerDiagnostic {
    pub open spec fn spec_kind(self) -> DiagnosticKind {
        match self {
            LexerDiagnostic::UnexpectedCharacter(_) => DiagnosticKind::Warning,
            _ => DiagnosticKind::Error,
        }
    }

    pub fn kind(&self) -> (r: DiagnosticKind)
        ensures
            r == self.spec_kind(),
    {
        match self {
            LexerDiagnostic::UnexpectedCharacter(_) => DiagnosticKind::Warning,
            _ => DiagnosticKind::Error,
        }
    }

    pub open spec fn spec_text(self) -> Seq<char> {
        match self {
            LexerDiagnostic::UnexpectedCharacter(c) => "unexpected character '"@.push(c) + "'"@,
            LexerDiagnostic::UnexpectedRadixIdentifier(c) => "unexpected radix identifier '"@.push(c) + "'"@,
            LexerDiagnostic::UnterminatedString => "unterminated string"@,
        }
    }

    /// The message of the diagnostic.
    pub fn text(&self) -> (r: String)
        ensures
            r@ == self.spec_text(),
    {
        match self {
            LexerDiagnostic::UnexpectedCharacter(c) => surround_char("unexpected character '", *c, "'"),
            LexerDiagnostic::UnexpectedRadixIdentifier(c) => surround_char("unexpected radix identifier '", *c, "'"),
            LexerDiagnostic::UnterminatedString => "unterminated string".to_owned(),
        }
    }

    pub open spec fn spec_note(self) -> Option<Seq<char>> {
        match self {
            LexerDiagnostic::UnterminatedString => Some("strings must begin and end with ' or \""@),
            _ => None,
        }
    }

    /// The note that explains the diagnostic, where there is one.
    pub fn note(&self) -> (r: Option<String>)
        ensures
            match r {
                Some(n) => self.spec_note() == Some(n@),
                None => self.spec_note() is None,
            },
    {
        match self {
            LexerDiagnostic::UnterminatedString => Some("strings must begin and end with ' or \"".to_owned()),
            _ => None,
        }
    }
}

} // verus!
