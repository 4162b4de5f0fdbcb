pub mod convert;
pub mod kind;
pub mod stream;

pub use kind::{KeywordKind, LiteralKind, OperatorKind, PunctuationKind, TokenKind};
pub use stream::TokenStream;

use vstd::prelude::*;

use crate::span::{Cursor, Span};

verus! {

#[derive(Debug)]
pub struct Token {
    pub kind: TokenKind,
    pub lexeme: String,
    pub cursor: Cursor,
    pub span: Span,
}

impl Token {
    /// Where the token stands in the source.
    pub fn pos(&self) -> (r: (Span, Cursor))
        ensures
            r == (self.span, self.cursor),
    {
        (self.span, self.cursor)
    }

    /// A copy of the token.
    pub fn duplicate(&self) -> (r: Token)
        ensures
            r.kind == self.kind,
            r.lexeme@ == self.lexeme@,
            r.cursor == self.cursor,
            r.span == self.span,
    {
        Token { kind: self.kind, lexeme: self.lexeme.clone(), cursor: self.cursor, span: self.span }
    }
}

} // verus!
