use vstd::prelude::*;

use crate::lexer::tokens::Token;

verus! {

/// The tokens of a source, with a read position.
#[derive(Debug)]
pub struct TokenStream {
    tokens: Vec<Token>,
    pos: usize,
}

impl TokenStream {
    #[verifier::type_invariant]
    spec fn inv(self) -> bool {
        self.pos <= self.tokens.len()
    }

    pub closed spec fn spec_tokens(self) -> Seq<Token> {
        self.tokens@
    }

    pub closed spec fn spec_pos(self) -> nat {
        self.pos as nat
    }

    /// The token `current` gives at position `pos`: the token there, or the last one at the end.
    pub open spec fn token_at(self, pos: nat) -> Token {
        if pos < self.spec_tokens().len() {
            self.spec_tokens()[pos as int]
        } else {
            self.spec_tokens().last()
        }
    }

    pub open spec fn spec_current(self) -> Token {
        self.token_at(self.spec_pos())
    }

    pub open spec fn spec_at_end(self) -> bool {
        self.spec_pos() >= self.spec_tokens().len()
    }

    pub fn new(tokens: Vec<Token>) -> (r: Self)
        ensures
            r.spec_tokens() == tokens@,
            r.spec_pos() == 0,
            r.spec_pos() <= r.spec_tokens().len(),
    {
        TokenStream { tokens, pos: 0 }
    }

    /// The token before the read position.
    pub fn previous(&self) -> (r: &Token)
        requires
            self.spec_pos() > 0,
        ensures
            *r == self.spec_tokens()[self.spec_pos() - 1],
            self.spec_pos() <= self.spec_tokens().len(),
    {
        proof {
            use_type_invariant(self);
        }
        &self.tokens[self.pos - 1]
    }

    /// The token at the read position; at the end, the last token.
    pub fn current(&self) -> (r: &Token)
        requires
            self.spec_tokens().len() > 0,
        ensures
            *r == self.spec_current(),
            self.spec_pos() <= self.spec_tokens().len(),
    {
        proof {
            use_type_invariant(self);
        }
        if self.is_at_end() {
            self.previous()
        } else {
            &self.tokens[self.pos]
        }
    }

    /// The token `amount` places after the read position; past the end, the last token.
    pub fn lookahead_by(&self, amount: usize) -> (r: &Token)
        requires
            self.spec_tokens().len() > 0,
        ensures
            *r == self.token_at((self.spec_pos() + amount) as nat),
    {
        proof {
            use_type_invariant(self);
        }
        if amount >= self.tokens.len() - self.pos {
            &self.tokens[self.tokens.len() - 1]
        } else {
            &self.tokens[self.pos + amount]
        }
    }

    /// Moves past the current token (unless at the end) and gives the token moved past.
    pub fn advance(&mut self) -> (r: &Token)
        requires
            old(self).spec_tokens().len() > 0,
        ensures
            final(self).spec_tokens() == old(self).spec_tokens(),
            final(self).spec_pos() == if old(self).spec_at_end() {
                old(self).spec_pos()
            } else {
                old(self).spec_pos() + 1
            },
            *r == final(self).spec_tokens()[final(self).spec_pos() - 1],
            final(self).spec_pos() <= final(self).spec_tokens().len(),
    {
        proof {
            use_type_invariant(&*self);
        }
        if !self.is_at_end() {
            self.pos = self.pos + 1;
        }
        self.previous()
    }

    pub fn is_at_end(&self) -> (r: bool)
        ensures
            r == self.spec_at_end(),
            self.spec_pos() <= self.spec_tokens().len(),
    {
        proof {
            use_type_invariant(self);
        }
        self.pos >= self.tokens.len()
    }
}

/// The read position after `k` calls of `advance` from position `pos` over `len` tokens:
/// each call moves one token on, except at the end.
pub open spec fn pos_after_advances(pos: nat, len: nat, k: nat) -> nat
    decreases k,
{
    if k == 0 {
        pos
    } else {
        pos_after_advances(if pos >= len { pos } else { pos + 1 }, len, (k - 1) as nat)
    }
}

/// After `k` advances over `len` tokens from a position `pos` up to the end, the read
/// position is `pos + k` or the end, whichever comes first; so a stream made from `len`
/// tokens is at its end after `k` advances exactly when `k >= len` (an empty one at once).
pub proof fn lemma_advances_reach_end(pos: nat, len: nat, k: nat)
    requires
        pos <= len,
    ensures
        pos_after_advances(pos, len, k) == if pos + k < len { pos + k } else { len },
        (pos_after_advances(0, len, k) >= len) == (k >= len),
    decreases k,
{
    if k > 0 {
        lemma_advances_reach_end(if pos >= len { pos } else { pos + 1 }, len, (k - 1) as nat);
        lemma_advances_reach_end(if 0 >= len { 0 } else { 1 }, len, (k - 1) as nat);
    }
}

} // verus!
