use vstd::prelude::*;

use crate::text::{decimal, push_char, push_decimal, push_str};

verus! {

/// The place in the compiler's own source where an error was raised.
#[derive(Debug)]
pub struct ErrorSource {
    pub line: u32,
    pub column: u32,
    pub file: &'static str,
}

impl ErrorSource {
    pub open spec fn spec_text(&self) -> Seq<char> {
        self.file@ + seq![':'] + decimal(self.line as nat) + seq![':'] + decimal(self.column as nat)
    }

    /// The place as `file:line:column`.
    pub fn text(&self) -> (r: String)
        ensures
            r@ == self.spec_text(),
    {
        let mut s = String::new();
        push_str(&mut s, self.file);
        push_char(&mut s, ':');
        push_decimal(&mut s, self.line as usize);
        push_char(&mut s, ':');
        push_decimal(&mut s, self.column as usize);
        proof {
            assert(s@ =~= self.spec_text());
        }
        s
    }
}

} // verus!
