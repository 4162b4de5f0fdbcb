use vstd::prelude::*;

use crate::text::str_eq;

verus! {

#[derive(Debug, Clone, Copy, PartialEq, Eq, Structural)]
pub enum Visibility {
    /// `pub`
    Public,
    /// `pub(this)` or nothing
    Private,
    /// `pub(inherit)`
    Inherit,
    /// `pub(module)`
    Module,
}

impl Default for Visibility {
    fn default() -> (r: Visibility)
        ensures
            r == Visibility::Private,
    {
        Visibility::Private
    }
}

/// The visibility that a scope written as `pub(scope)` denotes.
pub open spec fn spec_scoped(scope: Seq<char>) -> Option<Visibility> {
    if scope == "inherit"@ {
        Some(Visibility::Inherit)
    } else if scope == "module"@ {
        Some(Visibility::Module)
    } else if scope == ""@ || scope == "this"@ {
        Some(Visibility::Private)
    } else {
        None
    }
}

impl Visibility {
    /// The visibility of `pub(scope)`: `inherit`, `module`, `this` or nothing; any other scope is refused.
    pub fn scoped(scope: &str) -> (r: Option<Visibility>)
        ensures
            r == spec_scoped(scope@),
    {
        if str_eq(scope, "inherit") {
            Some(Visibility::Inherit)
        } else if str_eq(scope, "module") {
            Some(Visibility::Module)
        } else if str_eq(scope, "") || str_eq(scope, "this") {
            Some(Visibility::Private)
        } else {
            None
        }
    }

    pub open spec fn spec_name(self) -> Seq<char> {
        match self {
            Visibility::Public => "public"@,
            Visibility::Private => "private"@,
            Visibility::Inherit => "inherit"@,
            Visibility::Module => "module"@,
        }
    }

    /// The snake-case name of the visibility.
    pub fn name(&self) -> (r: &'static str)
        ensures
            r@ == self.spec_name(),
    {
        match self {
            Visibility::Public => "public",
            Visibility::Private => "private",
            Visibility::Inherit => "inherit",
            Visibility::Module => "module",
        }
    }
}

} // verus!
