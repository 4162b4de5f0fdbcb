use vstd::prelude::*;

use crate::text::{push_char, push_str, str_eq};

verus! {

/// What `str::to_lowercase` gives for a string: its Unicode lowercase mapping, in which a
/// character's image may depend on its neighbours (a final sigma).
pub uninterp spec fn str_lowercase(s: Seq<char>) -> Seq<char>;

/// `str::to_lowercase`.
#[verifier::external_body]
fn to_lowercase(s: &str) -> (r: String)
    ensures
        r@ == str_lowercase(s@),
{
    s.to_lowercase()
}

/// Whether `c` has the Unicode `Uppercase` property, as `char::is_uppercase` tells.
pub uninterp spec fn char_is_uppercase(c: char) -> bool;

/// `char::is_uppercase`.
#[verifier::external_body]
fn is_uppercase(c: char) -> (r: bool)
    ensures
        r == char_is_uppercase(c),
{
    c.is_uppercase()
}

/// The characters that `char::to_lowercase` yields for `c`.
pub uninterp spec fn char_lowercase(c: char) -> Seq<char>;

/// `char::to_lowercase`, its characters collected into a string.
#[verifier::external_body]
fn to_lowercase_char(c: char) -> (r: String)
    ensures
        r@ == char_lowercase(c),
{
    c.to_lowercase().collect()
}

/// `char::to_ascii_uppercase`: `a` to `z` become `A` to `Z`; every other character stays.
pub open spec fn ascii_upper(c: char) -> char {
    if 'a' <= c <= 'z' {
        ((c as u32) - 32) as char
    } else {
        c
    }
}

fn to_ascii_upper(c: char) -> (r: char)
    ensures
        r == ascii_upper(c),
{
    if 'a' <= c && c <= 'z' {
        let b: u8 = (c as u32 - 32) as u8;
        b as char
    } else {
        c
    }
}

/// What the character `c` at position `i` of a name becomes: an uppercase character starts
/// a new word, which `sep` separates from the one before (but at the very start); words are
/// in lower case, or, when `scream` holds, every character is in upper case.
pub open spec fn cased_char(i: int, c: char, sep: char, scream: bool) -> Seq<char> {
    if char_is_uppercase(c) {
        (if i != 0 { seq![sep] } else { Seq::empty() }) + if scream { seq![c] } else { char_lowercase(c) }
    } else if scream {
        seq![ascii_upper(c)]
    } else {
        seq![c]
    }
}

/// The name `name`, each of its characters cased in turn (see `cased_char`).
pub open spec fn cased(name: Seq<char>, sep: char, scream: bool) -> Seq<char>
    decreases name.len(),
{
    if name.len() == 0 {
        Seq::empty()
    } else {
        cased(name.drop_last(), sep, scream) + cased_char(name.len() - 1, name.last(), sep, scream)
    }
}

/// The name `name` in the case `case` names: `lowercase`, `snake_case`, `kebab-case` or
/// `SCREAMING_SNAKE_CASE`; any other case leaves the name as it is.
pub open spec fn spec_convert_case(name: Seq<char>, case: Seq<char>) -> Seq<char> {
    if case == "lowercase"@ {
        str_lowercase(name)
    } else if case == "snake_case"@ {
        cased(name, '_', false)
    } else if case == "kebab-case"@ {
        cased(name, '-', false)
    } else if case == "SCREAMING_SNAKE_CASE"@ {
        cased(name, '_', true)
    } else {
        name
    }
}

/// Cases every character of `name` (see `cased`).
fn case_words(name: &str, sep: char, scream: bool) -> (r: String)
    ensures
        r@ == cased(name@, sep, scream),
{
    let n = name.unicode_len();
    let mut out = String::new();
    let mut i: usize = 0;
    while i < n
        invariant
            n == name@.len(),
            i <= n,
            out@ == cased(name@.take(i as int), sep, scream),
        decreases n - i,
    {
        let ch = name.get_char(i);
        proof {
            assert(name@.take(i + 1).drop_last() =~= name@.take(i as int));
            assert(name@.take(i + 1).last() == ch);
        }
        if is_uppercase(ch) {
            if i != 0 {
                push_char(&mut out, sep);
            }
            if scream {
                push_char(&mut out, ch);
            } else {
                let lower = to_lowercase_char(ch);
                push_str(&mut out, lower.as_str());
            }
        } else if scream {
            push_char(&mut out, to_ascii_upper(ch));
        } else {
            push_char(&mut out, ch);
        }
        proof {
            let prev = cased(name@.take(i as int), sep, scream);
            assert(out@ =~= prev + cased_char(i as int, ch, sep, scream));
        }
        i = i + 1;
    }
    proof {
        assert(name@.take(n as int) =~= name@);
    }
    out
}

/// Writes the name `name` in the case `case` (see `spec_convert_case`).
pub fn convert_case(name: &str, case: &str) -> (r: String)
    ensures
        r@ == spec_convert_case(name@, case@),
{
    if str_eq(case, "lowercase") {
        to_lowercase(name)
    } else if str_eq(case, "snake_case") {
        case_words(name, '_', false)
    } else if str_eq(case, "kebab-case") {
        case_words(name, '-', false)
    } else if str_eq(case, "SCREAMING_SNAKE_CASE") {
        case_words(name, '_', true)
    } else {
        name.to_owned()
    }
}

} // verus!
