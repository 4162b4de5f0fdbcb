use vstd::prelude::*;

use crate::ast::expressions::LiteralKind;
use crate::ast::types::TypeKind;
use crate::diagnostic::{DiagnosticMessage, DiagnosticReport, DiagnosticResult};
use crate::parser::parse_expr::parse_radix;
use crate::parser::radix_value;
use crate::semantics::diagnostics::AnalyzerDiagnostic;
use crate::semantics::hir::expressions::{HirLiteralFloatKind, HirLiteralIntegerKind, HirLiteralKind};
use crate::span::{Cursor, Span};

verus! {

/// The states of a reader of decimal floating-point text: before anything, after a sign,
/// in the integer digits, at a point after digits, at a point before any digit, in the
/// fraction digits, after the exponent letter, after the exponent's sign, in the exponent
/// digits; and the state of text that cannot be a number.
pub open spec fn float_step(state: u8, c: char) -> u8 {
    let digit = '0' <= c && c <= '9';
    let sign = c == '+' || c == '-';
    let exp = c == 'e' || c == 'E';
    if state == 0 {
        if digit { 2 } else if sign { 1 } else if c == '.' { 4 } else { 9 }
    } else if state == 1 {
        if digit { 2 } else if c == '.' { 4 } else { 9 }
    } else if state == 2 {
        if digit { 2 } else if c == '.' { 3 } else if exp { 6 } else { 9 }
    } else if state == 3 {
        if digit { 5 } else if exp { 6 } else { 9 }
    } else if state == 4 {
        if digit { 5 } else { 9 }
    } else if state == 5 {
        if digit { 5 } else if exp { 6 } else { 9 }
    } else if state == 6 {
        if digit { 8 } else if sign { 7 } else { 9 }
    } else if state == 7 || state == 8 {
        if digit { 8 } else { 9 }
    } else {
        9
    }
}

pub open spec fn float_run(s: Seq<char>) -> u8
    decreases s.len(),
{
    if s.len() == 0 {
        0
    } else {
        float_step(float_run(s.drop_last()), s.last())
    }
}

/// `u` is the word `lower` (whose upper-case form is `upper`), each letter in either case.
pub open spec fn matches_word(u: Seq<char>, lower: Seq<char>, upper: Seq<char>) -> bool {
    &&& u.len() == lower.len()
    &&& lower.len() == upper.len()
    &&& forall|i: int| 0 <= i < u.len() ==> u[i] == lower[i] || u[i] == upper[i]
}

/// `inf`, `infinity` or `nan`, in any case.
pub open spec fn float_word(u: Seq<char>) -> bool {
    ||| matches_word(u, "inf"@, "INF"@)
    ||| matches_word(u, "infinity"@, "INFINITY"@)
    ||| matches_word(u, "nan"@, "NAN"@)
}

/// Text that `f64`'s `FromStr` reads: an optional sign, then digits with an optional point
/// and at least one digit, then an optional exponent; or an optional sign and one of the
/// words `inf`, `infinity` and `nan`, in any case.
pub open spec fn float_text(s: Seq<char>) -> bool {
    let r = float_run(s);
    ||| r == 2 || r == 3 || r == 5 || r == 8
    ||| float_word(if s.len() > 0 && (s[0] == '+' || s[0] == '-') { s.drop_first() } else { s })
}

fn float_step_exec(state: u8, c: char) -> (r: u8)
    ensures
        r == float_step(state, c),
{
    let digit = '0' <= c && c <= '9';
    let sign = c == '+' || c == '-';
    let exp = c == 'e' || c == 'E';
    if state == 0 {
        if digit { 2 } else if sign { 1 } else if c == '.' { 4 } else { 9 }
    } else if state == 1 {
        if digit { 2 } else if c == '.' { 4 } else { 9 }
    } else if state == 2 {
        if digit { 2 } else if c == '.' { 3 } else if exp { 6 } else { 9 }
    } else if state == 3 {
        if digit { 5 } else if exp { 6 } else { 9 }
    } else if state == 4 {
        if digit { 5 } else { 9 }
    } else if state == 5 {
        if digit { 5 } else if exp { 6 } else { 9 }
    } else if state == 6 {
        if digit { 8 } else if sign { 7 } else { 9 }
    } else if state == 7 || state == 8 {
        if digit { 8 } else { 9 }
    } else {
        9
    }
}

/// Whether the characters of `text` from `from` on are the word `lower`, each letter in
/// either case.
fn word_matches(text: &str, from: usize, lower: &str, upper: &str) -> (r: bool)
    requires
        from <= text@.len(),
    ensures
        r == matches_word(text@.skip(from as int), lower@, upper@),
{
    let ghost u = text@.skip(from as int);
    let n = text.unicode_len();
    let m = lower.unicode_len();
    if n - from != m || upper.unicode_len() != m {
        return false;
    }
    let mut i: usize = 0;
    while i < m
        invariant
            n == text@.len(),
            m == lower@.len(),
            m == upper@.len(),
            n - from == m,
            from <= n,
            i <= m,
            u == text@.skip(from as int),
            forall|j: int| 0 <= j < i ==> u[j] == lower@[j] || u[j] == upper@[j],
        decreases m - i,
    {
        let c = text.get_char(from + i);
        assert(u[i as int] == c);
        if c != lower.get_char(i) && c != upper.get_char(i) {
            return false;
        }
        i = i + 1;
    }
    true
}

/// Whether `text` is floating-point text as `f64`'s `FromStr` reads it.
pub fn is_float_text(text: &str) -> (r: bool)
    ensures
        r == float_text(text@),
{
    let n = text.unicode_len();
    let mut state: u8 = 0;
    let mut i: usize = 0;
    while i < n
        invariant
            n == text@.len(),
            i <= n,
            state == float_run(text@.take(i as int)),
        decreases n - i,
    {
        assert(text@.take(i + 1).drop_last() =~= text@.take(i as int));
        state = float_step_exec(state, text.get_char(i));
        i = i + 1;
    }
    assert(text@.take(n as int) =~= text@);
    if state == 2 || state == 3 || state == 5 || state == 8 {
        return true;
    }
    let from: usize = if n > 0 && (text.get_char(0) == '+' || text.get_char(0) == '-') { 1 } else { 0 };
    let ghost u = if text@.len() > 0 && (text@[0] == '+' || text@[0] == '-') { text@.drop_first() } else { text@ };
    assert(u =~= text@.skip(from as int));
    word_matches(text, from, "inf", "INF") || word_matches(text, from, "infinity", "INFINITY") || word_matches(
        text,
        from,
        "nan",
        "NAN",
    )
}

/// What a literal of `kind` written `value` is worth, if it can be read: an integer is read
/// as `u64` (an optional `+`, then decimal digits) and kept as `u32` where it fits; a float
/// must be floating-point text; a boolean is `true` or `false`.
pub open spec fn literal_value(kind: LiteralKind, value: Seq<char>, r: HirLiteralKind) -> bool {
    match kind {
        LiteralKind::Integer => match radix_value(value, 10) {
            Some(v) => if v <= u32::MAX {
                r == HirLiteralKind::Integer(HirLiteralIntegerKind::UInt32(v as u32))
            } else {
                r == HirLiteralKind::Integer(HirLiteralIntegerKind::UInt64(v as u64))
            },
            None => false,
        },
        LiteralKind::Float => float_text(value) && (r matches HirLiteralKind::Float(HirLiteralFloatKind::Float64(t)) && t@ == value),
        LiteralKind::String => r matches HirLiteralKind::String(t) && t@ == value,
        LiteralKind::Boolean => (value == "true"@ && r == HirLiteralKind::Boolean(true)) || (value == "false"@ && r
            == HirLiteralKind::Boolean(false)),
    }
}

/// Whether a literal of `kind` written `value` can be read.
pub open spec fn literal_readable(kind: LiteralKind, value: Seq<char>) -> bool {
    match kind {
        LiteralKind::Integer => radix_value(value, 10) is Some,
        LiteralKind::Float => float_text(value),
        LiteralKind::String => true,
        LiteralKind::Boolean => value == "true"@ || value == "false"@,
    }
}

/// The type a literal of `kind` is reported as when it cannot be read.
pub open spec fn literal_report_type(kind: LiteralKind) -> TypeKind {
    match kind {
        LiteralKind::Integer => TypeKind::UInt64,
        LiteralKind::Float => TypeKind::Float64,
        _ => TypeKind::Bool,
    }
}

/// `d` reports that `value` is no valid literal of type `ty`, at no place in the source.
pub open spec fn invalid_literal_report(d: DiagnosticReport, ty: TypeKind, value: Seq<char>) -> bool {
    &&& d.message matches DiagnosticMessage::Analyzer(AnalyzerDiagnostic::InvalidLiteralValue(t, v)) && t == ty
        && v@ == value
    &&& d.span.source_id.spec_value() == u32::MAX
    &&& d.span.start == 0
    &&& d.span.end == 0
    &&& d.cursor == Cursor { line: 0, column: 0 }
}

fn invalid_literal(ty: TypeKind, value: &str) -> (r: DiagnosticReport)
    ensures
        invalid_literal_report(r, ty, value@),
{
    DiagnosticReport {
        span: Span::void(),
        cursor: Cursor::zero(),
        message: DiagnosticMessage::Analyzer(AnalyzerDiagnostic::InvalidLiteralValue(ty, value.to_string())),
    }
}

/// The value of a literal of `kind` written `value`.
pub fn ast_to_hir_literal(kind: &LiteralKind, value: &str) -> (r: DiagnosticResult<HirLiteralKind>)
    ensures
        literal_readable(*kind, value@) ==> (r matches Ok(l) && literal_value(*kind, value@, l)),
        !literal_readable(*kind, value@) ==> (r matches Err(d) && invalid_literal_report(
            d,
            literal_report_type(*kind),
            value@,
        )),
{
    match kind {
        LiteralKind::Integer => {
            proof {
                assert(value@.skip(0) =~= value@);
            }
            match parse_radix(value, 0, 10) {
                Some(parsed) => {
                    if parsed <= 0xffff_ffffu64 {
                        Ok(HirLiteralKind::Integer(HirLiteralIntegerKind::UInt32(parsed as u32)))
                    } else {
                        Ok(HirLiteralKind::Integer(HirLiteralIntegerKind::UInt64(parsed)))
                    }
                },
                None => Err(invalid_literal(TypeKind::UInt64, value)),
            }
        },
        LiteralKind::Float => {
            if is_float_text(value) {
                Ok(HirLiteralKind::Float(HirLiteralFloatKind::Float64(value.to_string())))
            } else {
                Err(invalid_literal(TypeKind::Float64, value))
            }
        },
        LiteralKind::String => Ok(HirLiteralKind::String(value.to_string())),
        LiteralKind::Boolean => {
            proof {
                reveal_strlit("true");
                reveal_strlit("false");
            }
            if crate::text::str_eq(value, "true") {
                Ok(HirLiteralKind::Boolean(true))
            } else if crate::text::str_eq(value, "false") {
                Ok(HirLiteralKind::Boolean(false))
            } else {
                Err(invalid_literal(TypeKind::Bool, value))
            }
        },
    }
}

} // verus!
