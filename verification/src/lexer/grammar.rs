//! The lexical grammar: what the lexer produces from a byte sequence, stated
//! as a function of the source and the scanning position.
use vstd::prelude::*;

use crate::diagnostic::{DiagnosticMessage, DiagnosticReport};
use crate::lexer::diagnostics::LexerDiagnostic;
use crate::lexer::tokens::kind::{spec_keyword, KeywordKind, LiteralKind, OperatorKind, PunctuationKind, TokenKind};
use crate::span::{CodeSourceId, Cursor, Span};

verus! {

/// A scanning position: the current token starts at `start` and has `length` bytes so far;
/// `line` and `column` are the cursor after those bytes.
pub struct LexPos {
    pub start: nat,
    pub length: nat,
    pub line: nat,
    pub column: nat,
}

/// A token as the grammar describes it.
pub struct SpecToken {
    pub kind: TokenKind,
    pub lexeme: Seq<char>,
    pub cursor: Cursor,
    pub span: Span,
}

/// What one scanning step yields.
pub enum ScanStep {
    /// Whitespace, a line break or a comment.
    Skip,
    Token(SpecToken),
    Fail(DiagnosticReport),
}

pub open spec fn index(p: LexPos) -> nat {
    p.start + p.length
}

/// The position is within the source, and the cursor is not ahead of it.
pub open spec fn pos_wf(s: Seq<u8>, p: LexPos) -> bool {
    &&& index(p) <= s.len()
    &&& p.line <= index(p) + 1
    &&& p.column <= index(p) + 1
}

pub open spec fn char_at(s: Seq<u8>, i: int) -> Option<char> {
    if 0 <= i < s.len() {
        Some(s[i] as char)
    } else {
        None
    }
}

pub open spec fn cur(s: Seq<u8>, p: LexPos) -> Option<char> {
    char_at(s, index(p) as int)
}

/// The character after the current one, or `'\0'` past the end.
pub open spec fn peek(s: Seq<u8>, p: LexPos) -> char {
    match char_at(s, (index(p) + 1) as int) {
        Some(c) => c,
        None => '\0',
    }
}

pub open spec fn at_end(s: Seq<u8>, p: LexPos) -> bool {
    index(p) >= s.len()
}

/// Takes the current character into the token (nothing at the end).
pub open spec fn adv(s: Seq<u8>, p: LexPos) -> LexPos {
    if index(p) < s.len() {
        LexPos { length: p.length + 1, column: p.column + 1, ..p }
    } else {
        p
    }
}

pub open spec fn newline(p: LexPos) -> LexPos {
    LexPos { line: p.line + 1, column: 1, ..p }
}

/// Starts a new token where the previous one ended.
pub open spec fn restart(p: LexPos) -> LexPos {
    LexPos { start: p.start + p.length, length: 0, ..p }
}

pub open spec fn is_digit(c: char) -> bool {
    '0' <= c && c <= '9'
}

pub open spec fn is_alpha(c: char) -> bool {
    ('a' <= c && c <= 'z') || ('A' <= c && c <= 'Z')
}

pub open spec fn is_ident_char(c: char) -> bool {
    is_alpha(c) || is_digit(c) || c == '_'
}

/// The letters that may follow a leading `0` to name a number radix.
pub open spec fn is_radix_letter(c: char) -> bool {
    c == 'b' || c == 'o' || c == 'x'
}

/// The current token's text, one character per byte.
pub open spec fn lexeme(s: Seq<u8>, p: LexPos) -> Seq<char> {
    s.subrange(p.start as int, index(p) as int).map_values(|b: u8| b as char)
}

pub open spec fn make_token(p: LexPos, kind: TokenKind, lex: Seq<char>) -> SpecToken {
    let width = vstd::utf8::encode_utf8(lex).len() as usize;
    SpecToken {
        kind,
        lexeme: lex,
        cursor: Cursor {
            line: p.line as usize,
            column: (if p.column >= width { p.column - width } else { 0 }) as usize,
        },
        span: Span {
            source_id: CodeSourceId::spec_zero(),
            start: p.start as u32,
            end: index(p) as u32,
        },
    }
}

pub open spec fn make_diagnostic(p: LexPos, d: LexerDiagnostic) -> DiagnosticReport {
    DiagnosticReport {
        message: DiagnosticMessage::Lexer(d),
        span: Span { source_id: CodeSourceId::spec_zero(), start: p.start as u32, end: index(p) as u32 },
        cursor: Cursor { line: p.line as usize, column: p.column as usize },
    }
}

/// Takes the current character if it is `c`.
pub open spec fn eat(s: Seq<u8>, p: LexPos, c: char) -> (LexPos, bool) {
    if cur(s, p) == Some(c) {
        (adv(s, p), true)
    } else {
        (p, false)
    }
}

pub open spec fn remaining(s: Seq<u8>, p: LexPos) -> nat {
    if index(p) <= s.len() {
        (s.len() - index(p)) as nat
    } else {
        0
    }
}

/// Takes every digit from the current character on.
pub open spec fn digits(s: Seq<u8>, p: LexPos) -> LexPos
    decreases remaining(s, p),
{
    match cur(s, p) {
        Some(c) => if is_digit(c) {
            digits(s, adv(s, p))
        } else {
            p
        },
        None => p,
    }
}

/// Takes every identifier character from the current character on.
pub open spec fn ident_chars(s: Seq<u8>, p: LexPos) -> LexPos
    decreases remaining(s, p),
{
    match cur(s, p) {
        Some(c) => if is_ident_char(c) {
            ident_chars(s, adv(s, p))
        } else {
            p
        },
        None => p,
    }
}

/// Takes everything up to and including the next line break.
pub open spec fn comment(s: Seq<u8>, p: LexPos) -> LexPos
    decreases remaining(s, p),
{
    match cur(s, p) {
        Some(c) => if c == '\n' {
            newline(adv(s, p))
        } else {
            comment(s, adv(s, p))
        },
        None => p,
    }
}

/// The character that an escape sequence `\c` stands for.
pub open spec fn unescape(c: char) -> char {
    if c == 'n' {
        '\n'
    } else if c == 't' {
        '\t'
    } else if c == 'r' {
        '\r'
    } else {
        c
    }
}

/// The body of a string literal: stops at the terminator (not taken) or at the end.
pub open spec fn string_body(s: Seq<u8>, p: LexPos, term: char, escaped: bool, acc: Seq<char>) -> (LexPos, Seq<char>)
    decreases remaining(s, p),
{
    match cur(s, p) {
        None => (p, acc),
        Some(c) => if escaped {
            string_body(s, adv(s, p), term, false, acc.push(unescape(c)))
        } else if c == '\\' {
            string_body(s, adv(s, p), term, true, acc)
        } else if c == term {
            (p, acc)
        } else {
            string_body(s, adv(s, p), term, false, acc.push(c))
        },
    }
}

/// A string literal whose opening quote `term` was taken.
pub open spec fn string_token(s: Seq<u8>, p: LexPos, term: char) -> (LexPos, ScanStep) {
    let (p1, body) = string_body(s, p, term, false, seq![]);
    if at_end(s, p1) {
        (p1, ScanStep::Fail(make_diagnostic(p1, LexerDiagnostic::UnterminatedString)))
    } else {
        let p2 = adv(s, p1);
        (p2, ScanStep::Token(make_token(p2, TokenKind::Literal(LiteralKind::String), body)))
    }
}

/// A number whose first digit was taken.
pub open spec fn number_token(s: Seq<u8>, p: LexPos) -> (LexPos, ScanStep) {
    let radix = cur(s, p) == Some('0') && is_alpha(peek(s, p));
    if radix && !is_radix_letter(peek(s, p)) {
        (p, ScanStep::Fail(make_diagnostic(p, LexerDiagnostic::UnexpectedRadixIdentifier(peek(s, p)))))
    } else {
        let p1 = if cur(s, p) == Some('0') {
            if radix {
                adv(s, adv(s, p))
            } else {
                adv(s, p)
            }
        } else {
            p
        };
        let p2 = digits(s, p1);
        let decimal = cur(s, p2) == Some('.') && is_digit(peek(s, p2));
        let p3 = if decimal {
            digits(s, adv(s, p2))
        } else {
            p2
        };
        let kind = if decimal {
            LiteralKind::Decimal
        } else {
            LiteralKind::Integer
        };
        (p3, ScanStep::Token(make_token(p3, TokenKind::Literal(kind), lexeme(s, p3))))
    }
}

/// An identifier, keyword or boolean whose first character was taken.
pub open spec fn word_token(s: Seq<u8>, p: LexPos) -> (LexPos, ScanStep) {
    let p1 = ident_chars(s, p);
    let w = lexeme(s, p1);
    let kind = if w == "true"@ || w == "false"@ {
        TokenKind::Literal(LiteralKind::Boolean)
    } else {
        match spec_keyword(w) {
            Some(k) => TokenKind::Keyword(k),
            None => TokenKind::Identifier,
        }
    };
    (p1, ScanStep::Token(make_token(p1, kind, w)))
}

/// An operator that is `one`, or `two` when followed by `=`.
pub open spec fn with_equals(s: Seq<u8>, p: LexPos, one: OperatorKind, two: OperatorKind) -> (LexPos, TokenKind) {
    let (p1, e) = eat(s, p, '=');
    (p1, TokenKind::Operator(if e { two } else { one }))
}

/// A punctuation or operator token whose first character `c` was taken.
pub open spec fn symbol_token(s: Seq<u8>, p: LexPos, c: char) -> Option<(LexPos, TokenKind)> {
    if c == ',' {
        Some((p, TokenKind::Punctuation(PunctuationKind::Comma)))
    } else if c == ';' {
        Some((p, TokenKind::Punctuation(PunctuationKind::Semicolon)))
    } else if c == ':' {
        Some((p, TokenKind::Punctuation(PunctuationKind::Colon)))
    } else if c == '.' {
        Some((p, TokenKind::Punctuation(PunctuationKind::Dot)))
    } else if c == '?' {
        Some((p, TokenKind::Punctuation(PunctuationKind::QuestionMark)))
    } else if c == '(' {
        Some((p, TokenKind::Punctuation(PunctuationKind::LeftParen)))
    } else if c == ')' {
        Some((p, TokenKind::Punctuation(PunctuationKind::RightParen)))
    } else if c == '{' {
        Some((p, TokenKind::Punctuation(PunctuationKind::LeftBrace)))
    } else if c == '}' {
        Some((p, TokenKind::Punctuation(PunctuationKind::RightBrace)))
    } else if c == '[' {
        Some((p, TokenKind::Punctuation(PunctuationKind::LeftBracket)))
    } else if c == ']' {
        Some((p, TokenKind::Punctuation(PunctuationKind::RightBracket)))
    } else if c == '+' {
        Some(with_equals(s, p, OperatorKind::Plus, OperatorKind::PlusEquals))
    } else if c == '-' {
        Some(with_equals(s, p, OperatorKind::Minus, OperatorKind::MinusEquals))
    } else if c == '*' {
        Some(with_equals(s, p, OperatorKind::Asterisk, OperatorKind::AsteriskEquals))
    } else if c == '/' {
        Some(with_equals(s, p, OperatorKind::Slash, OperatorKind::SlashEquals))
    } else if c == '%' {
        Some(with_equals(s, p, OperatorKind::Percent, OperatorKind::PercentEquals))
    } else if c == '=' {
        Some(with_equals(s, p, OperatorKind::Equals, OperatorKind::EqualsEquals))
    } else if c == '!' {
        Some(with_equals(s, p, OperatorKind::Not, OperatorKind::NotEquals))
    } else if c == '^' {
        Some(with_equals(s, p, OperatorKind::BitwiseXor, OperatorKind::BitwiseXorEquals))
    } else if c == '~' {
        Some((p, TokenKind::Operator(OperatorKind::BitwiseNot)))
    } else if c == '>' {
        let (p1, e) = eat(s, p, '=');
        if e {
            Some((p1, TokenKind::Operator(OperatorKind::GreaterThanOrEqual)))
        } else {
            let (p2, e2) = eat(s, p, '>');
            if e2 {
                Some(with_equals(s, p2, OperatorKind::ShiftRight, OperatorKind::ShiftRightEquals))
            } else {
                Some((p, TokenKind::Operator(OperatorKind::GreaterThan)))
            }
        }
    } else if c == '<' {
        let (p1, e) = eat(s, p, '=');
        if e {
            Some((p1, TokenKind::Operator(OperatorKind::LessThanOrEqual)))
        } else {
            let (p2, e2) = eat(s, p, '<');
            if e2 {
                Some(with_equals(s, p2, OperatorKind::ShiftLeft, OperatorKind::ShiftLeftEquals))
            } else {
                Some((p, TokenKind::Operator(OperatorKind::LessThan)))
            }
        }
    } else if c == '&' {
        let (p1, e) = eat(s, p, '&');
        if e {
            Some(with_equals(s, p1, OperatorKind::And, OperatorKind::AndEquals))
        } else {
            Some(with_equals(s, p, OperatorKind::BitwiseAnd, OperatorKind::BitwiseAndEquals))
        }
    } else if c == '|' {
        let (p1, e) = eat(s, p, '|');
        if e {
            Some(with_equals(s, p1, OperatorKind::Or, OperatorKind::OrEquals))
        } else {
            Some(with_equals(s, p, OperatorKind::BitwiseOr, OperatorKind::BitwiseOrEquals))
        }
    } else {
        None
    }
}

/// One scanning step from the end of the previous token.
pub open spec fn scan_step(s: Seq<u8>, p0: LexPos) -> (LexPos, ScanStep) {
    let p = adv(s, restart(p0));
    let c = match cur(s, restart(p0)) {
        Some(c) => c,
        None => '\0',
    };
    if c == '\n' {
        (newline(p), ScanStep::Skip)
    } else if c == ' ' || c == '\0' || c == '\t' || c == '\r' {
        (p, ScanStep::Skip)
    } else if c == '/' && cur(s, p) == Some('/') {
        (comment(s, adv(s, p)), ScanStep::Skip)
    } else if c == '\'' || c == '"' {
        string_token(s, p, c)
    } else if is_digit(c) {
        number_token(s, p)
    } else if is_alpha(c) || c == '_' {
        word_token(s, p)
    } else {
        match symbol_token(s, p, c) {
            Some((p1, kind)) => (p1, ScanStep::Token(make_token(p1, kind, lexeme(s, p1)))),
            None => (p, ScanStep::Fail(make_diagnostic(p, LexerDiagnostic::UnexpectedCharacter(c)))),
        }
    }
}

/// Scans from `p` to the end of the source: the tokens, the diagnostics, and the final position.
pub open spec fn scan_from(s: Seq<u8>, p: LexPos) -> (Seq<SpecToken>, Seq<DiagnosticReport>, LexPos)
    decreases remaining(s, p),
{
    if at_end(s, p) {
        (seq![], seq![], p)
    } else {
        let (p1, step) = scan_step(s, p);
        if remaining(s, p1) < remaining(s, p) {
            let (ts, ds, pe) = scan_from(s, p1);
            match step {
                ScanStep::Skip => (ts, ds, pe),
                ScanStep::Token(t) => (seq![t] + ts, ds, pe),
                ScanStep::Fail(d) => (ts, seq![d] + ds, pe),
            }
        } else {
            (seq![], seq![], p1)
        }
    }
}

/// Where scanning starts: the first byte, line 1, column 1.
pub open spec fn start_pos() -> LexPos {
    LexPos { start: 0, length: 0, line: 1, column: 1 }
}

/// The tokens of a source (ending with the end-of-file token) and the diagnostics of scanning it.
pub open spec fn lex(s: Seq<u8>) -> (Seq<SpecToken>, Seq<DiagnosticReport>) {
    let (ts, ds, pe) = scan_from(s, start_pos());
    (ts.push(make_token(pe, TokenKind::EndOfFile, lexeme(s, pe))), ds)
}

/// The text of each operator, as the operator kinds document it.
pub open spec fn operator_text(o: OperatorKind) -> Seq<char> {
    match o {
        OperatorKind::Plus => seq!['+'],
        OperatorKind::Minus => seq!['-'],
        OperatorKind::Asterisk => seq!['*'],
        OperatorKind::Slash => seq!['/'],
        OperatorKind::Percent => seq!['%'],
        OperatorKind::Equals => seq!['='],
        OperatorKind::EqualsEquals => seq!['=', '='],
        OperatorKind::NotEquals => seq!['!', '='],
        OperatorKind::GreaterThan => seq!['>'],
        OperatorKind::LessThan => seq!['<'],
        OperatorKind::GreaterThanOrEqual => seq!['>', '='],
        OperatorKind::LessThanOrEqual => seq!['<', '='],
        OperatorKind::And => seq!['&', '&'],
        OperatorKind::Or => seq!['|', '|'],
        OperatorKind::Not => seq!['!'],
        OperatorKind::BitwiseNot => seq!['~'],
        OperatorKind::BitwiseAnd => seq!['&'],
        OperatorKind::BitwiseOr => seq!['|'],
        OperatorKind::BitwiseXor => seq!['^'],
        OperatorKind::ShiftLeft => seq!['<', '<'],
        OperatorKind::ShiftRight => seq!['>', '>'],
        OperatorKind::PlusEquals => seq!['+', '='],
        OperatorKind::MinusEquals => seq!['-', '='],
        OperatorKind::AsteriskEquals => seq!['*', '='],
        OperatorKind::SlashEquals => seq!['/', '='],
        OperatorKind::PercentEquals => seq!['%', '='],
        OperatorKind::AndEquals => seq!['&', '&', '='],
        OperatorKind::OrEquals => seq!['|', '|', '='],
        OperatorKind::BitwiseAndEquals => seq!['&', '='],
        OperatorKind::BitwiseOrEquals => seq!['|', '='],
        OperatorKind::BitwiseXorEquals => seq!['^', '='],
        OperatorKind::ShiftLeftEquals => seq!['<', '<', '='],
        OperatorKind::ShiftRightEquals => seq!['>', '>', '='],
    }
}

/// The text of a token that starts at `q.start` is the source's bytes from there.
proof fn lemma_lexeme_chars(s: Seq<u8>, q: LexPos)
    requires
        q.start <= index(q) <= s.len(),
    ensures
        lexeme(s, q).len() == index(q) - q.start,
        forall|k: int| 0 <= k < index(q) - q.start ==> #[trigger] lexeme(s, q)[k] == s[q.start + k] as char,
{
}

/// A scanning step that gives an operator token gives it exactly the text of that operator:
/// the kind of an operator token and its text agree.
pub proof fn lemma_step_operator_text(s: Seq<u8>, p0: LexPos)
    requires
        pos_wf(s, p0),
        !at_end(s, p0),
    ensures
        scan_step(s, p0).1 matches ScanStep::Token(tk) ==> (tk.kind matches TokenKind::Operator(o) ==> tk.lexeme
            == operator_text(o)),
{
    lemma_scan_step(s, p0);
    let r = restart(p0);
    let st = index(p0);
    let p = adv(s, r);
    let c = s[st as int] as char;
    assert(cur(s, r) == Some(c));
    let step = scan_step(s, p0);
    if c != '\n' && c != ' ' && c != '\0' && c != '\t' && c != '\r' && !(c == '/' && cur(s, p) == Some('/'))
        && c != '\'' && c != '"' && !is_digit(c) && !is_alpha(c) && c != '_' {
        if let Some((p1, kind)) = symbol_token(s, p, c) {
            assert(p1.start == st);
            lemma_lexeme_chars(s, p1);
            let w = lexeme(s, p1);
            if let TokenKind::Operator(o) = kind {
                assert(w[0] == c);
                if index(p1) > st + 1 {
                    assert(w[1] == s[st + 1int] as char);
                }
                if index(p1) > st + 2 {
                    assert(w[2] == s[st + 2int] as char);
                }
                assert(w =~= operator_text(o));
            }
        }
    }
}

/// Every operator token of a source, from a position on, has its operator's text.
pub proof fn lemma_scan_operator_text(s: Seq<u8>, p: LexPos)
    requires
        pos_wf(s, p),
    ensures
        forall|i: int|
            0 <= i < scan_from(s, p).0.len() ==> ((#[trigger] scan_from(s, p).0[i]).kind matches TokenKind::Operator(
                o,
            ) ==> scan_from(s, p).0[i].lexeme == operator_text(o)),
    decreases remaining(s, p),
{
    if !at_end(s, p) {
        lemma_scan_step(s, p);
        lemma_step_operator_text(s, p);
        let (p1, step) = scan_step(s, p);
        lemma_scan_operator_text(s, p1);
        let rest = scan_from(s, p1).0;
        if let ScanStep::Token(tk) = step {
            assert forall|i: int| 0 <= i < scan_from(s, p).0.len() implies ((#[trigger] scan_from(s, p).0[i]).kind matches TokenKind::Operator(
                o,
            ) ==> scan_from(s, p).0[i].lexeme == operator_text(o)) by {
                if i > 0 {
                    assert(scan_from(s, p).0[i] == rest[i - 1]);
                }
            }
        }
    }
}

/// Every operator token the lexer gives has the text of its operator: `>=` is always
/// greater-or-equal, `%` always the remainder operator, and so on.
pub proof fn lemma_lex_operator_text(s: Seq<u8>)
    ensures
        forall|i: int|
            0 <= i < lex(s).0.len() ==> ((#[trigger] lex(s).0[i]).kind matches TokenKind::Operator(o) ==> lex(
                s,
            ).0[i].lexeme == operator_text(o)),
{
    lemma_scan_operator_text(s, start_pos());
    let (ts, ds, pe) = scan_from(s, start_pos());
    assert forall|i: int| 0 <= i < lex(s).0.len() implies ((#[trigger] lex(s).0[i]).kind matches TokenKind::Operator(
        o,
    ) ==> lex(s).0[i].lexeme == operator_text(o)) by {
        if i < ts.len() {
            assert(lex(s).0[i] == ts[i]);
        }
    }
}

// Each part of a scanning step keeps the position well formed and never moves back.

pub proof fn lemma_adv(s: Seq<u8>, p: LexPos)
    requires
        pos_wf(s, p),
    ensures
        pos_wf(s, adv(s, p)),
        adv(s, p).start == p.start,
        index(adv(s, p)) >= index(p),
        !at_end(s, p) ==> index(adv(s, p)) == index(p) + 1,
{
}

pub proof fn lemma_digits(s: Seq<u8>, p: LexPos)
    requires
        pos_wf(s, p),
    ensures
        pos_wf(s, digits(s, p)),
        digits(s, p).start == p.start,
        index(digits(s, p)) >= index(p),
    decreases remaining(s, p),
{
    if let Some(c) = cur(s, p) {
        if is_digit(c) {
            lemma_digits(s, adv(s, p));
        }
    }
}

pub proof fn lemma_ident_chars(s: Seq<u8>, p: LexPos)
    requires
        pos_wf(s, p),
    ensures
        pos_wf(s, ident_chars(s, p)),
        ident_chars(s, p).start == p.start,
        index(ident_chars(s, p)) >= index(p),
    decreases remaining(s, p),
{
    if let Some(c) = cur(s, p) {
        if is_ident_char(c) {
            lemma_ident_chars(s, adv(s, p));
        }
    }
}

pub proof fn lemma_comment(s: Seq<u8>, p: LexPos)
    requires
        pos_wf(s, p),
    ensures
        pos_wf(s, comment(s, p)),
        comment(s, p).start == p.start,
        index(comment(s, p)) >= index(p),
    decreases remaining(s, p),
{
    if let Some(c) = cur(s, p) {
        if c != '\n' {
            lemma_comment(s, adv(s, p));
        }
    }
}

pub proof fn lemma_string_body(s: Seq<u8>, p: LexPos, term: char, escaped: bool, acc: Seq<char>)
    requires
        pos_wf(s, p),
    ensures
        pos_wf(s, string_body(s, p, term, escaped, acc).0),
        string_body(s, p, term, escaped, acc).0.start == p.start,
        index(string_body(s, p, term, escaped, acc).0) >= index(p),
    decreases remaining(s, p),
{
    if let Some(c) = cur(s, p) {
        if escaped {
            lemma_string_body(s, adv(s, p), term, false, acc.push(unescape(c)));
        } else if c == '\\' {
            lemma_string_body(s, adv(s, p), term, true, acc);
        } else if c != term {
            lemma_string_body(s, adv(s, p), term, false, acc.push(c));
        }
    }
}

/// A scanning step keeps the position well formed and always takes at least one byte.
pub proof fn lemma_scan_step(s: Seq<u8>, p0: LexPos)
    requires
        pos_wf(s, p0),
        !at_end(s, p0),
    ensures
        pos_wf(s, scan_step(s, p0).0),
        index(scan_step(s, p0).0) > index(p0),
        scan_step(s, p0).0.start == index(p0),
        remaining(s, scan_step(s, p0).0) < remaining(s, p0),
{
    let p = adv(s, restart(p0));
    lemma_adv(s, restart(p0));
    lemma_adv(s, p);
    lemma_adv(s, adv(s, p));
    let c = match cur(s, restart(p0)) {
        Some(c) => c,
        None => '\0',
    };
    lemma_comment(s, adv(s, p));
    if c == '\'' || c == '"' {
        lemma_string_body(s, p, c, false, seq![]);
        lemma_adv(s, string_body(s, p, c, false, seq![]).0);
    }
    lemma_ident_chars(s, p);
    let radix = cur(s, p) == Some('0') && is_alpha(peek(s, p));
    let p1 = if cur(s, p) == Some('0') {
        if radix {
            adv(s, adv(s, p))
        } else {
            adv(s, p)
        }
    } else {
        p
    };
    lemma_digits(s, p1);
    let p2 = digits(s, p1);
    lemma_adv(s, p2);
    lemma_digits(s, adv(s, p2));
    let (pa, ea) = eat(s, p, '=');
    lemma_adv(s, pa);
    let (pb, eb) = eat(s, p, '>');
    lemma_adv(s, pb);
    let (pc, ec) = eat(s, p, '<');
    lemma_adv(s, pc);
    let (pd, ed) = eat(s, p, '&');
    lemma_adv(s, pd);
    let (pe, ee) = eat(s, p, '|');
    lemma_adv(s, pe);
}

} // verus!
