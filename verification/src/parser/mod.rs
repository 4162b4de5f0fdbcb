pub mod diagnostics;
pub mod grammar;
pub mod parse_expr;
pub mod parse_stmt;

use vstd::prelude::*;

use crate::ast::expressions::{ConditionalBranch, Expression, ExpressionKind};
use crate::ast::statements::{Statement, StatementKind};
use crate::ast::Ast;
use crate::diagnostic::reporter::Reporter;
use crate::diagnostic::store::DiagnosticEntry;
use crate::diagnostic::{DiagnosticMessage, DiagnosticReport, DiagnosticResult};
use crate::lexer::tokens::kind::{KeywordKind, LiteralKind, PunctuationKind, TokenKind};
use crate::lexer::tokens::{Token, TokenStream};
use crate::parser::diagnostics::ParserDiagnostic;
use crate::parser::grammar::{
    br_outcome, conforms, fails_as, Fail, filed_all, join, lemma_filed_none, lemma_filed_trans, lemma_scope_join, lemma_semi,
    rep_matches, scope_join, semi_reps, sk_jumps, sk_semi, sp_branch, sp_expression, sp_program, sp_scope,
    sp_stmt,
    st_conforms, tok, Prog, Rep, ScopeR, Sk, StR, StSk,
};
use crate::parser::parse_expr::{grouped, stmt_grouped};
use crate::span::{Cursor, Span};
use crate::text::str_eq;

verus! {

/// The value of the digits `d` in base `base`, if every character is a digit of that base.
pub open spec fn digit_value(c: char) -> nat {
    if '0' <= c && c <= '9' {
        (c as nat - '0' as nat) as nat
    } else if 'a' <= c && c <= 'z' {
        (c as nat - 'a' as nat + 10) as nat
    } else if 'A' <= c && c <= 'Z' {
        (c as nat - 'A' as nat + 10) as nat
    } else {
        36
    }
}

/// The value of `d` read as digits in base `base` (most significant first), if every
/// character is a digit of that base.
pub open spec fn digits_value(d: Seq<char>, base: nat) -> Option<nat>
    decreases d.len(),
{
    if d.len() == 0 {
        Some(0)
    } else {
        match digits_value(d.drop_last(), base) {
            Some(v) => if digit_value(d.last()) < base {
                Some(v * base + digit_value(d.last()))
            } else {
                None
            },
            None => None,
        }
    }
}

/// What `u64::from_str_radix` gives for `text`: an optional `+`, then at least one digit
/// of the base, with a value that fits in 64 bits.
pub open spec fn radix_value(text: Seq<char>, base: nat) -> Option<nat> {
    let d = if text.len() > 0 && text[0] == '+' { text.drop_first() } else { text };
    if d.len() == 0 {
        None
    } else {
        match digits_value(d, base) {
            Some(v) => if v <= u64::MAX { Some(v) } else { None },
            None => None,
        }
    }
}

pub open spec fn radix_base(c: char) -> Option<nat> {
    if c == 'b' {
        Some(2)
    } else if c == 'o' {
        Some(8)
    } else if c == 'x' {
        Some(16)
    } else {
        None
    }
}

/// An integer literal written with a radix prefix: `0` and a letter.
pub open spec fn has_radix_prefix(lexeme: Seq<char>) -> bool {
    lexeme.len() >= 2 && lexeme[0] == '0' && !('0' <= lexeme[1] && lexeme[1] <= '9')
}

/// The value of an integer literal with a radix prefix, if it names a radix and its digits fit.
pub open spec fn radix_literal_value(lexeme: Seq<char>) -> Option<nat> {
    match radix_base(lexeme[1]) {
        Some(base) => radix_value(lexeme.skip(2), base),
        None => None,
    }
}

/// A token the parser can read: no class declaration (those are not implemented).
pub open spec fn token_parseable(t: Token) -> bool {
    t.kind != TokenKind::Keyword(KeywordKind::Class)
}

/// A token that is no radix-prefixed integer literal whose value cannot be read.
pub open spec fn radix_ok(t: Token) -> bool {
    (t.kind == TokenKind::Literal(LiteralKind::Integer) && has_radix_prefix(t.lexeme@)) ==> radix_literal_value(
        t.lexeme@,
    ) is Some
}

/// No token from `p` on is a radix literal that cannot be read.
pub open spec fn radix_valid_from(toks: Seq<Token>, p: nat) -> bool {
    forall|j: int| p <= j < toks.len() ==> radix_ok(#[trigger] toks[j])
}

/// No radix literal that cannot be read stands after a `{` that stands at `p` or later.
/// Reading stops short of such a literal and reports it without moving on; the statement
/// loop of a scope then reads and reports it again and again, without end.
pub open spec fn braces_safe_from(toks: Seq<Token>, p: nat) -> bool {
    forall|i: int, j: int|
        #![trigger toks[i], toks[j]]
        p <= i < j < toks.len() && toks[i].kind == TokenKind::Punctuation(PunctuationKind::LeftBrace) ==> radix_ok(
            toks[j],
        )
}

/// The statements `sts` and the value `value` of a scope are those the skeletons describe.
pub open spec fn scope_parts(
    t: Seq<Token>,
    sts: Seq<Statement>,
    value: Option<Box<Expression>>,
    sks: Seq<StSk>,
    v: Option<Sk>,
) -> bool {
    &&& sts.len() == sks.len()
    &&& forall|i: int| 0 <= i < sks.len() ==> st_conforms(t, #[trigger] sts[i], sks[i])
    &&& match v {
        None => value is None,
        Some(x) => value matches Some(b) && conforms(t, *b, x),
    }
}

/// Reading a scope's statements from `p` on (its `{` spanning `span0`), from `o` to `n`,
/// gave `span`, `sts` and `value` as the scope grammar says: the statements and the value it
/// describes, the span up to the `}` where it was read, the position after it, and its
/// reports filed in order.
pub open spec fn scope_read(
    o: LumaParser,
    n: LumaParser,
    p: nat,
    span0: Span,
    span: Span,
    sts: Seq<Statement>,
    value: Option<Box<Expression>>,
) -> bool {
    let t = o.toks();
    match sp_scope(t, p, false) {
        ScopeR::Done(sks, v, reps, pos, closed) => {
            &&& scope_parts(t, sts, value, sks, v)
            &&& span == (if closed { span0.spec_merged(tok(t, pos).span) } else { span0 })
            &&& n.ppos() == (if closed { pos + 1 } else { pos })
            &&& filed_all(o.spec_reporter(), n.spec_reporter(), t, reps)
        },
        ScopeR::Beyond => true,
    }
}

/// A report of `d`, which `rep` stands for, filed after the entries of `a`, gives `b`.
pub proof fn lemma_filed_one(a: Reporter, b: Reporter, t: Seq<Token>, d: DiagnosticReport, rep: Rep)
    requires
        reporter_grew(a, b),
        b.spec_entries().len() == a.spec_entries().len() + 1,
        b.spec_entries().last().diagnostic == d,
        rep_matches(t, d, rep),
    ensures
        filed_all(a, b, t, seq![rep]),
{
    assert(b.spec_entries()[a.spec_entries().len() as int] == b.spec_entries().last());
}

/// Reading `a` and `b`, then `c` and `d`, then `p`, is reading `a + c` and `b + d`, then `p`.
pub proof fn lemma_join(a: Seq<StSk>, b: Seq<Rep>, c: Seq<StSk>, d: Seq<Rep>, p: Prog)
    ensures
        join(a, b, join(c, d, p)) == join(a + c, b + d, p),
{
    if let Prog::Done(x, y) = p {
        assert(a + (c + x) =~= (a + c) + x);
        assert(b + (d + y) =~= (b + d) + y);
    }
}

/// Past a `{` at `p`, no radix literal that cannot be read follows.
pub proof fn lemma_after_brace(toks: Seq<Token>, p: nat)
    requires
        braces_safe_from(toks, p),
        p < toks.len(),
        toks[p as int].kind == TokenKind::Punctuation(PunctuationKind::LeftBrace),
    ensures
        radix_valid_from(toks, p + 1),
{
    assert forall|j: int| p + 1 <= j < toks.len() implies radix_ok(#[trigger] toks[j]) by {
        assert(toks[p as int].kind == TokenKind::Punctuation(PunctuationKind::LeftBrace));
    }
}

/// Where every radix literal can be read, so can those after a `{`.
pub proof fn lemma_valid_is_safe(toks: Seq<Token>, p: nat)
    requires
        radix_valid_from(toks, p),
    ensures
        braces_safe_from(toks, p),
{
}

/// A token sequence the parser can read: it ends with the end-of-file token (as the
/// lexer's output does) and every token is parseable.
pub open spec fn tokens_parseable(toks: Seq<Token>) -> bool {
    &&& toks.len() > 0
    &&& toks.last().kind == TokenKind::EndOfFile
    &&& forall|i: int| 0 <= i < toks.len() ==> token_parseable(#[trigger] toks[i])
}

/// `b` holds every entry of `a`, in the same places, under the same name and source.
pub open spec fn reporter_grew(a: Reporter, b: Reporter) -> bool {
    &&& b.spec_name() == a.spec_name()
    &&& b.spec_source() == a.spec_source()
    &&& a.spec_entries().len() <= b.spec_entries().len()
    &&& forall|i: int| 0 <= i < a.spec_entries().len() ==> #[trigger] b.spec_entries()[i] == a.spec_entries()[i]
}

/// The report `message` at the token `t`.
pub open spec fn report_at(t: Token, message: ParserDiagnostic) -> DiagnosticReport {
    DiagnosticReport { message: DiagnosticMessage::Parser(message), span: t.span, cursor: t.cursor }
}

/// Whether a statement needs a semicolon after it: every statement but an `if`, a scope
/// without a value, a function whose body is a scope, and the end of the file.
pub open spec fn semi_required(statement: Statement) -> bool {
    match statement.kind {
        StatementKind::Expression { inner } => !(inner.kind is If || (inner.kind matches ExpressionKind::Scope {
            block_value,
            ..
        } && block_value is None)),
        StatementKind::FuncDecl(decl) => match decl.body {
            None => true,
            Some(body) => !(body.kind is Scope),
        },
        StatementKind::EndOfFile => false,
        _ => true,
    }
}

/// Reads the statements of a token stream.
pub struct LumaParser {
    stream: TokenStream,
    reporter: Reporter,
}

impl LumaParser {
    pub closed spec fn spec_stream(self) -> TokenStream {
        self.stream
    }

    pub closed spec fn spec_reporter(self) -> Reporter {
        self.reporter
    }

    pub open spec fn toks(self) -> Seq<Token> {
        self.spec_stream().spec_tokens()
    }

    pub open spec fn ppos(self) -> nat {
        self.spec_stream().spec_pos()
    }

    pub open spec fn remaining(self) -> nat {
        if self.ppos() <= self.toks().len() {
            (self.toks().len() - self.ppos()) as nat
        } else {
            0
        }
    }

    pub open spec fn wf(self) -> bool {
        &&& tokens_parseable(self.toks())
        &&& braces_safe_from(self.toks(), self.ppos())
        &&& self.ppos() <= self.toks().len()
    }

    /// Reading from `old` to `self` moved on, unless it was at the end of the stream or
    /// stopped at a radix literal that cannot be read.
    pub open spec fn progressed(self, old: LumaParser) -> bool {
        old.stream_at_end() || self.ppos() > old.ppos() || !radix_valid_from(old.toks(), old.ppos())
    }

    pub open spec fn cur(self) -> Token {
        self.spec_stream().spec_current()
    }

    pub open spec fn stream_at_end(self) -> bool {
        self.ppos() >= self.toks().len()
    }

    /// At the end of the stream, or at an end-of-file token.
    pub open spec fn at_end(self) -> bool {
        self.stream_at_end() || self.cur().kind == TokenKind::EndOfFile
    }

    /// `self` is `old` with the read position moved forward and reports only added.
    pub open spec fn moved_on(self, old: LumaParser) -> bool {
        &&& self.wf()
        &&& self.toks() == old.toks()
        &&& self.ppos() >= old.ppos()
        &&& reporter_grew(old.spec_reporter(), self.spec_reporter())
    }

    /// A parser at the start of `stream`, reporting as `parent:parser`.
    pub fn new(stream: TokenStream, reporter: &Reporter) -> (r: Self)
        requires
            tokens_parseable(stream.spec_tokens()),
            braces_safe_from(stream.spec_tokens(), 0),
            stream.spec_pos() == 0,
        ensures
            r.wf(),
            r.toks() == stream.spec_tokens(),
            r.ppos() == 0,
            r.spec_reporter().spec_name() == reporter.spec_name() + ":"@ + "parser"@,
            r.spec_reporter().spec_entries().len() == 0,
    {
        LumaParser { stream, reporter: reporter.collector("parser") }
    }

    /// The reporter that collected the diagnostics of parsing.
    pub fn into_reporter(self) -> (r: Reporter)
        ensures
            r == self.spec_reporter(),
    {
        self.reporter
    }

    /// At the end of the stream the current token is the end-of-file token.
    pub proof fn lemma_end_is_eof(&self)
        requires
            self.wf(),
        ensures
            self.stream_at_end() ==> self.cur().kind == TokenKind::EndOfFile,
            self.cur().kind != TokenKind::EndOfFile ==> !self.stream_at_end(),
            token_parseable(self.cur()),
    {
        if self.ppos() < self.toks().len() {
            assert(token_parseable(self.toks()[self.ppos() as int]));
        } else {
            assert(token_parseable(self.toks()[self.toks().len() - 1]));
        }
    }

    /// Files `report` with the parser's reporter.
    pub fn report(&mut self, report: DiagnosticReport)
        requires
            old(self).wf(),
        ensures
            final(self).moved_on(*old(self)),
            final(self).ppos() == old(self).ppos(),
            final(self).spec_reporter().spec_entries().len() == old(self).spec_reporter().spec_entries().len() + 1,
            final(self).spec_reporter().spec_entries().last().diagnostic == report,
    {
        let ghost before = self.reporter.spec_entries();
        self.reporter.report(report);
        proof {
            assert forall|i: int| 0 <= i < before.len() implies #[trigger] self.reporter.spec_entries()[i] == before[i] by {
                assert(self.reporter.spec_entries().drop_last()[i] == before[i]);
            }
        }
    }

    /// Reads statements up to the end of the file. A statement that cannot be read is
    /// reported, and reading goes on after it.
    #[verifier::rlimit(80)]
    pub fn parse(&mut self) -> (r: Ast)
        requires
            old(self).wf(),
            radix_valid_from(old(self).toks(), old(self).ppos()),
        ensures
            final(self).moved_on(*old(self)),
            final(self).at_end(),
            forall|i: int| 0 <= i < r.statements@.len() ==> stmt_grouped(#[trigger] r.statements@[i]),
            match sp_program(old(self).toks(), old(self).ppos()) {
                Prog::Done(sks, reps) => {
                    &&& r.statements@.len() == sks.len()
                    &&& forall|i: int|
                        0 <= i < sks.len() ==> st_conforms(old(self).toks(), #[trigger] r.statements@[i], sks[i])
                    &&& final(self).spec_reporter().spec_entries().len() == old(self).spec_reporter().spec_entries().len()
                        + reps.len()
                    &&& forall|k: int|
                        0 <= k < reps.len() ==> rep_matches(
                            old(self).toks(),
                            (#[trigger] final(self).spec_reporter().spec_entries()[old(self).spec_reporter().spec_entries().len()
                                + k]).diagnostic,
                            reps[k],
                        )
                },
                Prog::Beyond => true,
            },
    {
        let ghost t = self.toks();
        let ghost p0 = self.ppos();
        let ghost r0 = self.spec_reporter();
        let ghost mut sks: Seq<StSk> = Seq::empty();
        let ghost mut reps: Seq<Rep> = Seq::empty();
        let first = self.current().span;
        let mut statements: Vec<Statement> = Vec::new();
        proof {
            assert(join(sks, reps, sp_program(t, p0)) =~~= sp_program(t, p0));
            lemma_filed_none(r0, t);
        }
        while !self.is_at_end()
            invariant
                self.moved_on(*old(self)),
                radix_valid_from(self.toks(), self.ppos()),
                forall|i: int| 0 <= i < statements@.len() ==> stmt_grouped(#[trigger] statements@[i]),
                t == old(self).toks(),
                p0 == old(self).ppos(),
                r0 == old(self).spec_reporter(),
                sp_program(t, p0) is Beyond || {
                    &&& sp_program(t, p0) == join(sks, reps, sp_program(t, self.ppos()))
                    &&& statements@.len() == sks.len()
                    &&& forall|i: int| 0 <= i < sks.len() ==> st_conforms(t, #[trigger] statements@[i], sks[i])
                    &&& filed_all(r0, self.spec_reporter(), t, reps)
                },
            ensures
                self.moved_on(*old(self)),
                self.at_end(),
                forall|i: int| 0 <= i < statements@.len() ==> stmt_grouped(#[trigger] statements@[i]),
                sp_program(t, p0) is Beyond || {
                    &&& sp_program(t, p0) == join(sks, reps, sp_program(t, self.ppos()))
                    &&& statements@.len() == sks.len()
                    &&& forall|i: int| 0 <= i < sks.len() ==> st_conforms(t, #[trigger] statements@[i], sks[i])
                    &&& filed_all(r0, self.spec_reporter(), t, reps)
                },
            decreases self.remaining(),
        {
            let ghost p = self.ppos();
            let ghost before = *self;
            let ghost s = sp_stmt(t, p);
            let ghost q = s.pos;
            match self.parse_statement(None) {
                Ok(statement) => {
                    let is_end = matches!(statement.kind, StatementKind::EndOfFile);
                    let ghost st = statement;
                    statements.push(statement);
                    proof {
                        if !(sp_program(t, p0) is Beyond) && !is_end {
                            match s.r {
                                StR::Tree(sk) => {
                                    let r1 = s.reps + semi_reps(t, q, sk_semi(sk));
                                    assert(sp_program(t, p) == join(seq![sk], r1, sp_program(t, self.ppos())));
                                    lemma_join(sks, reps, seq![sk], r1, sp_program(t, self.ppos()));
                                    lemma_filed_trans(r0, before.spec_reporter(), self.spec_reporter(), t, reps, r1);
                                    assert(sks.push(sk) =~= sks + seq![sk]);
                                    sks = sks.push(sk);
                                    reps = reps + r1;
                                },
                                _ => {
                                    assert(sp_program(t, p) is Beyond);
                                },
                            }
                        }
                    }
                    if is_end {
                        break;
                    }
                },
                Err(err) => {
                    let ghost mid = self.spec_reporter();
                    let ghost d = err;
                    self.report(err);
                    proof {
                        if !(sp_program(t, p0) is Beyond) {
                            if let StR::Fail(f) = s.r {
                                let r1: Seq<Rep> = s.reps.push(Rep::Failed(f));
                                assert(sp_program(t, p) == join(Seq::empty(), r1, sp_program(t, self.ppos())));
                                lemma_join(sks, reps, Seq::empty(), r1, sp_program(t, self.ppos()));
                                lemma_filed_one(mid, self.spec_reporter(), t, d, Rep::Failed(f));
                                lemma_filed_trans(before.spec_reporter(), mid, self.spec_reporter(), t, s.reps, seq![Rep::Failed(f)]);
                                assert(s.reps + seq![Rep::Failed(f)] =~= r1);
                                lemma_filed_trans(r0, before.spec_reporter(), self.spec_reporter(), t, reps, r1);
                                assert(sks + Seq::<StSk>::empty() =~= sks);
                                reps = reps + r1;
                            } else {
                                assert(sp_program(t, p) is Beyond);
                            }
                        }
                    }
                },
            }
        }
        proof {
            if !(sp_program(t, p0) is Beyond) {
                assert(sks + Seq::<StSk>::empty() =~= sks);
                assert(reps + Seq::<Rep>::empty() =~= reps);
            }
        }
        let last = self.current().span;
        Ast::new(first.merged(&last), statements)
    }

    /// Reads a braced scope: its statements and, where the last statement is an expression
    /// without a semicolon, the value of the scope.
    pub fn consume_scope(&mut self) -> (r: DiagnosticResult<Expression>)
        requires
            old(self).wf(),
        ensures
            final(self).moved_on(*old(self)),
            old(self).cur().kind != TokenKind::Punctuation(PunctuationKind::LeftBrace) ==> {
                &&& r == Err::<Expression, DiagnosticReport>(
                    report_at(old(self).cur(), ParserDiagnostic::ExpectedToken(
                        TokenKind::Punctuation(PunctuationKind::LeftBrace),
                        old(self).cur().kind,
                    )),
                )
                &&& final(self).ppos() == old(self).ppos()
            },
            old(self).cur().kind == TokenKind::Punctuation(PunctuationKind::LeftBrace) ==> (r matches Ok(
                e,
            ) && e.kind is Scope && e.cursor == old(self).cur().cursor && scope_read(
                *old(self),
                *final(self),
                old(self).ppos() + 1,
                old(self).cur().span,
                e.span,
                e.kind->Scope_statements@,
                e.kind->Scope_block_value,
            )),
            r matches Ok(e) ==> grouped(e),
    {
        proof {
            self.lemma_end_is_eof();
        }
        let (span0, cursor) = self.consume(TokenKind::Punctuation(PunctuationKind::LeftBrace))?.pos();
        proof {
            lemma_after_brace(self.toks(), (self.ppos() - 1) as nat);
        }
        let (statements, value, span) = self.scope_body(span0);
        Ok(Expression { cursor, span, kind: ExpressionKind::Scope { statements, block_value: value } })
    }

    /// The statements of a scope whose `{` was read, up to and including its `}`.
    #[verifier::rlimit(100)]
    pub(crate) fn scope_body(&mut self, span0: Span) -> (r: (Vec<Statement>, Option<Box<Expression>>, Span))
        requires
            old(self).wf(),
            old(self).ppos() > 0,
            radix_valid_from(old(self).toks(), old(self).ppos()),
        ensures
            final(self).moved_on(*old(self)),
            forall|i: int| 0 <= i < r.0@.len() ==> stmt_grouped(#[trigger] r.0@[i]),
            r.1 matches Some(v) ==> grouped(*v),
            scope_read(*old(self), *final(self), old(self).ppos(), span0, r.2, r.0@, r.1),
        decreases old(self).remaining(), 40nat,
    {
        let ghost t = self.toks();
        let ghost p0 = self.ppos();
        let ghost r0 = self.spec_reporter();
        let ghost mut sks: Seq<StSk> = Seq::empty();
        let ghost mut reps: Seq<Rep> = Seq::empty();
        let ghost mut vsk: Option<Sk> = None;
        let mut span = span0;
        let mut statements: Vec<Statement> = Vec::new();
        let mut value: Option<Box<Expression>> = None;
        let mut had_return = false;
        proof {
            assert(scope_join(sks, vsk, reps, sp_scope(t, p0, false)) =~~= sp_scope(t, p0, false));
            lemma_filed_none(r0, t);
        }
        while !self.is_at_end()
            invariant_except_break
                sp_scope(t, p0, false) is Beyond || {
                    &&& sp_scope(t, p0, false) == scope_join(sks, vsk, reps, sp_scope(t, self.ppos(), had_return))
                    &&& span == span0
                    &&& scope_parts(t, statements@, value, sks, vsk)
                    &&& filed_all(r0, self.spec_reporter(), t, reps)
                },
            invariant
                self.moved_on(*old(self)),
                forall|i: int| 0 <= i < statements@.len() ==> stmt_grouped(#[trigger] statements@[i]),
                value matches Some(v) ==> grouped(*v),
                self.ppos() > 0,
                radix_valid_from(self.toks(), self.ppos()),
                self.remaining() <= old(self).remaining(),
                t == old(self).toks(),
                p0 == old(self).ppos(),
                r0 == old(self).spec_reporter(),
            ensures
                self.moved_on(*old(self)),
                forall|i: int| 0 <= i < statements@.len() ==> stmt_grouped(#[trigger] statements@[i]),
                value matches Some(v) ==> grouped(*v),
                t == old(self).toks(),
                p0 == old(self).ppos(),
                r0 == old(self).spec_reporter(),
                sp_scope(t, p0, false) is Beyond || {
                    &&& sp_scope(t, p0, false) matches ScopeR::Done(a, w, b, pos, closed) && a == sks && w == vsk && b
                        == reps && span == (if closed {
                        span0.spec_merged(tok(t, pos).span)
                    } else {
                        span0
                    }) && self.ppos() == (if closed {
                        pos + 1
                    } else {
                        pos
                    })
                    &&& scope_parts(t, statements@, value, sks, vsk)
                    &&& filed_all(r0, self.spec_reporter(), t, reps)
                },
            decreases self.remaining(),
        {
            if self.check(TokenKind::Punctuation(PunctuationKind::RightBrace)) {
                let ghost q = self.ppos();
                let rbrace = self.advance().span;
                span = span.merged(&rbrace);
                proof {
                    if !(sp_scope(t, p0, false) is Beyond) {
                        assert(sks + Seq::<StSk>::empty() =~= sks);
                        assert(reps + Seq::<Rep>::empty() =~= reps);
                        assert(sp_scope(t, q, had_return) == ScopeR::Done(Seq::empty(), None, Seq::empty(), q, true));
                    }
                }
                break;
            }
            let ghost p = self.ppos();
            let ghost before = *self;
            let ghost s = sp_stmt(t, p);
            let ghost q = s.pos;
            let ghost had0 = had_return;
            match self.parse_statement(Some(had_return)) {
                Ok(statement) => {
                    let prev_is_semi = self.previous().kind == TokenKind::Punctuation(PunctuationKind::Semicolon);
                    let is_implicit_return = self.is_semi_required(&statement) && !prev_is_semi;
                    let is_control_flow = matches!(
                        statement.kind,
                        StatementKind::Break { .. } | StatementKind::Continue { .. } | StatementKind::Return { .. }
                    );
                    if is_control_flow || is_implicit_return {
                        had_return = true;
                    }
                    let ghost st = statement;
                    if is_implicit_return {
                        if let StatementKind::Expression { inner } = statement.kind {
                            value = Some(Box::new(inner));
                        }
                    } else {
                        statements.push(statement);
                    }
                    proof {
                        if !(sp_scope(t, p0, false) is Beyond) {
                            match s.r {
                                StR::Tree(sk) => {
                                    lemma_semi(t, st, sk);
                                    let r1 = s.reps + semi_reps(t, q, had0);
                                    let implicit = sk_semi(sk) && tok(t, (self.ppos() - 1) as nat).kind
                                        != TokenKind::Punctuation(PunctuationKind::Semicolon);
                                    let v1: Option<Sk> = if implicit {
                                        match sk {
                                            StSk::Expr(x, _) => Some(x),
                                            _ => None,
                                        }
                                    } else {
                                        None
                                    };
                                    let k1: Seq<StSk> = if implicit { Seq::empty() } else { seq![sk] };
                                    assert(implicit == is_implicit_return);
                                    assert(sk_jumps(sk) == is_control_flow);
                                    assert(sp_scope(t, p, had0) == scope_join(k1, v1, r1, sp_scope(t, self.ppos(), had_return)));
                                    lemma_scope_join(sks, vsk, reps, k1, v1, r1, sp_scope(t, self.ppos(), had_return));
                                    lemma_filed_trans(r0, before.spec_reporter(), self.spec_reporter(), t, reps, r1);
                                    assert(scope_parts(t, statements@, value, sks + k1, if v1 is Some { v1 } else { vsk }));
                                    sks = sks + k1;
                                    vsk = if v1 is Some { v1 } else { vsk };
                                    reps = reps + r1;
                                },
                                _ => {
                                    assert(sp_scope(t, p, had0) is Beyond);
                                },
                            }
                        }
                    }
                },
                Err(err) => {
                    let ghost mid = self.spec_reporter();
                    let ghost d = err;
                    self.report(err);
                    proof {
                        if !(sp_scope(t, p0, false) is Beyond) {
                            if let StR::Fail(f) = s.r {
                                let r1: Seq<Rep> = s.reps.push(Rep::Failed(f));
                                assert(sp_scope(t, p, had0) == scope_join(Seq::empty(), None, r1, sp_scope(t, self.ppos(), had_return)));
                                lemma_scope_join(sks, vsk, reps, Seq::empty(), None, r1, sp_scope(t, self.ppos(), had_return));
                                lemma_filed_one(mid, self.spec_reporter(), t, d, Rep::Failed(f));
                                lemma_filed_trans(before.spec_reporter(), mid, self.spec_reporter(), t, s.reps, seq![Rep::Failed(f)]);
                                assert(s.reps + seq![Rep::Failed(f)] =~= r1);
                                lemma_filed_trans(r0, before.spec_reporter(), self.spec_reporter(), t, reps, r1);
                                assert(sks + Seq::<StSk>::empty() =~= sks);
                                reps = reps + r1;
                            } else {
                                assert(sp_scope(t, p, had0) is Beyond);
                            }
                        }
                    }
                },
            }
        }
        proof {
            if !(sp_scope(t, p0, false) is Beyond) && !(sp_scope(t, p0, false) matches ScopeR::Done(_, _, _, _, true)) {
                assert(sks + Seq::<StSk>::empty() =~= sks);
                assert(reps + Seq::<Rep>::empty() =~= reps);
            }
        }
        (statements, value, span)
    }

    /// Whether `statement` needs a semicolon after it.
    pub fn is_semi_required(&mut self, statement: &Statement) -> (r: bool)
        ensures
            r == semi_required(*statement),
            *final(self) == *old(self),
    {
        match &statement.kind {
            StatementKind::Expression { inner } => !(matches!(&inner.kind, ExpressionKind::If { .. })
                || matches!(&inner.kind, ExpressionKind::Scope { block_value: None, .. })),
            StatementKind::FuncDecl(decl) => match &decl.body {
                None => true,
                Some(body) => !matches!(&body.kind, ExpressionKind::Scope { .. }),
            },
            StatementKind::EndOfFile => false,
            _ => true,
        }
    }

    /// A condition, then a `{`-braced body.
    pub(crate) fn parse_conditional_branch(&mut self) -> (r: DiagnosticResult<ConditionalBranch>)
        requires
            old(self).wf(),
        ensures
            final(self).moved_on(*old(self)),
            final(self).progressed(*old(self)),
            r matches Ok(b) ==> grouped(b.condition) && grouped(b.body),
            br_outcome(*old(self), *final(self), r, sp_branch(old(self).toks(), old(self).ppos())),
        decreases old(self).remaining(), 21nat,
    {
        let ghost t = self.toks();
        let ghost r0 = self.spec_reporter();
        let ghost c = sp_expression(t, self.ppos());
        let condition = self.parse_expression()?;
        self.expect(TokenKind::Punctuation(PunctuationKind::LeftBrace))?;
        let ghost rb = self.spec_reporter();
        let ghost b = sp_expression(t, self.ppos());
        let body = match self.parse_expression() {
            Ok(x) => x,
            Err(d) => {
                proof {
                    if !(c.r is Beyond) && !(b.r is Beyond) {
                        lemma_filed_trans(r0, rb, self.spec_reporter(), t, c.reps, b.reps);
                    }
                }
                return Err(d);
            },
        };
        proof {
            if !(c.r is Beyond) && !(b.r is Beyond) {
                lemma_filed_trans(r0, rb, self.spec_reporter(), t, c.reps, b.reps);
            }
        }
        Ok(ConditionalBranch { condition, body })
    }

    /// Takes the current token if it is the identifier `identifier` (a contextual keyword).
    pub(crate) fn expect_lexeme(&mut self, identifier: &str) -> (r: DiagnosticResult<Span>)
        requires
            old(self).wf(),
        ensures
            final(self).moved_on(*old(self)),
            old(self).cur().kind == TokenKind::Identifier && old(self).cur().lexeme@ == identifier@ ==> {
                &&& r == Ok::<Span, DiagnosticReport>(old(self).cur().span)
                &&& final(self).ppos() == old(self).ppos() + 1
                &&& final(self).spec_reporter() == old(self).spec_reporter()
            },
            !(old(self).cur().kind == TokenKind::Identifier && old(self).cur().lexeme@ == identifier@) ==> {
                &&& r matches Err(d) && fails_as(old(self).toks(), d, Fail::Keyword(identifier@, old(self).ppos()))
                &&& *final(self) == *old(self)
            },
    {
        let current = self.current();
        if current.kind == TokenKind::Identifier && str_eq(current.lexeme.as_str(), identifier) {
            let span = current.span;
            self.advance();
            return Ok(span);
        }
        Err(self.diagnostic(ParserDiagnostic::ExpectedSpecialKeyword(identifier.to_owned())))
    }

    pub(crate) fn current(&self) -> (r: &Token)
        requires
            self.wf(),
        ensures
            *r == self.cur(),
    {
        self.stream.current()
    }

    pub(crate) fn lookahead(&self) -> (r: &Token)
        requires
            self.wf(),
        ensures
            *r == self.spec_stream().token_at(self.ppos() + 1),
    {
        self.stream.lookahead_by(1)
    }

    pub(crate) fn advance(&mut self) -> (r: &Token)
        requires
            old(self).wf(),
        ensures
            final(self).moved_on(*old(self)),
            final(self).spec_reporter() == old(self).spec_reporter(),
            final(self).ppos() == if old(self).stream_at_end() { old(self).ppos() } else { old(self).ppos() + 1 },
            *r == old(self).cur(),
    {
        self.stream.advance()
    }

    pub(crate) fn previous(&self) -> (r: &Token)
        requires
            self.wf(),
            self.ppos() > 0,
        ensures
            *r == self.toks()[self.ppos() - 1],
    {
        self.stream.previous()
    }

    pub(crate) fn is_at_end(&self) -> (r: bool)
        requires
            self.wf(),
        ensures
            r == self.at_end(),
            !r ==> !self.stream_at_end(),
    {
        self.stream.is_at_end() || self.current().kind == TokenKind::EndOfFile
    }

    /// Whether the current token is of kind `kind` (never at the end).
    pub(crate) fn check(&self, kind: TokenKind) -> (r: bool)
        requires
            self.wf(),
        ensures
            r == (!self.at_end() && self.cur().kind == kind),
            r ==> !self.stream_at_end(),
    {
        if self.is_at_end() {
            return false;
        }
        self.current().kind == kind
    }

    /// Takes the current token if it is of kind `kind`; otherwise reports what was expected.
    pub(crate) fn consume(&mut self, kind: TokenKind) -> (r: DiagnosticResult<&Token>)
        requires
            old(self).wf(),
        ensures
            final(self).moved_on(*old(self)),
            final(self).spec_reporter() == old(self).spec_reporter(),
            old(self).cur().kind == kind ==> {
                &&& r matches Ok(t) && *t == old(self).cur()
                &&& final(self).ppos() == if old(self).stream_at_end() { old(self).ppos() } else { old(self).ppos() + 1 }
            },
            old(self).cur().kind != kind ==> {
                &&& r == Err::<&Token, DiagnosticReport>(
                    report_at(old(self).cur(), ParserDiagnostic::ExpectedToken(kind, old(self).cur().kind)),
                )
                &&& *final(self) == *old(self)
            },
    {
        self.expect(kind)?;
        Ok(self.advance())
    }

    /// The current token, if it is of kind `kind`; otherwise what was expected.
    pub(crate) fn expect(&mut self, kind: TokenKind) -> (r: DiagnosticResult<&Token>)
        requires
            old(self).wf(),
        ensures
            *final(self) == *old(self),
            old(self).cur().kind == kind ==> (r matches Ok(t) && *t == old(self).cur()),
            old(self).cur().kind != kind ==> r == Err::<&Token, DiagnosticReport>(
                report_at(old(self).cur(), ParserDiagnostic::ExpectedToken(kind, old(self).cur().kind)),
            ),
    {
        let current = self.current();
        if current.kind == kind {
            Ok(current)
        } else {
            Err(self.diagnostic(ParserDiagnostic::ExpectedToken(kind, current.kind)))
        }
    }

    /// The report `message` at the current token.
    pub(crate) fn diagnostic(&self, message: ParserDiagnostic) -> (r: DiagnosticReport)
        requires
            self.wf(),
        ensures
            r == report_at(self.cur(), message),
    {
        let current = self.current();
        DiagnosticReport { message: DiagnosticMessage::Parser(message), span: current.span, cursor: current.cursor }
    }

    /// The report `message` at `span` and `cursor`.
    pub(crate) fn diagnostic_at(&self, message: ParserDiagnostic, span: Span, cursor: Cursor) -> (r: DiagnosticReport)
        ensures
            r == (DiagnosticReport { message: DiagnosticMessage::Parser(message), span, cursor }),
    {
        DiagnosticReport { message: DiagnosticMessage::Parser(message), span, cursor }
    }
}

} // verus!
