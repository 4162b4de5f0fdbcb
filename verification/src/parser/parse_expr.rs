use vstd::prelude::*;

use crate::ast::expressions::{ConditionalBranch, Expression, ExpressionKind, LiteralKind as AstLiteralKind};
use crate::ast::statements::{Statement, StatementKind};
use crate::ast::operators::{BinaryOperator, ComparisonOperator, LogicalOperator, Operator, UnaryOperator};
use crate::ast::symbol::AstSymbol;
use crate::ast::types::TypeKind;
use crate::diagnostic::{DiagnosticMessage, DiagnosticReport, DiagnosticResult};
use crate::lexer::tokens::convert::{spec_assign_operator, spec_binary_operator, spec_comparison_operator, spec_unary_operator};
use crate::lexer::tokens::kind::{KeywordKind, LiteralKind, OperatorKind, PunctuationKind, TokenKind};
use crate::parser::diagnostics::ParserDiagnostic;
use crate::parser::{
    digit_value, digits_value, has_radix_prefix, radix_base, radix_literal_value, radix_value, report_at,
    lemma_after_brace, radix_ok, radix_valid_from, LumaParser,
};
use crate::span::{Cursor, Span};
use crate::parser::grammar::{
    arr_end, br_outcome, conforms, fails_as, filed_all, if_result, if_span, lemma_filed_none, lemma_filed_trans,
    lemma_pre_pre, lemma_tail_prepend, outcome, pre, sk_name, sp_args, sp_array, sp_assign_loop, sp_assignment,
    sp_block, sp_branch, sp_call, sp_chain, sp_elems, sp_else, sp_expression, sp_get, sp_if, sp_index, sp_invoke,
    sp_level, sp_operand, sp_postfix, sp_primary, sp_unary, symbol_of, tail_prepend, tok, type_named, BrR, Fail, OpSk,
    Rep, Sk, TailP, TailR, SP, SR,
};
use crate::text::push_decimal_u64;

verus! {

/// The base of the radix letter `c`.
fn radix_base_of(c: char) -> (r: Option<u32>)
    ensures
        match radix_base(c) {
            Some(b) => r == Some(b as u32),
            None => r is None,
        },
{
    if c == 'b' {
        Some(2)
    } else if c == 'o' {
        Some(8)
    } else if c == 'x' {
        Some(16)
    } else {
        None
    }
}

fn digit_value_of(c: char) -> (r: u32)
    ensures
        r == digit_value(c),
{
    if '0' <= c && c <= '9' {
        (c as u32) - ('0' as u32)
    } else if 'a' <= c && c <= 'z' {
        (c as u32) - ('a' as u32) + 10
    } else if 'A' <= c && c <= 'Z' {
        (c as u32) - ('A' as u32) + 10
    } else {
        36
    }
}

/// `u64::from_str_radix` on the characters of `text` from `from` on.
pub(crate) fn parse_radix(text: &str, from: usize, base: u32) -> (r: Option<u64>)
    requires
        from <= text@.len(),
        2 <= base <= 16,
    ensures
        match radix_value(text@.skip(from as int), base as nat) {
            Some(v) => r == Some(v as u64),
            None => r is None,
        },
{
    let ghost t = text@.skip(from as int);
    let n = text.unicode_len();
    let mut i = from;
    if i < n && text.get_char(i) == '+' {
        i = i + 1;
    }
    let ghost d = if t.len() > 0 && t[0] == '+' { t.drop_first() } else { t };
    assert(d =~= text@.skip(i as int));
    if i >= n {
        return None;
    }
    let start = i;
    let mut value: u64 = 0;
    while i < n
        invariant
            start <= i <= n,
            start < n,
            n == text@.len(),
            t == text@.skip(from as int),
            d == (if t.len() > 0 && t[0] == '+' { t.drop_first() } else { t }),
            d =~= text@.skip(start as int),
            2 <= base <= 16,
            digits_value(text@.subrange(start as int, i as int), base as nat) == Some(value as nat),
        decreases n - i,
    {
        let c = text.get_char(i);
        let dv = digit_value_of(c);
        assert(text@.subrange(start as int, i + 1).drop_last() =~= text@.subrange(start as int, i as int));
        if dv >= base {
            proof {
                lemma_digits_invalid_suffix(text@, start as int, (i + 1) as int, n as int, base as nat);
            }
            return None;
        }
        let next = match value.checked_mul(base as u64) {
            Some(m) => m.checked_add(dv as u64),
            None => None,
        };
        match next {
            Some(v) => {
                value = v;
            },
            None => {
                proof {
                    lemma_digits_too_large(text@, start as int, (i + 1) as int, n as int, base as nat);
                }
                return None;
            },
        }
        i = i + 1;
    }
    assert(text@.subrange(start as int, n as int) =~= d);
    Some(value)
}

/// Once a prefix of the digits holds a character that is no digit, so do the digits.
proof fn lemma_digits_invalid_suffix(t: Seq<char>, start: int, k: int, n: int, base: nat)
    requires
        0 <= start < k <= n <= t.len(),
        digits_value(t.subrange(start, k), base) is None,
    ensures
        digits_value(t.subrange(start, n), base) is None,
    decreases n - k,
{
    if k < n {
        lemma_digits_invalid_suffix(t, start, k, n - 1, base);
        assert(t.subrange(start, n).drop_last() =~= t.subrange(start, n - 1));
    }
}

/// Once a prefix of the digits is worth more than 64 bits hold, so are the digits (or they are invalid).
proof fn lemma_digits_too_large(t: Seq<char>, start: int, k: int, n: int, base: nat)
    requires
        0 <= start < k <= n <= t.len(),
        base >= 2,
        match digits_value(t.subrange(start, k), base) {
            Some(v) => v > u64::MAX,
            None => true,
        },
    ensures
        match digits_value(t.subrange(start, n), base) {
            Some(v) => v > u64::MAX,
            None => true,
        },
    decreases n - k,
{
    if k < n {
        lemma_digits_too_large(t, start, k, n - 1, base);
        assert(t.subrange(start, n).drop_last() =~= t.subrange(start, n - 1));
        let prev = digits_value(t.subrange(start, n - 1), base);
        if let Some(v) = prev {
            let last = digit_value(t.subrange(start, n).last());
            assert(v * base >= v) by (nonlinear_arith)
                requires
                    base >= 2,
                    v >= 0,
            ;
        }
    }
}

/// How tightly the root of `e` binds its operands: assignment loosest, then `||`, `&&`,
/// `|`, `^`, `&`, comparisons, shifts, `+ -`, `* / %`, unary operators; every other
/// expression is an operand of its own.
pub open spec fn precedence(e: Expression) -> nat {
    match e.kind {
        ExpressionKind::Assign { .. } => 0,
        ExpressionKind::Logical { operator, .. } => match operator {
            LogicalOperator::Or => 1,
            LogicalOperator::And => 2,
        },
        ExpressionKind::Binary { operator, .. } => match operator {
            BinaryOperator::BitwiseOr => 3,
            BinaryOperator::BitwiseXor => 4,
            BinaryOperator::BitwiseAnd => 5,
            BinaryOperator::ShiftLeft | BinaryOperator::ShiftRight => 7,
            BinaryOperator::Add | BinaryOperator::Subtract => 8,
            BinaryOperator::Multiply | BinaryOperator::Divide | BinaryOperator::Modulo => 9,
            BinaryOperator::Assignment => 0,
        },
        ExpressionKind::Comparison { .. } => 6,
        ExpressionKind::Unary { .. } => 10,
        _ => 11,
    }
}

/// The operators of `e` group by precedence, and operators of equal precedence group to
/// the left: in each operator node the left operand binds at least as tightly as the node
/// and the right operand binds more tightly; a unary operator applies to a unary or tighter
/// operand. This holds down through operators, groups, calls, property reads, indexing and
/// array literals, the values of assignments (where the value of `x op= v` is `x op v`
/// with `v` grouped on its own), the branches of an `if`, and the statements and value of
/// a scope (see `stmt_grouped`).
pub open spec fn grouped(e: Expression) -> bool
    decreases e,
{
    match e.kind {
        ExpressionKind::Binary { left, right, .. } => precedence(*left) >= precedence(e) && precedence(*right)
            > precedence(e) && grouped(*left) && grouped(*right),
        ExpressionKind::Logical { left, right, .. } => precedence(*left) >= precedence(e) && precedence(*right)
            > precedence(e) && grouped(*left) && grouped(*right),
        ExpressionKind::Comparison { left, right, .. } => precedence(*left) >= precedence(e) && precedence(*right)
            > precedence(e) && grouped(*left) && grouped(*right),
        ExpressionKind::Unary { value, .. } => precedence(*value) >= 10 && grouped(*value),
        ExpressionKind::Assign { value, .. } => grouped(*value) || match value.kind {
            ExpressionKind::Binary { left, right, .. } => left.kind is Variable && grouped(*right),
            ExpressionKind::Logical { left, right, .. } => left.kind is Variable && grouped(*right),
            _ => false,
        },
        ExpressionKind::Group { inner } => grouped(*inner),
        ExpressionKind::If { main_branch, branches, else_branch } => grouped(main_branch.condition) && grouped(
            main_branch.body,
        ) && (forall|i: int|
            0 <= i < branches@.len() ==> grouped((#[trigger] branches@[i]).condition) && grouped(branches@[i].body))
            && match else_branch {
            Some(x) => grouped(*x),
            None => true,
        },
        ExpressionKind::Scope { statements, block_value } => (forall|i: int|
            0 <= i < statements@.len() ==> stmt_grouped(#[trigger] statements@[i])) && match block_value {
            Some(v) => grouped(*v),
            None => true,
        },
        ExpressionKind::Invoke { callee, arguments } => grouped(*callee) && forall|i: int|
            0 <= i < arguments@.len() ==> grouped(#[trigger] arguments@[i]),
        ExpressionKind::Get { object, .. } => grouped(*object),
        ExpressionKind::ArrayGet { array, index } => grouped(*array) && grouped(*index),
        ExpressionKind::ArrayLiteral { elements, size, .. } => (forall|i: int|
            0 <= i < elements@.len() ==> grouped(#[trigger] elements@[i])) && match size {
            Some(n) => grouped(*n),
            None => true,
        },
        _ => true,
    }
}

/// Every expression of the statement `s` is grouped (see `grouped`).
pub open spec fn stmt_grouped(s: Statement) -> bool
    decreases s,
{
    match s.kind {
        StatementKind::While { condition, body, .. } => grouped(condition) && grouped(body),
        StatementKind::Expression { inner } => grouped(inner),
        StatementKind::Return { value } => match value {
            Some(v) => grouped(v),
            None => true,
        },
        StatementKind::FuncDecl(d) => match d.body {
            Some(b) => grouped(*b),
            None => true,
        },
        StatementKind::VarDecl(d) => match d.value {
            Some(v) => grouped(*v),
            None => true,
        },
        StatementKind::ClassDecl(c) => forall|i: int|
            0 <= i < c.methods@.len() ==> match (#[trigger] c.methods@[i]).body {
                Some(b) => grouped(*b),
                None => true,
            },
        _ => true,
    }
}

impl LumaParser {
    /// Reads an expression.
    pub fn parse_expression(&mut self) -> (r: DiagnosticResult<Expression>)
        requires
            old(self).wf(),
        ensures
            final(self).moved_on(*old(self)),
            final(self).progressed(*old(self)),
            r matches Ok(e) ==> grouped(e),
            outcome(*old(self), *final(self), r, sp_expression(old(self).toks(), old(self).ppos())),
        decreases old(self).remaining(), 20nat,
    {
        self.expr_if()
    }

    /// `if cond { .. } else if cond { .. } else ..`, or a lower expression.
    #[verifier::rlimit(60)]
    fn expr_if(&mut self) -> (r: DiagnosticResult<Expression>)
        requires
            old(self).wf(),
        ensures
            final(self).moved_on(*old(self)),
            final(self).progressed(*old(self)),
            r matches Ok(e) ==> grouped(e),
            outcome(*old(self), *final(self), r, sp_expression(old(self).toks(), old(self).ppos())),
        decreases old(self).remaining(), 19nat,
    {
        if !self.check(TokenKind::Keyword(KeywordKind::If)) {
            return self.expr_scope();
        }
        let ghost t = self.toks();
        let ghost p0 = self.ppos();
        let ghost r0 = self.spec_reporter();
        let ghost live = !(sp_expression(t, p0).r is Beyond);
        let (mut span, cursor) = self.advance().pos();
        let ghost m = sp_branch(t, p0 + 1);
        let main_branch = match self.parse_conditional_branch() {
            Ok(b) => b,
            Err(d) => {
                return Err(d);
            },
        };
        span = span.merged(&main_branch.body.span);
        let ghost c0 = match m.r {
            BrR::Tree(c, b) => c,
            _ => Sk::Lit(0),
        };
        let ghost b0 = match m.r {
            BrR::Tree(c, b) => b,
            _ => Sk::Lit(0),
        };
        let ghost span0 = span;
        let ghost mut cs: Seq<Sk> = Seq::empty();
        let ghost mut bs: Seq<Sk> = Seq::empty();
        let ghost mut acc: Seq<Rep> = Seq::empty();
        let ghost mut el: Option<Box<Sk>> = None;
        let mut branches: Vec<ConditionalBranch> = Vec::new();
        let mut else_branch: Option<Box<Expression>> = None;
        proof {
            if live {
                assert(tail_prepend(cs, bs, acc, sp_else(t, self.ppos())) == sp_else(t, m.pos)) by {
                    let tl = sp_else(t, m.pos);
                    assert(acc + tl.reps =~= tl.reps);
                    if let TailR::Done(xs, ys, e) = tl.r {
                        assert(cs + xs =~= xs);
                        assert(bs + ys =~= ys);
                    }
                }
                assert(m.reps + acc =~= m.reps);
            }
        }
        loop
            invariant_except_break
                live ==> sp_else(t, m.pos) == tail_prepend(cs, bs, acc, sp_else(t, self.ppos())),
                else_branch is None,
                el is None,
            invariant
                grouped(main_branch.condition) && grouped(main_branch.body),
                forall|j: int|
                    0 <= j < branches@.len() ==> grouped((#[trigger] branches@[j]).condition) && grouped(
                        branches@[j].body,
                    ),
                else_branch matches Some(x) ==> grouped(*x),
                self.moved_on(*old(self)),
                self.ppos() > old(self).ppos(),
                t == old(self).toks(),
                p0 == old(self).ppos(),
                r0 == old(self).spec_reporter(),
                live == !(sp_expression(t, p0).r is Beyond),
                live ==> {
                    &&& m.r == BrR::Tree(c0, b0)
                    &&& m.pos > p0
                    &&& sp_expression(t, p0) == if_result(p0, c0, b0, m.reps, sp_else(t, m.pos))
                    &&& conforms(t, main_branch.condition, c0)
                    &&& conforms(t, main_branch.body, b0)
                    &&& span0 == tok(t, p0).span.spec_merged(main_branch.body.span)
                    &&& span == if_span(span0, branches@)
                    &&& branches@.len() == cs.len()
                    &&& bs.len() == cs.len()
                    &&& forall|k: int|
                        0 <= k < cs.len() ==> conforms(t, (#[trigger] branches@[k]).condition, cs[k]) && conforms(
                            t,
                            branches@[k].body,
                            bs[k],
                        )
                    &&& filed_all(r0, self.spec_reporter(), t, m.reps + acc)
                },
            ensures
                live ==> {
                    &&& sp_else(t, m.pos) == (TailP { r: TailR::Done(cs, bs, el), pos: self.ppos(), reps: acc })
                    &&& match el {
                        None => else_branch is None,
                        Some(x) => else_branch matches Some(b) && conforms(t, *b, *x),
                    }
                },
            decreases self.remaining(),
        {
            let ghost q = self.ppos();
            let ghost rq = self.spec_reporter();
            proof {
                self.lemma_end_is_eof();
            }
            if self.consume(TokenKind::Keyword(KeywordKind::Else)).is_err() {
                proof {
                    if live {
                        assert(sp_else(t, q) == (TailP {
                            r: TailR::Done(Seq::empty(), Seq::empty(), None),
                            pos: q,
                            reps: Seq::empty(),
                        }));
                        assert(cs + Seq::<Sk>::empty() =~= cs);
                        assert(bs + Seq::<Sk>::empty() =~= bs);
                        assert(acc + Seq::<Rep>::empty() =~= acc);
                        assert(tail_prepend(cs, bs, acc, sp_else(t, q)) == (TailP {
                            r: TailR::Done(cs, bs, None),
                            pos: q,
                            reps: acc,
                        }));
                    }
                }
                break;
            }
            proof {
                self.lemma_end_is_eof();
            }
            if self.consume(TokenKind::Keyword(KeywordKind::If)).is_ok() {
                let ghost br = sp_branch(t, q + 2);
                let ghost rb = self.spec_reporter();
                let branch = match self.parse_conditional_branch() {
                    Ok(b) => b,
                    Err(d) => {
                        proof {
                            if live {
                                assert(sp_else(t, q) == (TailP { r: TailR::Fail(br.r->Fail_0), pos: br.pos, reps: br.reps }));
                                lemma_filed_trans(r0, rb, self.spec_reporter(), t, m.reps + acc, br.reps);
                                assert((m.reps + acc) + br.reps =~= m.reps + (acc + br.reps));
                            }
                        }
                        return Err(d);
                    },
                };
                span = span.merged(&branch.body.span);
                let ghost before = branches@;
                branches.push(branch);
                proof {
                    if live {
                        let c = br.r->Tree_0;
                        let b = br.r->Tree_1;
                        assert(sp_else(t, q) == tail_prepend(seq![c], seq![b], br.reps, sp_else(t, self.ppos())));
                        lemma_tail_prepend(cs, bs, acc, seq![c], seq![b], br.reps, sp_else(t, self.ppos()));
                        lemma_filed_trans(r0, rb, self.spec_reporter(), t, m.reps + acc, br.reps);
                        assert((m.reps + acc) + br.reps =~= m.reps + (acc + br.reps));
                        assert(branches@.drop_last() =~= before);
                        cs = cs + seq![c];
                        bs = bs + seq![b];
                        acc = acc + br.reps;
                    }
                }
            } else {
                let ghost e = sp_expression(t, q + 1);
                let ghost rb = self.spec_reporter();
                let body = match self.parse_expression() {
                    Ok(x) => x,
                    Err(d) => {
                        proof {
                            if live {
                                assert(sp_else(t, q) == (TailP { r: TailR::Fail(e.r->Fail_0), pos: e.pos, reps: e.reps }));
                                lemma_filed_trans(r0, rb, self.spec_reporter(), t, m.reps + acc, e.reps);
                                assert((m.reps + acc) + e.reps =~= m.reps + (acc + e.reps));
                            }
                        }
                        return Err(d);
                    },
                };
                else_branch = Some(Box::new(body));
                proof {
                    if live {
                        let x = e.r->Tree_0;
                        assert(sp_else(t, q) == (TailP {
                            r: TailR::Done(Seq::empty(), Seq::empty(), Some(Box::new(x))),
                            pos: e.pos,
                            reps: e.reps,
                        }));
                        lemma_filed_trans(r0, rb, self.spec_reporter(), t, m.reps + acc, e.reps);
                        assert((m.reps + acc) + e.reps =~= m.reps + (acc + e.reps));
                        assert(cs + Seq::<Sk>::empty() =~= cs);
                        assert(bs + Seq::<Sk>::empty() =~= bs);
                        el = Some(Box::new(x));
                        acc = acc + e.reps;
                    }
                }
                break;
            }
        }
        let r = Ok(Expression {
            kind: ExpressionKind::If { main_branch: Box::new(main_branch), branches, else_branch },
            span,
            cursor,
        });
        proof {
            if live {
                let e = r->Ok_0;
                let cs1 = seq![c0] + cs;
                let bs1 = seq![b0] + bs;
                assert forall|k: int| 0 <= k < e.kind->If_branches@.len() implies conforms(
                    t,
                    (#[trigger] e.kind->If_branches@[k]).condition,
                    cs1[k + 1],
                ) && conforms(t, e.kind->If_branches@[k].body, bs1[k + 1]) by {
                    assert(cs1[k + 1] == cs[k]);
                    assert(bs1[k + 1] == bs[k]);
                }
                assert(conforms(t, e, Sk::If(p0, cs1, bs1, el)));
            }
        }
        r
    }

    /// A braced scope, or a lower expression.
    fn expr_scope(&mut self) -> (r: DiagnosticResult<Expression>)
        requires
            old(self).wf(),
            !(old(self).ppos() < old(self).toks().len() && old(self).cur().kind == TokenKind::Keyword(KeywordKind::If)),
        ensures
            final(self).moved_on(*old(self)),
            final(self).progressed(*old(self)),
            r matches Ok(e) ==> grouped(e),
            outcome(*old(self), *final(self), r, sp_expression(old(self).toks(), old(self).ppos())),
        decreases old(self).remaining(), 18nat,
    {
        if !self.check(TokenKind::Punctuation(PunctuationKind::LeftBrace)) {
            return self.expr_assignment();
        }
        let ghost t = self.toks();
        let ghost p0 = self.ppos();
        let (span0, cursor) = self.advance().pos();
        proof {
            lemma_after_brace(self.toks(), (self.ppos() - 1) as nat);
        }
        let (statements, value, span) = self.scope_body(span0);
        Ok(Expression { cursor, span, kind: ExpressionKind::Scope { statements, block_value: value } })
    }

    /// `variable = value`, or `variable op= value` (read as `variable = variable op value`);
    /// assignment groups to the right.
    fn expr_assignment(&mut self) -> (r: DiagnosticResult<Expression>)
        requires
            old(self).wf(),
        ensures
            final(self).moved_on(*old(self)),
            final(self).progressed(*old(self)),
            r matches Ok(e) ==> grouped(e),
            outcome(*old(self), *final(self), r, sp_assignment(old(self).toks(), old(self).ppos())),
        decreases old(self).remaining(), 17nat,
    {
        let ghost t = self.toks();
        let ghost p0 = self.ppos();
        let ghost r0 = self.spec_reporter();
        let mut left = self.expr_or()?;
        let ghost mut lsk: Sk = match sp_level(t, p0, 1).r {
            SR::Tree(x) => x,
            _ => Sk::Lit(0),
        };
        let ghost mut acc: Seq<Rep> = sp_level(t, p0, 1).reps;
        loop
            invariant
                grouped(left),
                self.moved_on(*old(self)),
                self.progressed(*old(self)),
                t == old(self).toks(),
                p0 == old(self).ppos(),
                r0 == old(self).spec_reporter(),
                sp_assignment(t, p0).r is Beyond || (sp_assignment(t, p0) == sp_assign_loop(
                    t,
                    (SP { r: SR::Tree(lsk), pos: self.ppos(), reps: acc }),
                ) && conforms(t, left, lsk) && filed_all(r0, self.spec_reporter(), t, acc)),
            ensures
                sp_assignment(t, p0).r is Beyond || (sp_assignment(t, p0) == (SP { r: SR::Tree(lsk), pos: self.ppos(), reps: acc })
                    && conforms(t, left, lsk) && filed_all(r0, self.spec_reporter(), t, acc)),
            decreases self.remaining(),
        {
            let op_kind = match self.current().kind {
                TokenKind::Operator(k) => k,
                _ => {
                    proof {
                        assert(sp_assign_loop(t, (SP { r: SR::Tree(lsk), pos: self.ppos(), reps: acc })) == (SP { r: SR::Tree(lsk), pos: self.ppos(), reps: acc }));
                    }
                    break;
                },
            };
            if !op_kind.is_assign_op() {
                proof {
                    assert(sp_assign_loop(t, (SP { r: SR::Tree(lsk), pos: self.ppos(), reps: acc })) == (SP { r: SR::Tree(lsk), pos: self.ppos(), reps: acc }));
                }
                break;
            }
            proof {
                self.lemma_end_is_eof();
            }
            let ghost q = self.ppos();
            let ghost a = SP { r: SR::Tree(lsk), pos: q, reps: acc };
            let ghost rq = self.spec_reporter();
            let (span, cursor) = self.advance().pos();
            let ghost v = sp_assignment(t, q + 1);
            let value = match self.expr_assignment() {
                Ok(x) => x,
                Err(d) => {
                    proof {
                        if !(sp_assignment(t, p0).r is Beyond) {
                            assert(sp_assign_loop(t, a) == pre(acc, v));
                            if !(v.r is Beyond) {
                                lemma_filed_trans(r0, rq, self.spec_reporter(), t, acc, v.reps);
                            }
                        }
                    }
                    return Err(d);
                },
            };
            proof {
                if !(sp_assignment(t, p0).r is Beyond) && !(v.r is Beyond) {
                    lemma_filed_trans(r0, rq, self.spec_reporter(), t, acc, v.reps);
                }
            }
            let ghost left0 = left;
            let (symbol, left_span, left_cursor) = match left.kind {
                ExpressionKind::Variable { symbol } => (symbol, left.span, left.cursor),
                other => {
                    let name = other.name();
                    proof {
                        if !(sp_assignment(t, p0).r is Beyond) && v.r is Tree {
                            assert(other.spec_name() == sk_name(lsk));
                            assert(sp_assign_loop(t, a) == (SP {
                                r: SR::Fail(Fail::InvalidLhs(sk_name(lsk), q)),
                                pos: v.pos,
                                reps: acc + v.reps,
                            }));
                        }
                        if v.r is Beyond {
                            assert(sp_assign_loop(t, a) == pre(acc, v));
                        }
                    }
                    return Err(self.diagnostic_at(
                        ParserDiagnostic::InvalidLeftHandSide(name.to_owned()),
                        span,
                        cursor,
                    ));
                },
            };
            let right = match op_kind.as_assign_operator() {
                Some(Operator::Binary(BinaryOperator::Assignment)) => value,
                Some(Operator::Binary(bin_op)) => Expression {
                    cursor,
                    span: left_span.merged(&value.span),
                    kind: ExpressionKind::Binary {
                        left: Box::new(
                            Expression {
                                kind: ExpressionKind::Variable {
                                    symbol: AstSymbol::new(symbol.name.clone(), symbol.span, symbol.cursor),
                                },
                                span: left_span,
                                cursor: left_cursor,
                            },
                        ),
                        operator: bin_op,
                        right: Box::new(value),
                    },
                },
                Some(Operator::Logical(log_op)) => Expression {
                    cursor,
                    span: left_span.merged(&value.span),
                    kind: ExpressionKind::Logical {
                        left: Box::new(
                            Expression {
                                kind: ExpressionKind::Variable {
                                    symbol: AstSymbol::new(symbol.name.clone(), symbol.span, symbol.cursor),
                                },
                                span: left_span,
                                cursor: left_cursor,
                            },
                        ),
                        operator: log_op,
                        right: Box::new(value),
                    },
                },
                _ => {
                    proof {
                        assert(false);
                    }
                    value
                },
            };
            left = Expression {
                cursor,
                span: span.merged(&left_span).merged(&right.span),
                kind: ExpressionKind::Assign { symbol, value: Box::new(right) },
            };
            proof {
                match v.r {
                    SR::Tree(vs) => if !(sp_assignment(t, p0).r is Beyond) {
                        assert(lsk is Var) by {
                            assert(conforms(t, left0, lsk));
                            assert(left0.kind is Variable);
                        }
                        if let Sk::Var(i) = lsk {
                            let rs = match spec_assign_operator(op_kind) {
                                Some(Operator::Binary(BinaryOperator::Assignment)) => vs,
                                Some(Operator::Binary(b)) => Sk::Node(OpSk::B(b), q, Box::new(Sk::Var(i)), Box::new(vs)),
                                Some(Operator::Logical(l)) => Sk::Node(OpSk::L(l), q, Box::new(Sk::Var(i)), Box::new(vs)),
                                _ => vs,
                            };
                            let nsk = Sk::Assign(i, q, Box::new(rs));
                            assert(sp_assign_loop(t, a) == sp_assign_loop(t, (SP { r: SR::Tree(nsk), pos: v.pos, reps: acc + v.reps })));
                            assert(conforms(t, right, rs)) by {
                                reveal_with_fuel(conforms, 2);
                            }
                            lsk = nsk;
                            acc = acc + v.reps;
                        }
                    },
                    _ => {
                        assert(sp_assign_loop(t, a) == pre(acc, v));
                    },
                }
            }
        }
        Ok(left)
    }

    /// `a || b`, grouped to the left.
    fn expr_or(&mut self) -> (r: DiagnosticResult<Expression>)
        requires
            old(self).wf(),
        ensures
            final(self).moved_on(*old(self)),
            final(self).progressed(*old(self)),
            r matches Ok(e) ==> grouped(e) && precedence(e) >= 1,
            outcome(*old(self), *final(self), r, sp_level(old(self).toks(), old(self).ppos(), 1)),
        decreases old(self).remaining(), 16nat,
    {
        let ghost t = self.toks();
        let ghost p0 = self.ppos();
        let ghost r0 = self.spec_reporter();
        let mut left = self.expr_and()?;
        let ghost mut lsk: Sk = match sp_level(t, p0, 2).r {
            SR::Tree(x) => x,
            _ => Sk::Lit(0),
        };
        let ghost mut acc: Seq<Rep> = sp_level(t, p0, 2).reps;
        loop
            invariant
                grouped(left) && precedence(left) >= 1,
                self.moved_on(*old(self)),
                self.progressed(*old(self)),
                t == old(self).toks(),
                p0 == old(self).ppos(),
                r0 == old(self).spec_reporter(),
                sp_level(t, p0, 1).r is Beyond || (sp_level(t, p0, 1) == sp_chain(
                    t,
                    1,
                    (SP { r: SR::Tree(lsk), pos: self.ppos(), reps: acc }),
                ) && conforms(t, left, lsk) && filed_all(r0, self.spec_reporter(), t, acc)),
            ensures
                sp_level(t, p0, 1).r is Beyond || (sp_level(t, p0, 1) == (SP { r: SR::Tree(lsk), pos: self.ppos(), reps: acc })
                    && conforms(t, left, lsk) && filed_all(r0, self.spec_reporter(), t, acc)),
            decreases self.remaining(),
        {
            if !self.check(TokenKind::Operator(OperatorKind::Or)) {
                proof {
                    self.lemma_end_is_eof();
                    assert(sp_chain(t, 1, (SP { r: SR::Tree(lsk), pos: self.ppos(), reps: acc })) == (SP { r: SR::Tree(lsk), pos: self.ppos(), reps: acc }));
                }
                break;
            }
            let operator = LogicalOperator::Or;
            proof {
                self.lemma_end_is_eof();
            }
            let ghost q = self.ppos();
            let ghost rq = self.spec_reporter();
            let cursor = self.advance().cursor;
            let ghost a = SP { r: SR::Tree(lsk), pos: q, reps: acc };
            let ghost b = sp_level(t, q + 1, 2);
            let right = match self.expr_and() {
                Ok(x) => x,
                Err(d) => {
                    proof {
                        if !(sp_level(t, p0, 1).r is Beyond) {
                            assert(sp_operand(t, q + 1, 1) == b);
                            assert(sp_chain(t, 1, a) == pre(acc, b));
                            if !(b.r is Beyond) {
                                lemma_filed_trans(r0, rq, self.spec_reporter(), t, acc, b.reps);
                            }
                        }
                    }
                    return Err(d);
                },
            };
            proof {
                if !(sp_level(t, p0, 1).r is Beyond) {
                    assert(sp_operand(t, q + 1, 1) == b);
                    match b.r {
                        SR::Tree(rsk) => {
                            let nsk = Sk::Node(OpSk::L(LogicalOperator::Or), q, Box::new(lsk), Box::new(rsk));
                            assert(sp_chain(t, 1, a) == sp_chain(t, 1, (SP { r: SR::Tree(nsk), pos: self.ppos(), reps: acc + b.reps })));
                            lemma_filed_trans(r0, rq, self.spec_reporter(), t, acc, b.reps);
                            lsk = nsk;
                            acc = acc + b.reps;
                        },
                        _ => {
                            assert(sp_chain(t, 1, a) == pre(acc, b));
                        },
                    }
                }
            }
            left = Expression {
                cursor,
                span: left.span.merged(&right.span),
                kind: ExpressionKind::Logical { left: Box::new(left), operator, right: Box::new(right) },
            };
        }
        Ok(left)
    }

    /// `a && b`, grouped to the left.
    fn expr_and(&mut self) -> (r: DiagnosticResult<Expression>)
        requires
            old(self).wf(),
        ensures
            final(self).moved_on(*old(self)),
            final(self).progressed(*old(self)),
            r matches Ok(e) ==> grouped(e) && precedence(e) >= 2,
            outcome(*old(self), *final(self), r, sp_level(old(self).toks(), old(self).ppos(), 2)),
        decreases old(self).remaining(), 15nat,
    {
        let ghost t = self.toks();
        let ghost p0 = self.ppos();
        let ghost r0 = self.spec_reporter();
        let mut left = self.expr_bitwise_or()?;
        let ghost mut lsk: Sk = match sp_level(t, p0, 3).r {
            SR::Tree(x) => x,
            _ => Sk::Lit(0),
        };
        let ghost mut acc: Seq<Rep> = sp_level(t, p0, 3).reps;
        loop
            invariant
                grouped(left) && precedence(left) >= 2,
                self.moved_on(*old(self)),
                self.progressed(*old(self)),
                t == old(self).toks(),
                p0 == old(self).ppos(),
                r0 == old(self).spec_reporter(),
                sp_level(t, p0, 2).r is Beyond || (sp_level(t, p0, 2) == sp_chain(
                    t,
                    2,
                    (SP { r: SR::Tree(lsk), pos: self.ppos(), reps: acc }),
                ) && conforms(t, left, lsk) && filed_all(r0, self.spec_reporter(), t, acc)),
            ensures
                sp_level(t, p0, 2).r is Beyond || (sp_level(t, p0, 2) == (SP { r: SR::Tree(lsk), pos: self.ppos(), reps: acc })
                    && conforms(t, left, lsk) && filed_all(r0, self.spec_reporter(), t, acc)),
            decreases self.remaining(),
        {
            if !self.check(TokenKind::Operator(OperatorKind::And)) {
                proof {
                    self.lemma_end_is_eof();
                    assert(sp_chain(t, 2, (SP { r: SR::Tree(lsk), pos: self.ppos(), reps: acc })) == (SP { r: SR::Tree(lsk), pos: self.ppos(), reps: acc }));
                }
                break;
            }
            let operator = LogicalOperator::And;
            proof {
                self.lemma_end_is_eof();
            }
            let ghost q = self.ppos();
            let ghost rq = self.spec_reporter();
            let cursor = self.advance().cursor;
            let ghost a = SP { r: SR::Tree(lsk), pos: q, reps: acc };
            let ghost b = sp_level(t, q + 1, 3);
            let right = match self.expr_bitwise_or() {
                Ok(x) => x,
                Err(d) => {
                    proof {
                        if !(sp_level(t, p0, 2).r is Beyond) {
                            assert(sp_operand(t, q + 1, 2) == b);
                            assert(sp_chain(t, 2, a) == pre(acc, b));
                            if !(b.r is Beyond) {
                                lemma_filed_trans(r0, rq, self.spec_reporter(), t, acc, b.reps);
                            }
                        }
                    }
                    return Err(d);
                },
            };
            proof {
                if !(sp_level(t, p0, 2).r is Beyond) {
                    assert(sp_operand(t, q + 1, 2) == b);
                    match b.r {
                        SR::Tree(rsk) => {
                            let nsk = Sk::Node(OpSk::L(LogicalOperator::And), q, Box::new(lsk), Box::new(rsk));
                            assert(sp_chain(t, 2, a) == sp_chain(t, 2, (SP { r: SR::Tree(nsk), pos: self.ppos(), reps: acc + b.reps })));
                            lemma_filed_trans(r0, rq, self.spec_reporter(), t, acc, b.reps);
                            lsk = nsk;
                            acc = acc + b.reps;
                        },
                        _ => {
                            assert(sp_chain(t, 2, a) == pre(acc, b));
                        },
                    }
                }
            }
            left = Expression {
                cursor,
                span: left.span.merged(&right.span),
                kind: ExpressionKind::Logical { left: Box::new(left), operator, right: Box::new(right) },
            };
        }
        Ok(left)
    }

    /// `a | b`, grouped to the left.
    fn expr_bitwise_or(&mut self) -> (r: DiagnosticResult<Expression>)
        requires
            old(self).wf(),
        ensures
            final(self).moved_on(*old(self)),
            final(self).progressed(*old(self)),
            r matches Ok(e) ==> grouped(e) && precedence(e) >= 3,
            outcome(*old(self), *final(self), r, sp_level(old(self).toks(), old(self).ppos(), 3)),
        decreases old(self).remaining(), 14nat,
    {
        let ghost t = self.toks();
        let ghost p0 = self.ppos();
        let ghost r0 = self.spec_reporter();
        let mut left = self.expr_bitwise_xor()?;
        let ghost mut lsk: Sk = match sp_level(t, p0, 4).r {
            SR::Tree(x) => x,
            _ => Sk::Lit(0),
        };
        let ghost mut acc: Seq<Rep> = sp_level(t, p0, 4).reps;
        loop
            invariant
                grouped(left) && precedence(left) >= 3,
                self.moved_on(*old(self)),
                self.progressed(*old(self)),
                t == old(self).toks(),
                p0 == old(self).ppos(),
                r0 == old(self).spec_reporter(),
                sp_level(t, p0, 3).r is Beyond || (sp_level(t, p0, 3) == sp_chain(
                    t,
                    3,
                    (SP { r: SR::Tree(lsk), pos: self.ppos(), reps: acc }),
                ) && conforms(t, left, lsk) && filed_all(r0, self.spec_reporter(), t, acc)),
            ensures
                sp_level(t, p0, 3).r is Beyond || (sp_level(t, p0, 3) == (SP { r: SR::Tree(lsk), pos: self.ppos(), reps: acc })
                    && conforms(t, left, lsk) && filed_all(r0, self.spec_reporter(), t, acc)),
            decreases self.remaining(),
        {
            if !self.check(TokenKind::Operator(OperatorKind::BitwiseOr)) {
                proof {
                    self.lemma_end_is_eof();
                    assert(sp_chain(t, 3, (SP { r: SR::Tree(lsk), pos: self.ppos(), reps: acc })) == (SP { r: SR::Tree(lsk), pos: self.ppos(), reps: acc }));
                }
                break;
            }
            let operator = BinaryOperator::BitwiseOr;
            proof {
                self.lemma_end_is_eof();
            }
            let ghost q = self.ppos();
            let ghost rq = self.spec_reporter();
            let cursor = self.advance().cursor;
            let ghost a = SP { r: SR::Tree(lsk), pos: q, reps: acc };
            let ghost b = sp_level(t, q + 1, 4);
            let right = match self.expr_bitwise_xor() {
                Ok(x) => x,
                Err(d) => {
                    proof {
                        if !(sp_level(t, p0, 3).r is Beyond) {
                            assert(sp_operand(t, q + 1, 3) == b);
                            assert(sp_chain(t, 3, a) == pre(acc, b));
                            if !(b.r is Beyond) {
                                lemma_filed_trans(r0, rq, self.spec_reporter(), t, acc, b.reps);
                            }
                        }
                    }
                    return Err(d);
                },
            };
            proof {
                if !(sp_level(t, p0, 3).r is Beyond) {
                    assert(sp_operand(t, q + 1, 3) == b);
                    match b.r {
                        SR::Tree(rsk) => {
                            let nsk = Sk::Node(OpSk::B(BinaryOperator::BitwiseOr), q, Box::new(lsk), Box::new(rsk));
                            assert(sp_chain(t, 3, a) == sp_chain(t, 3, (SP { r: SR::Tree(nsk), pos: self.ppos(), reps: acc + b.reps })));
                            lemma_filed_trans(r0, rq, self.spec_reporter(), t, acc, b.reps);
                            lsk = nsk;
                            acc = acc + b.reps;
                        },
                        _ => {
                            assert(sp_chain(t, 3, a) == pre(acc, b));
                        },
                    }
                }
            }
            left = Expression {
                cursor,
                span: left.span.merged(&right.span),
                kind: ExpressionKind::Binary { left: Box::new(left), operator, right: Box::new(right) },
            };
        }
        Ok(left)
    }

    /// `a ^ b`, grouped to the left.
    fn expr_bitwise_xor(&mut self) -> (r: DiagnosticResult<Expression>)
        requires
            old(self).wf(),
        ensures
            final(self).moved_on(*old(self)),
            final(self).progressed(*old(self)),
            r matches Ok(e) ==> grouped(e) && precedence(e) >= 4,
            outcome(*old(self), *final(self), r, sp_level(old(self).toks(), old(self).ppos(), 4)),
        decreases old(self).remaining(), 13nat,
    {
        let ghost t = self.toks();
        let ghost p0 = self.ppos();
        let ghost r0 = self.spec_reporter();
        let mut left = self.expr_bitwise_and()?;
        let ghost mut lsk: Sk = match sp_level(t, p0, 5).r {
            SR::Tree(x) => x,
            _ => Sk::Lit(0),
        };
        let ghost mut acc: Seq<Rep> = sp_level(t, p0, 5).reps;
        loop
            invariant
                grouped(left) && precedence(left) >= 4,
                self.moved_on(*old(self)),
                self.progressed(*old(self)),
                t == old(self).toks(),
                p0 == old(self).ppos(),
                r0 == old(self).spec_reporter(),
                sp_level(t, p0, 4).r is Beyond || (sp_level(t, p0, 4) == sp_chain(
                    t,
                    4,
                    (SP { r: SR::Tree(lsk), pos: self.ppos(), reps: acc }),
                ) && conforms(t, left, lsk) && filed_all(r0, self.spec_reporter(), t, acc)),
            ensures
                sp_level(t, p0, 4).r is Beyond || (sp_level(t, p0, 4) == (SP { r: SR::Tree(lsk), pos: self.ppos(), reps: acc })
                    && conforms(t, left, lsk) && filed_all(r0, self.spec_reporter(), t, acc)),
            decreases self.remaining(),
        {
            if !self.check(TokenKind::Operator(OperatorKind::BitwiseXor)) {
                proof {
                    self.lemma_end_is_eof();
                    assert(sp_chain(t, 4, (SP { r: SR::Tree(lsk), pos: self.ppos(), reps: acc })) == (SP { r: SR::Tree(lsk), pos: self.ppos(), reps: acc }));
                }
                break;
            }
            let operator = BinaryOperator::BitwiseXor;
            proof {
                self.lemma_end_is_eof();
            }
            let ghost q = self.ppos();
            let ghost rq = self.spec_reporter();
            let cursor = self.advance().cursor;
            let ghost a = SP { r: SR::Tree(lsk), pos: q, reps: acc };
            let ghost b = sp_level(t, q + 1, 5);
            let right = match self.expr_bitwise_and() {
                Ok(x) => x,
                Err(d) => {
                    proof {
                        if !(sp_level(t, p0, 4).r is Beyond) {
                            assert(sp_operand(t, q + 1, 4) == b);
                            assert(sp_chain(t, 4, a) == pre(acc, b));
                            if !(b.r is Beyond) {
                                lemma_filed_trans(r0, rq, self.spec_reporter(), t, acc, b.reps);
                            }
                        }
                    }
                    return Err(d);
                },
            };
            proof {
                if !(sp_level(t, p0, 4).r is Beyond) {
                    assert(sp_operand(t, q + 1, 4) == b);
                    match b.r {
                        SR::Tree(rsk) => {
                            let nsk = Sk::Node(OpSk::B(BinaryOperator::BitwiseXor), q, Box::new(lsk), Box::new(rsk));
                            assert(sp_chain(t, 4, a) == sp_chain(t, 4, (SP { r: SR::Tree(nsk), pos: self.ppos(), reps: acc + b.reps })));
                            lemma_filed_trans(r0, rq, self.spec_reporter(), t, acc, b.reps);
                            lsk = nsk;
                            acc = acc + b.reps;
                        },
                        _ => {
                            assert(sp_chain(t, 4, a) == pre(acc, b));
                        },
                    }
                }
            }
            left = Expression {
                cursor,
                span: left.span.merged(&right.span),
                kind: ExpressionKind::Binary { left: Box::new(left), operator, right: Box::new(right) },
            };
        }
        Ok(left)
    }

    /// `a & b`, grouped to the left.
    fn expr_bitwise_and(&mut self) -> (r: DiagnosticResult<Expression>)
        requires
            old(self).wf(),
        ensures
            final(self).moved_on(*old(self)),
            final(self).progressed(*old(self)),
            r matches Ok(e) ==> grouped(e) && precedence(e) >= 5,
            outcome(*old(self), *final(self), r, sp_level(old(self).toks(), old(self).ppos(), 5)),
        decreases old(self).remaining(), 12nat,
    {
        let ghost t = self.toks();
        let ghost p0 = self.ppos();
        let ghost r0 = self.spec_reporter();
        let mut left = self.expr_cmp()?;
        let ghost mut lsk: Sk = match sp_level(t, p0, 6).r {
            SR::Tree(x) => x,
            _ => Sk::Lit(0),
        };
        let ghost mut acc: Seq<Rep> = sp_level(t, p0, 6).reps;
        loop
            invariant
                grouped(left) && precedence(left) >= 5,
                self.moved_on(*old(self)),
                self.progressed(*old(self)),
                t == old(self).toks(),
                p0 == old(self).ppos(),
                r0 == old(self).spec_reporter(),
                sp_level(t, p0, 5).r is Beyond || (sp_level(t, p0, 5) == sp_chain(
                    t,
                    5,
                    (SP { r: SR::Tree(lsk), pos: self.ppos(), reps: acc }),
                ) && conforms(t, left, lsk) && filed_all(r0, self.spec_reporter(), t, acc)),
            ensures
                sp_level(t, p0, 5).r is Beyond || (sp_level(t, p0, 5) == (SP { r: SR::Tree(lsk), pos: self.ppos(), reps: acc })
                    && conforms(t, left, lsk) && filed_all(r0, self.spec_reporter(), t, acc)),
            decreases self.remaining(),
        {
            if !self.check(TokenKind::Operator(OperatorKind::BitwiseAnd)) {
                proof {
                    self.lemma_end_is_eof();
                    assert(sp_chain(t, 5, (SP { r: SR::Tree(lsk), pos: self.ppos(), reps: acc })) == (SP { r: SR::Tree(lsk), pos: self.ppos(), reps: acc }));
                }
                break;
            }
            let operator = BinaryOperator::BitwiseAnd;
            proof {
                self.lemma_end_is_eof();
            }
            let ghost q = self.ppos();
            let ghost rq = self.spec_reporter();
            let cursor = self.advance().cursor;
            let ghost a = SP { r: SR::Tree(lsk), pos: q, reps: acc };
            let ghost b = sp_level(t, q + 1, 6);
            let right = match self.expr_cmp() {
                Ok(x) => x,
                Err(d) => {
                    proof {
                        if !(sp_level(t, p0, 5).r is Beyond) {
                            assert(sp_operand(t, q + 1, 5) == b);
                            assert(sp_chain(t, 5, a) == pre(acc, b));
                            if !(b.r is Beyond) {
                                lemma_filed_trans(r0, rq, self.spec_reporter(), t, acc, b.reps);
                            }
                        }
                    }
                    return Err(d);
                },
            };
            proof {
                if !(sp_level(t, p0, 5).r is Beyond) {
                    assert(sp_operand(t, q + 1, 5) == b);
                    match b.r {
                        SR::Tree(rsk) => {
                            let nsk = Sk::Node(OpSk::B(BinaryOperator::BitwiseAnd), q, Box::new(lsk), Box::new(rsk));
                            assert(sp_chain(t, 5, a) == sp_chain(t, 5, (SP { r: SR::Tree(nsk), pos: self.ppos(), reps: acc + b.reps })));
                            lemma_filed_trans(r0, rq, self.spec_reporter(), t, acc, b.reps);
                            lsk = nsk;
                            acc = acc + b.reps;
                        },
                        _ => {
                            assert(sp_chain(t, 5, a) == pre(acc, b));
                        },
                    }
                }
            }
            left = Expression {
                cursor,
                span: left.span.merged(&right.span),
                kind: ExpressionKind::Binary { left: Box::new(left), operator, right: Box::new(right) },
            };
        }
        Ok(left)
    }

    /// `a == b`, `a != b`, `a < b`, `a > b`, `a <= b`, `a >= b`, grouped to the left.
    fn expr_cmp(&mut self) -> (r: DiagnosticResult<Expression>)
        requires
            old(self).wf(),
        ensures
            final(self).moved_on(*old(self)),
            final(self).progressed(*old(self)),
            r matches Ok(e) ==> grouped(e) && precedence(e) >= 6,
            outcome(*old(self), *final(self), r, sp_level(old(self).toks(), old(self).ppos(), 6)),
        decreases old(self).remaining(), 11nat,
    {
        let ghost t = self.toks();
        let ghost p0 = self.ppos();
        let ghost r0 = self.spec_reporter();
        let mut left = self.expr_bitwise_shift()?;
        let ghost mut lsk: Sk = match sp_level(t, p0, 7).r {
            SR::Tree(x) => x,
            _ => Sk::Lit(0),
        };
        let ghost mut acc: Seq<Rep> = sp_level(t, p0, 7).reps;
        loop
            invariant
                grouped(left) && precedence(left) >= 6,
                self.moved_on(*old(self)),
                self.progressed(*old(self)),
                t == old(self).toks(),
                p0 == old(self).ppos(),
                r0 == old(self).spec_reporter(),
                sp_level(t, p0, 6).r is Beyond || (sp_level(t, p0, 6) == sp_chain(
                    t,
                    6,
                    (SP { r: SR::Tree(lsk), pos: self.ppos(), reps: acc }),
                ) && conforms(t, left, lsk) && filed_all(r0, self.spec_reporter(), t, acc)),
            ensures
                sp_level(t, p0, 6).r is Beyond || (sp_level(t, p0, 6) == (SP { r: SR::Tree(lsk), pos: self.ppos(), reps: acc })
                    && conforms(t, left, lsk) && filed_all(r0, self.spec_reporter(), t, acc)),
            decreases self.remaining(),
        {
            let op_kind = match self.current().kind {
                TokenKind::Operator(k) => k,
                _ => {
                    proof {
                    self.lemma_end_is_eof();
                    assert(sp_chain(t, 6, (SP { r: SR::Tree(lsk), pos: self.ppos(), reps: acc })) == (SP { r: SR::Tree(lsk), pos: self.ppos(), reps: acc }));
                }
                break;
                },
            };
            if !matches!(
                op_kind,
                OperatorKind::EqualsEquals | OperatorKind::NotEquals | OperatorKind::LessThan
                    | OperatorKind::GreaterThan | OperatorKind::LessThanOrEqual
                    | OperatorKind::GreaterThanOrEqual
            ) {
                proof {
                    self.lemma_end_is_eof();
                    assert(sp_chain(t, 6, (SP { r: SR::Tree(lsk), pos: self.ppos(), reps: acc })) == (SP { r: SR::Tree(lsk), pos: self.ppos(), reps: acc }));
                }
                break;
            }
            let operator = match ComparisonOperator::try_from(op_kind) {
                Ok(op) => op,
                Err(_) => {
                    proof {
                        assert(spec_comparison_operator(op_kind) is Ok);
                        assert(false);
                    }
                    ComparisonOperator::Equals
                },
            };
            proof {
                self.lemma_end_is_eof();
            }
            let ghost q = self.ppos();
            let ghost rq = self.spec_reporter();
            let cursor = self.advance().cursor;
            let ghost a = SP { r: SR::Tree(lsk), pos: q, reps: acc };
            let ghost b = sp_level(t, q + 1, 7);
            let right = match self.expr_bitwise_shift() {
                Ok(x) => x,
                Err(d) => {
                    proof {
                        if !(sp_level(t, p0, 6).r is Beyond) {
                            assert(sp_operand(t, q + 1, 6) == b);
                            assert(sp_chain(t, 6, a) == pre(acc, b));
                            if !(b.r is Beyond) {
                                lemma_filed_trans(r0, rq, self.spec_reporter(), t, acc, b.reps);
                            }
                        }
                    }
                    return Err(d);
                },
            };
            proof {
                if !(sp_level(t, p0, 6).r is Beyond) {
                    assert(sp_operand(t, q + 1, 6) == b);
                    match b.r {
                        SR::Tree(rsk) => {
                            let nsk = Sk::Node(OpSk::C(operator), q, Box::new(lsk), Box::new(rsk));
                            assert(sp_chain(t, 6, a) == sp_chain(t, 6, (SP { r: SR::Tree(nsk), pos: self.ppos(), reps: acc + b.reps })));
                            lemma_filed_trans(r0, rq, self.spec_reporter(), t, acc, b.reps);
                            lsk = nsk;
                            acc = acc + b.reps;
                        },
                        _ => {
                            assert(sp_chain(t, 6, a) == pre(acc, b));
                        },
                    }
                }
            }
            left = Expression {
                cursor,
                span: left.span.merged(&right.span),
                kind: ExpressionKind::Comparison { left: Box::new(left), operator, right: Box::new(right) },
            };
        }
        Ok(left)
    }

    /// `a << b`, `a >> b`, grouped to the left.
    fn expr_bitwise_shift(&mut self) -> (r: DiagnosticResult<Expression>)
        requires
            old(self).wf(),
        ensures
            final(self).moved_on(*old(self)),
            final(self).progressed(*old(self)),
            r matches Ok(e) ==> grouped(e) && precedence(e) >= 7,
            outcome(*old(self), *final(self), r, sp_level(old(self).toks(), old(self).ppos(), 7)),
        decreases old(self).remaining(), 10nat,
    {
        let ghost t = self.toks();
        let ghost p0 = self.ppos();
        let ghost r0 = self.spec_reporter();
        let mut left = self.expr_additive()?;
        let ghost mut lsk: Sk = match sp_level(t, p0, 8).r {
            SR::Tree(x) => x,
            _ => Sk::Lit(0),
        };
        let ghost mut acc: Seq<Rep> = sp_level(t, p0, 8).reps;
        loop
            invariant
                grouped(left) && precedence(left) >= 7,
                self.moved_on(*old(self)),
                self.progressed(*old(self)),
                t == old(self).toks(),
                p0 == old(self).ppos(),
                r0 == old(self).spec_reporter(),
                sp_level(t, p0, 7).r is Beyond || (sp_level(t, p0, 7) == sp_chain(
                    t,
                    7,
                    (SP { r: SR::Tree(lsk), pos: self.ppos(), reps: acc }),
                ) && conforms(t, left, lsk) && filed_all(r0, self.spec_reporter(), t, acc)),
            ensures
                sp_level(t, p0, 7).r is Beyond || (sp_level(t, p0, 7) == (SP { r: SR::Tree(lsk), pos: self.ppos(), reps: acc })
                    && conforms(t, left, lsk) && filed_all(r0, self.spec_reporter(), t, acc)),
            decreases self.remaining(),
        {
            let operator = match self.current().kind {
                TokenKind::Operator(OperatorKind::ShiftLeft) => BinaryOperator::ShiftLeft,
                TokenKind::Operator(OperatorKind::ShiftRight) => BinaryOperator::ShiftRight,
                _ => {
                    proof {
                    self.lemma_end_is_eof();
                    assert(sp_chain(t, 7, (SP { r: SR::Tree(lsk), pos: self.ppos(), reps: acc })) == (SP { r: SR::Tree(lsk), pos: self.ppos(), reps: acc }));
                }
                break;
                },
            };
            proof {
                self.lemma_end_is_eof();
            }
            let ghost q = self.ppos();
            let ghost rq = self.spec_reporter();
            let cursor = self.advance().cursor;
            let ghost a = SP { r: SR::Tree(lsk), pos: q, reps: acc };
            let ghost b = sp_level(t, q + 1, 8);
            let right = match self.expr_additive() {
                Ok(x) => x,
                Err(d) => {
                    proof {
                        if !(sp_level(t, p0, 7).r is Beyond) {
                            assert(sp_operand(t, q + 1, 7) == b);
                            assert(sp_chain(t, 7, a) == pre(acc, b));
                            if !(b.r is Beyond) {
                                lemma_filed_trans(r0, rq, self.spec_reporter(), t, acc, b.reps);
                            }
                        }
                    }
                    return Err(d);
                },
            };
            proof {
                if !(sp_level(t, p0, 7).r is Beyond) {
                    assert(sp_operand(t, q + 1, 7) == b);
                    match b.r {
                        SR::Tree(rsk) => {
                            let nsk = Sk::Node(OpSk::B(operator), q, Box::new(lsk), Box::new(rsk));
                            assert(sp_chain(t, 7, a) == sp_chain(t, 7, (SP { r: SR::Tree(nsk), pos: self.ppos(), reps: acc + b.reps })));
                            lemma_filed_trans(r0, rq, self.spec_reporter(), t, acc, b.reps);
                            lsk = nsk;
                            acc = acc + b.reps;
                        },
                        _ => {
                            assert(sp_chain(t, 7, a) == pre(acc, b));
                        },
                    }
                }
            }
            left = Expression {
                cursor,
                span: left.span.merged(&right.span),
                kind: ExpressionKind::Binary { left: Box::new(left), operator, right: Box::new(right) },
            };
        }
        Ok(left)
    }

    /// `a + b`, `a - b`, grouped to the left.
    fn expr_additive(&mut self) -> (r: DiagnosticResult<Expression>)
        requires
            old(self).wf(),
        ensures
            final(self).moved_on(*old(self)),
            final(self).progressed(*old(self)),
            r matches Ok(e) ==> grouped(e) && precedence(e) >= 8,
            outcome(*old(self), *final(self), r, sp_level(old(self).toks(), old(self).ppos(), 8)),
        decreases old(self).remaining(), 9nat,
    {
        let ghost t = self.toks();
        let ghost p0 = self.ppos();
        let ghost r0 = self.spec_reporter();
        let mut left = self.expr_multiplicative()?;
        let ghost mut lsk: Sk = match sp_level(t, p0, 9).r {
            SR::Tree(x) => x,
            _ => Sk::Lit(0),
        };
        let ghost mut acc: Seq<Rep> = sp_level(t, p0, 9).reps;
        loop
            invariant
                grouped(left) && precedence(left) >= 8,
                self.moved_on(*old(self)),
                self.progressed(*old(self)),
                t == old(self).toks(),
                p0 == old(self).ppos(),
                r0 == old(self).spec_reporter(),
                sp_level(t, p0, 8).r is Beyond || (sp_level(t, p0, 8) == sp_chain(
                    t,
                    8,
                    (SP { r: SR::Tree(lsk), pos: self.ppos(), reps: acc }),
                ) && conforms(t, left, lsk) && filed_all(r0, self.spec_reporter(), t, acc)),
            ensures
                sp_level(t, p0, 8).r is Beyond || (sp_level(t, p0, 8) == (SP { r: SR::Tree(lsk), pos: self.ppos(), reps: acc })
                    && conforms(t, left, lsk) && filed_all(r0, self.spec_reporter(), t, acc)),
            decreases self.remaining(),
        {
            let operator = match self.current().kind {
                TokenKind::Operator(OperatorKind::Plus) => BinaryOperator::Add,
                TokenKind::Operator(OperatorKind::Minus) => BinaryOperator::Subtract,
                _ => {
                    proof {
                    self.lemma_end_is_eof();
                    assert(sp_chain(t, 8, (SP { r: SR::Tree(lsk), pos: self.ppos(), reps: acc })) == (SP { r: SR::Tree(lsk), pos: self.ppos(), reps: acc }));
                }
                break;
                },
            };
            proof {
                self.lemma_end_is_eof();
            }
            let ghost q = self.ppos();
            let ghost rq = self.spec_reporter();
            let cursor = self.advance().cursor;
            let ghost a = SP { r: SR::Tree(lsk), pos: q, reps: acc };
            let ghost b = sp_level(t, q + 1, 9);
            let right = match self.expr_multiplicative() {
                Ok(x) => x,
                Err(d) => {
                    proof {
                        if !(sp_level(t, p0, 8).r is Beyond) {
                            assert(sp_operand(t, q + 1, 8) == b);
                            assert(sp_chain(t, 8, a) == pre(acc, b));
                            if !(b.r is Beyond) {
                                lemma_filed_trans(r0, rq, self.spec_reporter(), t, acc, b.reps);
                            }
                        }
                    }
                    return Err(d);
                },
            };
            proof {
                if !(sp_level(t, p0, 8).r is Beyond) {
                    assert(sp_operand(t, q + 1, 8) == b);
                    match b.r {
                        SR::Tree(rsk) => {
                            let nsk = Sk::Node(OpSk::B(operator), q, Box::new(lsk), Box::new(rsk));
                            assert(sp_chain(t, 8, a) == sp_chain(t, 8, (SP { r: SR::Tree(nsk), pos: self.ppos(), reps: acc + b.reps })));
                            lemma_filed_trans(r0, rq, self.spec_reporter(), t, acc, b.reps);
                            lsk = nsk;
                            acc = acc + b.reps;
                        },
                        _ => {
                            assert(sp_chain(t, 8, a) == pre(acc, b));
                        },
                    }
                }
            }
            left = Expression {
                cursor,
                span: left.span.merged(&right.span),
                kind: ExpressionKind::Binary { left: Box::new(left), operator, right: Box::new(right) },
            };
        }
        Ok(left)
    }

    /// `a * b`, `a / b`, `a % b`, grouped to the left.
    fn expr_multiplicative(&mut self) -> (r: DiagnosticResult<Expression>)
        requires
            old(self).wf(),
        ensures
            final(self).moved_on(*old(self)),
            final(self).progressed(*old(self)),
            r matches Ok(e) ==> grouped(e) && precedence(e) >= 9,
            outcome(*old(self), *final(self), r, sp_level(old(self).toks(), old(self).ppos(), 9)),
        decreases old(self).remaining(), 8nat,
    {
        let ghost t = self.toks();
        let ghost p0 = self.ppos();
        let ghost r0 = self.spec_reporter();
        let mut left = self.expr_unary()?;
        let ghost mut lsk: Sk = match sp_unary(t, p0).r {
            SR::Tree(x) => x,
            _ => Sk::Lit(0),
        };
        let ghost mut acc: Seq<Rep> = sp_unary(t, p0).reps;
        loop
            invariant
                grouped(left) && precedence(left) >= 9,
                self.moved_on(*old(self)),
                self.progressed(*old(self)),
                t == old(self).toks(),
                p0 == old(self).ppos(),
                r0 == old(self).spec_reporter(),
                sp_level(t, p0, 9).r is Beyond || (sp_level(t, p0, 9) == sp_chain(
                    t,
                    9,
                    (SP { r: SR::Tree(lsk), pos: self.ppos(), reps: acc }),
                ) && conforms(t, left, lsk) && filed_all(r0, self.spec_reporter(), t, acc)),
            ensures
                sp_level(t, p0, 9).r is Beyond || (sp_level(t, p0, 9) == (SP { r: SR::Tree(lsk), pos: self.ppos(), reps: acc })
                    && conforms(t, left, lsk) && filed_all(r0, self.spec_reporter(), t, acc)),
            decreases self.remaining(),
        {
            let operator = match self.current().kind {
                TokenKind::Operator(OperatorKind::Asterisk) => BinaryOperator::Multiply,
                TokenKind::Operator(OperatorKind::Slash) => BinaryOperator::Divide,
                TokenKind::Operator(OperatorKind::Percent) => BinaryOperator::Modulo,
                _ => {
                    proof {
                    self.lemma_end_is_eof();
                    assert(sp_chain(t, 9, (SP { r: SR::Tree(lsk), pos: self.ppos(), reps: acc })) == (SP { r: SR::Tree(lsk), pos: self.ppos(), reps: acc }));
                }
                break;
                },
            };
            proof {
                self.lemma_end_is_eof();
            }
            let ghost q = self.ppos();
            let ghost rq = self.spec_reporter();
            let cursor = self.advance().cursor;
            let ghost a = SP { r: SR::Tree(lsk), pos: q, reps: acc };
            let ghost b = sp_unary(t, q + 1);
            let right = match self.expr_unary() {
                Ok(x) => x,
                Err(d) => {
                    proof {
                        if !(sp_level(t, p0, 9).r is Beyond) {
                            assert(sp_operand(t, q + 1, 9) == b);
                            assert(sp_chain(t, 9, a) == pre(acc, b));
                            if !(b.r is Beyond) {
                                lemma_filed_trans(r0, rq, self.spec_reporter(), t, acc, b.reps);
                            }
                        }
                    }
                    return Err(d);
                },
            };
            proof {
                if !(sp_level(t, p0, 9).r is Beyond) {
                    assert(sp_operand(t, q + 1, 9) == b);
                    match b.r {
                        SR::Tree(rsk) => {
                            let nsk = Sk::Node(OpSk::B(operator), q, Box::new(lsk), Box::new(rsk));
                            assert(sp_chain(t, 9, a) == sp_chain(t, 9, (SP { r: SR::Tree(nsk), pos: self.ppos(), reps: acc + b.reps })));
                            lemma_filed_trans(r0, rq, self.spec_reporter(), t, acc, b.reps);
                            lsk = nsk;
                            acc = acc + b.reps;
                        },
                        _ => {
                            assert(sp_chain(t, 9, a) == pre(acc, b));
                        },
                    }
                }
            }
            left = Expression {
                cursor,
                span: left.span.merged(&right.span),
                kind: ExpressionKind::Binary { left: Box::new(left), operator, right: Box::new(right) },
            };
        }
        Ok(left)
    }

    /// `-a`, `!a`, `~a`; a leading `+` is dropped.
    fn expr_unary(&mut self) -> (r: DiagnosticResult<Expression>)
        requires
            old(self).wf(),
        ensures
            final(self).moved_on(*old(self)),
            final(self).progressed(*old(self)),
            r matches Ok(e) ==> grouped(e) && precedence(e) >= 10,
            outcome(*old(self), *final(self), r, sp_unary(old(self).toks(), old(self).ppos())),
        decreases old(self).remaining(), 7nat,
    {
        let operator = match self.current().kind {
            TokenKind::Operator(OperatorKind::Plus) => None,
            TokenKind::Operator(OperatorKind::Minus) => Some(UnaryOperator::Negative),
            TokenKind::Operator(OperatorKind::Not) => Some(UnaryOperator::Not),
            TokenKind::Operator(OperatorKind::BitwiseNot) => Some(UnaryOperator::BitwiseNot),
            _ => {
                return self.expr_call();
            },
        };
        proof {
            self.lemma_end_is_eof();
        }
        let (op_span, cursor) = self.advance().pos();
        let right = self.expr_unary()?;
        match operator {
            None => Ok(right),
            Some(operator) => Ok(Expression {
                cursor,
                span: op_span.merged(&right.span),
                kind: ExpressionKind::Unary { operator, value: Box::new(right) },
            }),
        }
    }

    /// A primary expression followed by calls `(..)`, property reads `.name` and indexing `[..]`.
    fn expr_call(&mut self) -> (r: DiagnosticResult<Expression>)
        requires
            old(self).wf(),
        ensures
            final(self).moved_on(*old(self)),
            final(self).progressed(*old(self)),
            r matches Ok(e) ==> grouped(e) && precedence(e) == 11,
            outcome(*old(self), *final(self), r, sp_call(old(self).toks(), old(self).ppos())),
        decreases old(self).remaining(), 6nat,
    {
        let ghost t = self.toks();
        let ghost p0 = self.ppos();
        let ghost r0 = self.spec_reporter();
        let mut expr = self.expr_primary()?;
        let ghost mut esk: Sk = match sp_primary(t, p0).r {
            SR::Tree(x) => x,
            _ => Sk::Lit(0),
        };
        let ghost mut acc: Seq<Rep> = sp_primary(t, p0).reps;
        loop
            invariant
                grouped(expr) && precedence(expr) == 11,
                self.moved_on(*old(self)),
                self.progressed(*old(self)),
                t == old(self).toks(),
                p0 == old(self).ppos(),
                r0 == old(self).spec_reporter(),
                sp_call(t, p0).r is Beyond || (sp_call(t, p0) == sp_postfix(t, (SP { r: SR::Tree(esk), pos: self.ppos(), reps: acc }))
                    && conforms(t, expr, esk) && filed_all(r0, self.spec_reporter(), t, acc)),
            ensures
                sp_call(t, p0).r is Beyond || (sp_call(t, p0) == (SP { r: SR::Tree(esk), pos: self.ppos(), reps: acc })
                    && conforms(t, expr, esk) && filed_all(r0, self.spec_reporter(), t, acc)),
            decreases self.remaining(),
        {
            let kind = self.current().kind;
            proof {
                self.lemma_end_is_eof();
            }
            let ghost q = self.ppos();
            let ghost rq = self.spec_reporter();
            let ghost a = SP { r: SR::Tree(esk), pos: q, reps: acc };
            let ghost b = if kind == TokenKind::Punctuation(PunctuationKind::LeftParen) {
                sp_invoke(t, q, esk)
            } else if kind == TokenKind::Punctuation(PunctuationKind::Dot) {
                sp_get(t, q, esk)
            } else {
                sp_index(t, q, esk)
            };
            let res = match kind {
                TokenKind::Punctuation(PunctuationKind::LeftParen) => self.parse_invoke(expr, Ghost(esk)),
                TokenKind::Punctuation(PunctuationKind::Dot) => self.parse_get(expr, Ghost(esk)),
                TokenKind::Punctuation(PunctuationKind::LeftBracket) => self.parse_array_get(expr, Ghost(esk)),
                _ => {
                    proof {
                        assert(sp_postfix(t, a) == a);
                    }
                    break;
                },
            };
            match res {
                Ok(x) => {
                    proof {
                        if !(sp_call(t, p0).r is Beyond) {
                            match b.r {
                                SR::Tree(n) => {
                                    assert(sp_postfix(t, a) == sp_postfix(t, pre(acc, b)));
                                    lemma_filed_trans(r0, rq, self.spec_reporter(), t, acc, b.reps);
                                    esk = n;
                                    acc = acc + b.reps;
                                },
                                _ => {
                                    assert(sp_postfix(t, a) == pre(acc, b));
                                },
                            }
                        }
                    }
                    expr = x;
                },
                Err(d) => {
                    proof {
                        if !(sp_call(t, p0).r is Beyond) {
                            assert(sp_postfix(t, a) == pre(acc, b));
                            if !(b.r is Beyond) {
                                lemma_filed_trans(r0, rq, self.spec_reporter(), t, acc, b.reps);
                            }
                        }
                    }
                    return Err(d);
                },
            }
        }
        Ok(expr)
    }

    /// The value of an integer literal: its text, or for a radix-prefixed literal the decimal
    /// text of its value.
    fn integer_literal_value(&self, lexeme: &String, span: Span, cursor: Cursor) -> (r: DiagnosticResult<String>)
        ensures
            !has_radix_prefix(lexeme@) ==> (r matches Ok(v) && v@ == lexeme@),
            has_radix_prefix(lexeme@) && radix_literal_value(lexeme@) is Some ==> (r matches Ok(v) && v@
                == crate::text::decimal(radix_literal_value(lexeme@).unwrap())),
            has_radix_prefix(lexeme@) && radix_literal_value(lexeme@) is None ==> (r matches Err(d)
                && d.message matches DiagnosticMessage::Parser(ParserDiagnostic::InvalidNumberLiteral(s))
                && s@ == lexeme@ && d.span == span && d.cursor == cursor),
    {
        let text = lexeme.as_str();
        let n = text.unicode_len();
        if n >= 2 && text.get_char(0) == '0' {
            let second = text.get_char(1);
            if !('0' <= second && second <= '9') {
                let base = match radix_base_of(second) {
                    Some(b) => b,
                    None => {
                        return Err(self.diagnostic_at(
                            ParserDiagnostic::InvalidNumberLiteral(lexeme.clone()),
                            span,
                            cursor,
                        ));
                    },
                };
                let parsed = match parse_radix(text, 2, base) {
                    Some(v) => v,
                    None => {
                        return Err(self.diagnostic_at(
                            ParserDiagnostic::InvalidNumberLiteral(lexeme.clone()),
                            span,
                            cursor,
                        ));
                    },
                };
                let mut out = String::new();
                push_decimal_u64(&mut out, parsed);
                proof {
                    assert(Seq::<char>::empty() + crate::text::decimal(parsed as nat) =~= crate::text::decimal(parsed as nat));
                }
                return Ok(out);
            }
        }
        Ok(lexeme.clone())
    }

    /// A group `( .. )`, a variable, a literal or an array literal.
    fn expr_primary(&mut self) -> (r: DiagnosticResult<Expression>)
        requires
            old(self).wf(),
        ensures
            final(self).moved_on(*old(self)),
            final(self).progressed(*old(self)),
            r matches Ok(e) ==> grouped(e) && precedence(e) == 11,
            outcome(*old(self), *final(self), r, sp_primary(old(self).toks(), old(self).ppos())),
        decreases old(self).remaining(), 5nat,
    {
        proof {
            self.lemma_end_is_eof();
        }
        let ghost t = self.toks();
        let ghost p0 = self.ppos();
        let current = self.current();
        let kind = current.kind;
        let (span, cursor) = current.pos();
        let expr = match kind {
            TokenKind::Punctuation(PunctuationKind::LeftParen) => {
                self.advance();
                let inner = self.parse_expression()?;
                self.expect(TokenKind::Punctuation(PunctuationKind::RightParen))?;
                Expression { cursor, span: span.merged(&inner.span), kind: ExpressionKind::Group { inner: Box::new(inner) } }
            },
            TokenKind::Identifier => {
                let name = current.lexeme.clone();
                Expression {
                    kind: ExpressionKind::Variable { symbol: AstSymbol::new(name, span, cursor) },
                    cursor,
                    span,
                }
            },
            TokenKind::Literal(lit) => {
                let value = if lit == LiteralKind::Integer {
                    match self.integer_literal_value(&current.lexeme, span, cursor) {
                        Ok(v) => v,
                        Err(d) => {
                            proof {
                                assert(!radix_ok(self.toks()[self.ppos() as int]));
                            }
                            return Err(d);
                        },
                    }
                } else {
                    current.lexeme.clone()
                };
                Expression { cursor, span, kind: ExpressionKind::Literal { kind: AstLiteralKind::from(lit), value } }
            },
            TokenKind::Punctuation(PunctuationKind::LeftBracket) => {
                self.advance();
                self.array_literal(span, cursor)?
            },
            _ => {
                let previous = self.advance();
                let (pspan, pcursor) = previous.pos();
                let pkind = previous.kind;
                return Err(self.diagnostic_at(ParserDiagnostic::UnexpectedToken(pkind), pspan, pcursor));
            },
        };
        self.advance();
        Ok(expr)
    }

    /// The elements of an array literal whose `[` was read: `a, b, c` or `T; n`,
    /// up to the `]` (which is left to read).
    #[verifier::rlimit(100)]
    #[verifier::spinoff_prover]
    fn array_literal(&mut self, span: Span, cursor: Cursor) -> (r: DiagnosticResult<Expression>)
        requires
            old(self).wf(),
            old(self).ppos() > 0,
            span == tok(old(self).toks(), (old(self).ppos() - 1) as nat).span,
            cursor == tok(old(self).toks(), (old(self).ppos() - 1) as nat).cursor,
        ensures
            final(self).moved_on(*old(self)),
            r matches Ok(e) ==> e.kind is ArrayLiteral && grouped(e),
            outcome(*old(self), *final(self), r, sp_array(old(self).toks(), (old(self).ppos() - 1) as nat)),
        decreases old(self).remaining(), 30nat,
    {
        let ghost t = self.toks();
        let ghost p = (self.ppos() - 1) as nat;
        let ghost r0 = self.spec_reporter();
        let ghost live = !(sp_array(t, p).r is Beyond);
        let ghost mut xs: Seq<Sk> = Seq::empty();
        let ghost mut acc: Seq<Rep> = Seq::empty();
        let ghost mut tyj: Option<nat> = None;
        let ghost mut szk: Option<Box<Sk>> = None;
        let mut elements: Vec<Expression> = Vec::new();
        let mut ty = TypeKind::Unknown;
        let mut size: Option<Box<Expression>> = None;
        proof {
            self.lemma_end_is_eof();
        }
        if !self.check(TokenKind::Punctuation(PunctuationKind::RightBracket)) {
            proof {
                if live {
                    assert(sp_array(t, p) == sp_elems(t, p, p + 1, xs));
                    lemma_filed_none(r0, t);
                    assert(pre(acc, sp_elems(t, p, p + 1, xs)) == sp_elems(t, p, p + 1, xs)) by {
                        assert(acc + sp_elems(t, p, p + 1, xs).reps =~= sp_elems(t, p, p + 1, xs).reps);
                    }
                }
            }
            loop
                invariant_except_break
                    live ==> sp_array(t, p) == pre(acc, sp_elems(t, p, self.ppos(), xs)),
                    live ==> ty == TypeKind::Unknown && size is None && tyj is None && szk is None,
                invariant
                    forall|j: int| 0 <= j < elements@.len() ==> grouped(#[trigger] elements@[j]),
                    size matches Some(n) ==> grouped(*n),
                    self.moved_on(*old(self)),
                    self.remaining() <= old(self).remaining(),
                    self.ppos() > p,
                    t == old(self).toks(),
                    p == (old(self).ppos() - 1) as nat,
                    r0 == old(self).spec_reporter(),
                    live == !(sp_array(t, p).r is Beyond),
                    live ==> {
                        &&& elements@.len() == xs.len()
                        &&& forall|k: int| 0 <= k < xs.len() ==> conforms(t, #[trigger] elements@[k], xs[k])
                        &&& filed_all(r0, self.spec_reporter(), t, acc)
                    },
                ensures
                    live ==> {
                        &&& sp_array(t, p) == arr_end(t, p, xs, tyj, szk, self.ppos(), acc)
                        &&& match tyj {
                            None => ty == TypeKind::Unknown,
                            Some(m) => type_named(ty, tok(t, m).lexeme@),
                        }
                        &&& match szk {
                            None => size is None,
                            Some(x) => size matches Some(b) && conforms(t, *b, *x),
                        }
                    },
                decreases self.remaining(),
            {
                let ghost q = self.ppos();
                let ghost rq = self.spec_reporter();
                let ghost e = sp_expression(t, q);
                let element = match self.parse_expression() {
                    Ok(x) => x,
                    Err(d) => {
                        proof {
                            if live {
                                assert(sp_elems(t, p, q, xs) == e);
                                if !(e.r is Beyond) {
                                    lemma_filed_trans(r0, rq, self.spec_reporter(), t, acc, e.reps);
                                }
                            }
                        }
                        return Err(d);
                    },
                };
                let ghost x = e.r->Tree_0;
                let ghost before = elements@;
                elements.push(element);
                proof {
                    self.lemma_end_is_eof();
                    if live {
                        lemma_filed_trans(r0, rq, self.spec_reporter(), t, acc, e.reps);
                    }
                }
                if self.check(TokenKind::Punctuation(PunctuationKind::RightBracket)) {
                    proof {
                        if live {
                            assert(sp_elems(t, p, q, xs) == arr_end(t, p, xs.push(x), None, None, self.ppos(), e.reps));
                            assert(acc + e.reps == pre(acc, arr_end(t, p, xs.push(x), None, None, self.ppos(), e.reps)).reps);
                            xs = xs.push(x);
                            acc = acc + e.reps;
                        }
                    }
                    break;
                } else if self.check(TokenKind::Punctuation(PunctuationKind::Semicolon)) {
                    let ghost k = self.ppos();
                    self.advance();
                    let type_expr = match elements.pop() {
                        Some(e) => e,
                        None => {
                            return Err(self.diagnostic_at(ParserDiagnostic::MissingArrayTypeAnnotation, span, cursor));
                        },
                    };
                    proof {
                        if live {
                            assert(type_expr == element);
                            assert(elements@ =~= before);
                        }
                    }
                    let elem_name = match type_expr.kind {
                        ExpressionKind::Variable { symbol } => symbol.name,
                        _ => {
                            proof {
                                if live {
                                    assert(!(x is Var));
                                    assert(sp_elems(t, p, q, xs) == (SP {
                                        r: SR::Fail(Fail::NotAType(x)),
                                        pos: k + 1,
                                        reps: e.reps,
                                    }));
                                    assert(conforms(t, type_expr, x));
                                }
                            }
                            return Err(self.diagnostic_at(
                                ParserDiagnostic::MissingArrayTypeAnnotation,
                                type_expr.span,
                                type_expr.cursor,
                            ));
                        },
                    };
                    ty = TypeKind::from_name(elem_name.as_str());
                    let ghost rn = self.spec_reporter();
                    let ghost nn = sp_expression(t, k + 1);
                    let n = match self.parse_expression() {
                        Ok(v) => v,
                        Err(d) => {
                            proof {
                                if live {
                                    assert(sp_elems(t, p, q, xs) == pre(e.reps, nn));
                                    lemma_pre_pre(acc, e.reps, nn);
                                    if !(nn.r is Beyond) {
                                        lemma_filed_trans(r0, rn, self.spec_reporter(), t, acc + e.reps, nn.reps);
                                    }
                                }
                            }
                            return Err(d);
                        },
                    };
                    size = Some(Box::new(n));
                    proof {
                        if live {
                            let j = x->Var_0;
                            let sz = nn.r->Tree_0;
                            assert(sp_elems(t, p, q, xs) == arr_end(t, p, xs, Some(j), Some(Box::new(sz)), self.ppos(), e.reps + nn.reps));
                            lemma_filed_trans(r0, rn, self.spec_reporter(), t, acc + e.reps, nn.reps);
                            assert(acc + (e.reps + nn.reps) =~= (acc + e.reps) + nn.reps);
                            tyj = Some(j);
                            szk = Some(Box::new(sz));
                            acc = acc + e.reps + nn.reps;
                        }
                    }
                    break;
                } else {
                    let ghost k = self.ppos();
                    let ghost rc = self.spec_reporter();
                    match self.consume(TokenKind::Punctuation(PunctuationKind::Comma)) {
                        Ok(_) => {},
                        Err(d) => {
                            proof {
                                if live {
                                    assert(sp_elems(t, p, q, xs) == (SP {
                                        r: SR::Fail(Fail::Expected(TokenKind::Punctuation(PunctuationKind::Comma), k)),
                                        pos: k,
                                        reps: e.reps,
                                    }));
                                }
                            }
                            return Err(d);
                        },
                    }
                    proof {
                        if live {
                            assert(sp_elems(t, p, q, xs) == pre(e.reps, sp_elems(t, p, self.ppos(), xs.push(x))));
                            lemma_pre_pre(acc, e.reps, sp_elems(t, p, self.ppos(), xs.push(x)));
                            xs = xs.push(x);
                            acc = acc + e.reps;
                        }
                    }
                }
            }
        } else {
            proof {
                lemma_filed_none(r0, t);
            }
        }
        let rbracket = self.expect(TokenKind::Punctuation(PunctuationKind::RightBracket))?;
        let rspan = rbracket.span;
        Ok(Expression {
            cursor,
            span: span.merged(&rspan),
            kind: ExpressionKind::ArrayLiteral { elements, inner_type: ty, size },
        })
    }

    /// `target.name`
    fn parse_get(&mut self, target: Expression, Ghost(ts): Ghost<Sk>) -> (r: DiagnosticResult<Expression>)
        requires
            grouped(target),
            old(self).wf(),
            old(self).cur().kind == TokenKind::Punctuation(PunctuationKind::Dot),
        ensures
            final(self).moved_on(*old(self)),
            final(self).ppos() > old(self).ppos(),
            r matches Ok(e) ==> e.kind is Get && grouped(e),
            conforms(old(self).toks(), target, ts) ==> outcome(
                *old(self),
                *final(self),
                r,
                sp_get(old(self).toks(), old(self).ppos(), ts),
            ),
        decreases old(self).remaining(), 4nat,
    {
        proof {
            self.lemma_end_is_eof();
            lemma_filed_none(self.spec_reporter(), self.toks());
        }
        let (span, cursor) = self.consume(TokenKind::Punctuation(PunctuationKind::Dot))?.pos();
        proof {
            self.lemma_end_is_eof();
        }
        let identifier = self.consume(TokenKind::Identifier)?;
        let property_symbol = AstSymbol::new(identifier.lexeme.clone(), identifier.span, identifier.cursor);
        let ispan = identifier.span;
        Ok(Expression {
            cursor,
            span: span.merged(&ispan),
            kind: ExpressionKind::Get { object: Box::new(target), property_symbol },
        })
    }

    /// `target[index]`
    fn parse_array_get(&mut self, target: Expression, Ghost(ts): Ghost<Sk>) -> (r: DiagnosticResult<Expression>)
        requires
            grouped(target),
            old(self).wf(),
            old(self).cur().kind == TokenKind::Punctuation(PunctuationKind::LeftBracket),
        ensures
            final(self).moved_on(*old(self)),
            final(self).ppos() > old(self).ppos(),
            r matches Ok(e) ==> e.kind is ArrayGet && grouped(e),
            conforms(old(self).toks(), target, ts) ==> outcome(
                *old(self),
                *final(self),
                r,
                sp_index(old(self).toks(), old(self).ppos(), ts),
            ),
        decreases old(self).remaining(), 4nat,
    {
        proof {
            self.lemma_end_is_eof();
        }
        let (span, cursor) = self.consume(TokenKind::Punctuation(PunctuationKind::LeftBracket))?.pos();
        let index = self.parse_expression()?;
        proof {
            self.lemma_end_is_eof();
        }
        let rspan = self.consume(TokenKind::Punctuation(PunctuationKind::RightBracket))?.span;
        Ok(Expression {
            cursor,
            span: span.merged(&rspan),
            kind: ExpressionKind::ArrayGet { array: Box::new(target), index: Box::new(index) },
        })
    }

    /// `callee(arg, ..)`
    #[verifier::rlimit(40)]
    fn parse_invoke(&mut self, callee: Expression, Ghost(cs): Ghost<Sk>) -> (r: DiagnosticResult<Expression>)
        requires
            grouped(callee),
            old(self).wf(),
            old(self).cur().kind == TokenKind::Punctuation(PunctuationKind::LeftParen),
        ensures
            final(self).moved_on(*old(self)),
            final(self).ppos() > old(self).ppos(),
            r matches Ok(e) ==> e.kind is Invoke && grouped(e),
            conforms(old(self).toks(), callee, cs) ==> outcome(
                *old(self),
                *final(self),
                r,
                sp_invoke(old(self).toks(), old(self).ppos(), cs),
            ),
        decreases old(self).remaining(), 4nat,
    {
        let ghost t = self.toks();
        let ghost q0 = self.ppos();
        let ghost r0 = self.spec_reporter();
        proof {
            self.lemma_end_is_eof();
            lemma_filed_none(r0, t);
        }
        let (span, cursor) = self.consume(TokenKind::Punctuation(PunctuationKind::LeftParen))?.pos();
        let mut arguments: Vec<Expression> = Vec::new();
        let ghost mut asks: Seq<Sk> = Seq::empty();
        let ghost mut acc: Seq<Rep> = Seq::empty();
        if !self.check(TokenKind::Punctuation(PunctuationKind::RightParen)) {
            proof {
                assert(pre(acc, sp_args(t, q0 + 1, Seq::empty())) == sp_args(t, q0 + 1, Seq::empty())) by {
                    assert(acc + sp_args(t, q0 + 1, Seq::empty()).reps =~= sp_args(t, q0 + 1, Seq::empty()).reps);
                }
            }
            loop
                invariant_except_break
                    sp_args(t, q0 + 1, Seq::empty()).r is Beyond || sp_args(t, q0 + 1, Seq::empty()) == pre(
                        acc,
                        sp_args(t, self.ppos(), asks),
                    ),
                invariant
                    forall|j: int| 0 <= j < arguments@.len() ==> grouped(#[trigger] arguments@[j]),
                    self.moved_on(*old(self)),
                    self.remaining() < old(self).remaining(),
                    t == old(self).toks(),
                    q0 == old(self).ppos(),
                    r0 == old(self).spec_reporter(),
                    q0 < t.len(),
                    tok(t, q0 + 1).kind != TokenKind::Punctuation(PunctuationKind::RightParen),
                    sp_args(t, q0 + 1, Seq::empty()).r is Beyond || (arguments@.len() == asks.len() && (forall|k: int|
                        0 <= k < asks.len() ==> conforms(t, #[trigger] arguments@[k], asks[k])) && filed_all(
                        r0,
                        self.spec_reporter(),
                        t,
                        acc,
                    )),
                ensures
                    sp_args(t, q0 + 1, Seq::empty()).r is Beyond || (sp_args(t, q0 + 1, Seq::empty()) == (SP {
                        r: SR::Tree(Sk::Invoke(0, 0, Box::new(Sk::Lit(0)), asks)),
                        pos: self.ppos(),
                        reps: acc,
                    }) && tok(t, self.ppos()).kind == TokenKind::Punctuation(PunctuationKind::RightParen)),
                decreases self.remaining(),
            {
                let ghost p = self.ppos();
                let ghost rp = self.spec_reporter();
                let ghost x = sp_expression(t, p);
                let argument = match self.parse_expression() {
                    Ok(v) => v,
                    Err(d) => {
                        proof {
                            if !(sp_args(t, q0 + 1, Seq::empty()).r is Beyond) {
                                assert(sp_args(t, p, asks) == x);
                                if !(x.r is Beyond) {
                                    lemma_filed_trans(r0, rp, self.spec_reporter(), t, acc, x.reps);
                                }
                            }
                        }
                        return Err(d);
                    },
                };
                let ghost all = asks.push(match x.r {
                    SR::Tree(s) => s,
                    _ => Sk::Lit(0),
                });
                let ghost before = arguments@;
                arguments.push(argument);
                proof {
                    if !(sp_args(t, q0 + 1, Seq::empty()).r is Beyond) {
                        assert(x.r is Tree);
                        assert(arguments@ == before.push(argument));
                        lemma_filed_trans(r0, rp, self.spec_reporter(), t, acc, x.reps);
                    }
                    self.lemma_end_is_eof();
                }
                if self.check(TokenKind::Punctuation(PunctuationKind::RightParen)) {
                    proof {
                        if !(sp_args(t, q0 + 1, Seq::empty()).r is Beyond) {
                            assert(sp_args(t, p, asks) == (SP {
                                r: SR::Tree(Sk::Invoke(0, 0, Box::new(Sk::Lit(0)), all)),
                                pos: self.ppos(),
                                reps: x.reps,
                            }));
                        }
                        asks = all;
                        acc = acc + x.reps;
                    }
                    break;
                }
                let ghost k = self.ppos();
                match self.consume(TokenKind::Punctuation(PunctuationKind::Comma)) {
                    Ok(_) => {},
                    Err(d) => {
                        proof {
                            if !(sp_args(t, q0 + 1, Seq::empty()).r is Beyond) {
                                assert(sp_args(t, p, asks) == (SP {
                                    r: SR::Fail(Fail::Expected(TokenKind::Punctuation(PunctuationKind::Comma), k)),
                                    pos: k,
                                    reps: x.reps,
                                }));
                            }
                        }
                        return Err(d);
                    },
                }
                proof {
                    if !(sp_args(t, q0 + 1, Seq::empty()).r is Beyond) {
                        assert(sp_args(t, p, asks) == pre(x.reps, sp_args(t, self.ppos(), all)));
                        lemma_pre_pre(acc, x.reps, sp_args(t, self.ppos(), all));
                    }
                    asks = all;
                    acc = acc + x.reps;
                }
            }
        }
        proof {
            self.lemma_end_is_eof();
        }
        let rspan = self.consume(TokenKind::Punctuation(PunctuationKind::RightParen))?.span;
        Ok(Expression {
            cursor,
            span: span.merged(&rspan),
            kind: ExpressionKind::Invoke { callee: Box::new(callee), arguments },
        })
    }
}

} // verus!
