use vstd::prelude::*;

use crate::ast::expressions::{Expression, ExpressionKind, LiteralKind as AstLiteralKind};
use crate::ast::operators::{BinaryOperator, ComparisonOperator, LogicalOperator, Operator, UnaryOperator};
use crate::ast::expressions::ConditionalBranch;
use crate::ast::statements::{ImportPropertyKind, Parameter, Renameable, Statement, StatementKind};
use crate::ast::symbol::AstSymbol;
use crate::ast::types::{primitive_of_name, TypeKind};
use crate::ast::visibility::{spec_scoped, Visibility};
use crate::diagnostic::{DiagnosticMessage, DiagnosticReport, DiagnosticResult};
use crate::lexer::tokens::convert::{
    spec_assign_operator, spec_binary_operator, spec_comparison_operator, spec_logical_operator,
};
use crate::lexer::tokens::kind::{KeywordKind, LiteralKind, OperatorKind, PunctuationKind, TokenKind};
use crate::lexer::tokens::Token;
use crate::parser::diagnostics::ParserDiagnostic;
use crate::diagnostic::reporter::Reporter;
use crate::parser::{has_radix_prefix, radix_literal_value, report_at, reporter_grew, semi_required, LumaParser};
use crate::span::Span;
use crate::text::decimal;

verus! {

// The grammar the parser reads, over its tokens: which tree it builds from which tokens,
// which report it gives where reading fails, and where it stops. Trees are given by token
// positions (`Sk` for expressions, `StSk` for statements); `conforms` and `st_conforms` say
// that a syntax tree is the one a skeleton describes. Each reading also lists the reports
// it files on its way (`Rep`), in order. A reading is `Beyond` only on token sequences the
// parser does not read to an end: where it stops without moving on, or where the tokens do
// not end with the end of the file.

/// The token at position `p`, or the last token past the end (as the stream gives it).
pub open spec fn tok(t: Seq<Token>, p: nat) -> Token {
    if p < t.len() {
        t[p as int]
    } else {
        t.last()
    }
}

/// The position after reading the token at `p` (the stream does not move past its end).
pub open spec fn after(t: Seq<Token>, p: nat) -> nat {
    if p < t.len() {
        p + 1
    } else {
        p
    }
}

/// How many tokens are left from `p` on.
pub open spec fn rem(t: Seq<Token>, p: nat) -> nat {
    if p <= t.len() {
        (t.len() - p) as nat
    } else {
        0
    }
}

/// The rank of binary level `level` in the order of reading (looser levels first).
pub open spec fn lv(level: nat) -> nat {
    if level <= 9 {
        (3 * (40 - level)) as nat
    } else {
        0
    }
}

/// An operator of a binary node.
pub enum OpSk {
    B(BinaryOperator),
    L(LogicalOperator),
    C(ComparisonOperator),
}

/// The shape of an expression, by the positions of the tokens it was read from.
pub enum Sk {
    /// A variable named by the identifier at the position.
    Var(nat),
    /// The literal at the position.
    Lit(nat),
    /// `( inner )`, by the position of `(`.
    Group(nat, Box<Sk>),
    /// An operator (at the position) applied to two operands.
    Node(OpSk, nat, Box<Sk>, Box<Sk>),
    /// A unary operator (at the position) applied to an operand.
    Unary(UnaryOperator, nat, Box<Sk>),
    /// A call: the positions of `(` and `)`, the callee and the arguments.
    Invoke(nat, nat, Box<Sk>, Seq<Sk>),
    /// A property read: the positions of `.` and of the name, and the object.
    Get(nat, nat, Box<Sk>),
    /// Indexing: the positions of `[` and `]`, the array and the index.
    Index(nat, nat, Box<Sk>, Box<Sk>),
    /// An assignment to the variable at the first position, by the operator at the second.
    Assign(nat, nat, Box<Sk>),
    /// `if c { .. } else if c { .. } else ..`: the position of `if`, the conditions and the
    /// bodies of the branches (the first branch first), and the body after the last `else`.
    If(nat, Seq<Sk>, Seq<Sk>, Option<Box<Sk>>),
    /// A braced scope: the position of `{`, the statements kept, the value, where reading
    /// stopped, and whether it stopped at the closing `}`.
    Scope(nat, Seq<StSk>, Option<Box<Sk>>, nat, bool),
    /// An array literal: the positions of `[`, of the element type's name and of `]`, the
    /// elements and the size.
    Array(nat, Seq<Sk>, Option<nat>, Option<Box<Sk>>, nat),
}

/// Why reading stopped with an error.
pub enum Fail {
    /// The token at the position cannot start an operand.
    Unexpected(nat),
    /// The token of the kind was expected at the position.
    Expected(TokenKind, nat),
    /// The left-hand side of the assignment operator at the position, of the given kind,
    /// is no variable.
    InvalidLhs(Seq<char>, nat),
    /// The radix literal at the position cannot be read.
    InvalidNumber(nat),
    /// A function has no body: the report stands at the position.
    MissingBody(nat),
    /// The expression before `;` in an array literal is no type name.
    NotAType(Sk),
    /// The contextual keyword was expected at the position.
    Keyword(Seq<char>, nat),
}

/// What reading gives: a tree, an error, or no end (see the head of this file).
pub enum SR {
    Tree(Sk),
    Fail(Fail),
    Beyond,
}

/// A result, the position reading stopped at, and the reports filed on the way.
pub struct SP {
    pub r: SR,
    pub pos: nat,
    pub reps: Seq<Rep>,
}

/// `s`, after the reports `r` were filed.
pub open spec fn pre(r: Seq<Rep>, s: SP) -> SP {
    SP { r: s.r, pos: s.pos, reps: r + s.reps }
}

/// Filing `a`, then `b`, then reading `s`, is filing `a + b`, then reading `s`.
pub proof fn lemma_pre_pre(a: Seq<Rep>, b: Seq<Rep>, s: SP)
    ensures
        pre(a, pre(b, s)) == pre(a + b, s),
{
    assert(a + (b + s.reps) =~= (a + b) + s.reps);
}

/// The name of the kind of expression a skeleton stands for.
pub open spec fn sk_name(s: Sk) -> Seq<char> {
    match s {
        Sk::Var(_) => "variable"@,
        Sk::Lit(_) => "literal"@,
        Sk::Group(..) => "group"@,
        Sk::Node(OpSk::B(_), ..) => "binary"@,
        Sk::Node(OpSk::L(_), ..) => "logical"@,
        Sk::Node(OpSk::C(_), ..) => "comparison"@,
        Sk::Unary(..) => "unary"@,
        Sk::Invoke(..) => "invoke"@,
        Sk::Get(..) => "get"@,
        Sk::Index(..) => "array_get"@,
        Sk::Assign(..) => "assign"@,
        Sk::If(..) => "if"@,
        Sk::Scope(..) => "scope"@,
        Sk::Array(..) => "array_literal"@,
    }
}

/// The operator of binary precedence level `level` (1: `||` .. 9: `* / %`) that the token
/// kind `k` is, if any.
pub open spec fn level_op(level: nat, k: TokenKind) -> Option<OpSk> {
    match k {
        TokenKind::Operator(o) => if level == 1 {
            if o == OperatorKind::Or { Some(OpSk::L(LogicalOperator::Or)) } else { None }
        } else if level == 2 {
            if o == OperatorKind::And { Some(OpSk::L(LogicalOperator::And)) } else { None }
        } else if level == 3 {
            if o == OperatorKind::BitwiseOr { Some(OpSk::B(BinaryOperator::BitwiseOr)) } else { None }
        } else if level == 4 {
            if o == OperatorKind::BitwiseXor { Some(OpSk::B(BinaryOperator::BitwiseXor)) } else { None }
        } else if level == 5 {
            if o == OperatorKind::BitwiseAnd { Some(OpSk::B(BinaryOperator::BitwiseAnd)) } else { None }
        } else if level == 6 {
            if o == OperatorKind::EqualsEquals || o == OperatorKind::NotEquals || o == OperatorKind::LessThan
                || o == OperatorKind::GreaterThan || o == OperatorKind::LessThanOrEqual
                || o == OperatorKind::GreaterThanOrEqual {
                Some(OpSk::C(spec_comparison_operator(o)->Ok_0))
            } else {
                None
            }
        } else if level == 7 {
            if o == OperatorKind::ShiftLeft {
                Some(OpSk::B(BinaryOperator::ShiftLeft))
            } else if o == OperatorKind::ShiftRight {
                Some(OpSk::B(BinaryOperator::ShiftRight))
            } else {
                None
            }
        } else if level == 8 {
            if o == OperatorKind::Plus {
                Some(OpSk::B(BinaryOperator::Add))
            } else if o == OperatorKind::Minus {
                Some(OpSk::B(BinaryOperator::Subtract))
            } else {
                None
            }
        } else if level == 9 {
            if o == OperatorKind::Asterisk {
                Some(OpSk::B(BinaryOperator::Multiply))
            } else if o == OperatorKind::Slash {
                Some(OpSk::B(BinaryOperator::Divide))
            } else if o == OperatorKind::Percent {
                Some(OpSk::B(BinaryOperator::Modulo))
            } else {
                None
            }
        } else {
            None
        },
        _ => None,
    }
}

/// `op` is the operator that the token kind `k` converts to (`BinaryOperator::try_from`,
/// `LogicalOperator::try_from` or `ComparisonOperator::try_from` of its operator kind).
pub open spec fn op_of_token(op: OpSk, k: TokenKind) -> bool {
    match k {
        TokenKind::Operator(o) => match op {
            OpSk::B(b) => spec_binary_operator(o) == Result::<BinaryOperator, ()>::Ok(b),
            OpSk::L(l) => spec_logical_operator(o) == Result::<LogicalOperator, ()>::Ok(l),
            OpSk::C(c) => spec_comparison_operator(o) == Result::<ComparisonOperator, ()>::Ok(c),
        },
        _ => false,
    }
}

/// At every precedence level, an operator token stands for the operator its kind converts
/// to: `%` for the remainder, `/` for division, `>=` for greater-or-equal, and so on.
pub proof fn lemma_level_op_converts(level: nat, k: TokenKind)
    ensures
        level_op(level, k) matches Some(op) ==> op_of_token(op, k),
{
}

/// Reading an operator of the level after a first operand, and the next operand after it,
/// builds the node of the operator that the token converts to, over the two operands, and
/// goes on reading the chain from there.
pub proof fn lemma_chain_node_converts(t: Seq<Token>, level: nat, a: SP)
    requires
        1 <= level <= 9,
        a.r is Tree,
        a.pos < t.len(),
        level_op(level, tok(t, a.pos).kind) is Some,
        sp_operand(t, a.pos + 1, level).r is Tree,
        sp_operand(t, a.pos + 1, level).pos > a.pos,
    ensures
        exists|op: OpSk|
            op_of_token(op, tok(t, a.pos).kind) && #[trigger] sp_chain(
                t,
                level,
                SP {
                    r: SR::Tree(
                        Sk::Node(
                            op,
                            a.pos,
                            Box::new(a.r->Tree_0),
                            Box::new(sp_operand(t, a.pos + 1, level).r->Tree_0),
                        ),
                    ),
                    pos: sp_operand(t, a.pos + 1, level).pos,
                    reps: a.reps + sp_operand(t, a.pos + 1, level).reps,
                },
            ) == sp_chain(t, level, a),
{
    let op = level_op(level, tok(t, a.pos).kind)->Some_0;
    lemma_level_op_converts(level, tok(t, a.pos).kind);
    let b = sp_operand(t, a.pos + 1, level);
    let n = SP {
        r: SR::Tree(Sk::Node(op, a.pos, Box::new(a.r->Tree_0), Box::new(b.r->Tree_0))),
        pos: b.pos,
        reps: a.reps + b.reps,
    };
    assert(sp_chain(t, level, n) == sp_chain(t, level, a));
}

/// An expression (see `parse_expression`): an `if`, a braced scope, or an assignment.
pub open spec fn sp_expression(t: Seq<Token>, p: nat) -> SP
    decreases rem(t, p), 201nat,
{
    let k = tok(t, p).kind;
    if p < t.len() && k == TokenKind::Keyword(KeywordKind::If) {
        sp_if(t, p)
    } else if p < t.len() && k == TokenKind::Punctuation(PunctuationKind::LeftBrace) {
        sp_block(t, p)
    } else {
        sp_assignment(t, p)
    }
}

/// A braced scope, its `{` at `p`: its statements, then past its `}`.
pub open spec fn sp_block(t: Seq<Token>, p: nat) -> SP
    decreases rem(t, p), 196nat,
{
    if p < t.len() {
        match sp_scope(t, p + 1, false) {
            ScopeR::Done(sks, v, reps, pos, closed) => SP {
                r: SR::Tree(
                    Sk::Scope(
                        p,
                        sks,
                        match v {
                            Some(x) => Some(Box::new(x)),
                            None => None,
                        },
                        pos,
                        closed,
                    ),
                ),
                pos: if closed { pos + 1 } else { pos },
                reps,
            },
            ScopeR::Beyond => SP { r: SR::Beyond, pos: p, reps: Seq::empty() },
        }
    } else {
        SP { r: SR::Beyond, pos: p, reps: Seq::empty() }
    }
}

/// What reading a conditional branch gives: its condition and body, or a failure.
pub enum BrR {
    Tree(Sk, Sk),
    Fail(Fail),
    Beyond,
}

/// A conditional branch, its result, where reading stopped and the reports filed.
pub struct BrP {
    pub r: BrR,
    pub pos: nat,
    pub reps: Seq<Rep>,
}

/// A condition and then a body that starts with `{`, the condition at `p`.
pub open spec fn sp_branch(t: Seq<Token>, p: nat) -> BrP
    decreases rem(t, p), 250nat,
{
    let c = sp_expression(t, p);
    match c.r {
        SR::Tree(cs) => if tok(t, c.pos).kind != TokenKind::Punctuation(PunctuationKind::LeftBrace) {
            BrP { r: BrR::Fail(Fail::Expected(TokenKind::Punctuation(PunctuationKind::LeftBrace), c.pos)), pos: c.pos, reps: c.reps }
        } else if c.pos >= p {
            let b = sp_expression(t, c.pos);
            match b.r {
                SR::Tree(bs) => BrP { r: BrR::Tree(cs, bs), pos: b.pos, reps: c.reps + b.reps },
                SR::Fail(f) => BrP { r: BrR::Fail(f), pos: b.pos, reps: c.reps + b.reps },
                SR::Beyond => BrP { r: BrR::Beyond, pos: b.pos, reps: c.reps + b.reps },
            }
        } else {
            BrP { r: BrR::Beyond, pos: c.pos, reps: c.reps }
        },
        SR::Fail(f) => BrP { r: BrR::Fail(f), pos: c.pos, reps: c.reps },
        SR::Beyond => BrP { r: BrR::Beyond, pos: c.pos, reps: c.reps },
    }
}

/// What reading the `else` part of an `if` gives: the further branches' conditions and
/// bodies, and the last body, or a failure.
pub enum TailR {
    Done(Seq<Sk>, Seq<Sk>, Option<Box<Sk>>),
    Fail(Fail),
    Beyond,
}

/// The `else` part of an `if`, its result, where reading stopped and the reports filed.
pub struct TailP {
    pub r: TailR,
    pub pos: nat,
    pub reps: Seq<Rep>,
}

/// The further branches `cs`, `bs` with reports `reps` read first, then `tail`.
pub open spec fn tail_prepend(cs: Seq<Sk>, bs: Seq<Sk>, reps: Seq<Rep>, tail: TailP) -> TailP {
    match tail.r {
        TailR::Done(xs, ys, e) => TailP { r: TailR::Done(cs + xs, bs + ys, e), pos: tail.pos, reps: reps + tail.reps },
        TailR::Fail(f) => TailP { r: TailR::Fail(f), pos: tail.pos, reps: reps + tail.reps },
        TailR::Beyond => TailP { r: TailR::Beyond, pos: tail.pos, reps: reps + tail.reps },
    }
}

/// Prepending further branches twice is prepending them together.
pub proof fn lemma_tail_prepend(
    cs: Seq<Sk>,
    bs: Seq<Sk>,
    r: Seq<Rep>,
    cs2: Seq<Sk>,
    bs2: Seq<Sk>,
    r2: Seq<Rep>,
    tail: TailP,
)
    ensures
        tail_prepend(cs, bs, r, tail_prepend(cs2, bs2, r2, tail)) == tail_prepend(cs + cs2, bs + bs2, r + r2, tail),
{
    assert(r + (r2 + tail.reps) =~= (r + r2) + tail.reps);
    if let TailR::Done(xs, ys, e) = tail.r {
        assert(cs + (cs2 + xs) =~= (cs + cs2) + xs);
        assert(bs + (bs2 + ys) =~= (bs + bs2) + ys);
    }
}

/// The `else if` branches and the `else` body from `q` on.
pub open spec fn sp_else(t: Seq<Token>, q: nat) -> TailP
    decreases rem(t, q), 193nat,
{
    if !(q < t.len() && tok(t, q).kind == TokenKind::Keyword(KeywordKind::Else)) {
        TailP { r: TailR::Done(Seq::empty(), Seq::empty(), None), pos: q, reps: Seq::empty() }
    } else if q + 1 < t.len() && tok(t, q + 1).kind == TokenKind::Keyword(KeywordKind::If) {
        let br = sp_branch(t, q + 2);
        match br.r {
            BrR::Tree(c, b) => if br.pos > q {
                tail_prepend(seq![c], seq![b], br.reps, sp_else(t, br.pos))
            } else {
                TailP { r: TailR::Beyond, pos: br.pos, reps: br.reps }
            },
            BrR::Fail(f) => TailP { r: TailR::Fail(f), pos: br.pos, reps: br.reps },
            BrR::Beyond => TailP { r: TailR::Beyond, pos: br.pos, reps: br.reps },
        }
    } else {
        let e = sp_expression(t, q + 1);
        match e.r {
            SR::Tree(x) => TailP { r: TailR::Done(Seq::empty(), Seq::empty(), Some(Box::new(x))), pos: e.pos, reps: e.reps },
            SR::Fail(f) => TailP { r: TailR::Fail(f), pos: e.pos, reps: e.reps },
            SR::Beyond => TailP { r: TailR::Beyond, pos: e.pos, reps: e.reps },
        }
    }
}

/// The `if` at `p` whose first branch is `c`, `b` (with reports `reps`), then `tail`.
pub open spec fn if_result(p: nat, c: Sk, b: Sk, reps: Seq<Rep>, tail: TailP) -> SP {
    match tail.r {
        TailR::Done(cs, bs, e) => SP {
            r: SR::Tree(Sk::If(p, seq![c] + cs, seq![b] + bs, e)),
            pos: tail.pos,
            reps: reps + tail.reps,
        },
        TailR::Fail(f) => SP { r: SR::Fail(f), pos: tail.pos, reps: reps + tail.reps },
        TailR::Beyond => SP { r: SR::Beyond, pos: tail.pos, reps: reps + tail.reps },
    }
}

/// `if c { .. } [else if c { .. }].. [else ..]`, the `if` at `p`.
pub open spec fn sp_if(t: Seq<Token>, p: nat) -> SP
    decreases rem(t, p), 195nat,
{
    if p < t.len() {
        let m = sp_branch(t, p + 1);
        match m.r {
            BrR::Tree(c, b) => if m.pos > p {
                if_result(p, c, b, m.reps, sp_else(t, m.pos))
            } else {
                SP { r: SR::Beyond, pos: m.pos, reps: m.reps }
            },
            BrR::Fail(f) => SP { r: SR::Fail(f), pos: m.pos, reps: m.reps },
            BrR::Beyond => SP { r: SR::Beyond, pos: m.pos, reps: m.reps },
        }
    } else {
        SP { r: SR::Beyond, pos: p, reps: Seq::empty() }
    }
}

/// `variable op= value`, grouped to the right, over an `||` chain.
pub open spec fn sp_assignment(t: Seq<Token>, p: nat) -> SP
    decreases rem(t, p), 200nat,
{
    let a = sp_level(t, p, 1);
    if a.pos >= p {
        sp_assign_loop(t, a)
    } else {
        a
    }
}

/// After a left-hand side `a`: while an assignment operator follows, its value and the
/// assignment.
pub open spec fn sp_assign_loop(t: Seq<Token>, a: SP) -> SP
    decreases rem(t, a.pos), 199nat,
{
    match a.r {
        SR::Tree(left) => {
            let q = a.pos;
            match tok(t, q).kind {
                TokenKind::Operator(o) => if spec_assign_operator(o) is Some && q < t.len() {
                    let v = sp_assignment(t, q + 1);
                    match v.r {
                        SR::Tree(value) => match left {
                            Sk::Var(i) => {
                                let right = match spec_assign_operator(o) {
                                    Some(Operator::Binary(BinaryOperator::Assignment)) => value,
                                    Some(Operator::Binary(b)) => Sk::Node(OpSk::B(b), q, Box::new(Sk::Var(i)), Box::new(value)),
                                    Some(Operator::Logical(l)) => Sk::Node(OpSk::L(l), q, Box::new(Sk::Var(i)), Box::new(value)),
                                    _ => value,
                                };
                                if v.pos > q {
                                    sp_assign_loop(
                                        t,
                                        SP { r: SR::Tree(Sk::Assign(i, q, Box::new(right))), pos: v.pos, reps: a.reps + v.reps },
                                    )
                                } else {
                                    pre(a.reps, v)
                                }
                            },
                            _ => SP { r: SR::Fail(Fail::InvalidLhs(sk_name(left), q)), pos: v.pos, reps: a.reps + v.reps },
                        },
                        _ => pre(a.reps, v),
                    }
                } else {
                    a
                },
                _ => a,
            }
        },
        _ => a,
    }
}

/// The operands of binary level `level` (or, past level 9, a unary expression).
pub open spec fn sp_operand(t: Seq<Token>, p: nat, level: nat) -> SP
    decreases rem(t, p), lv(level),
{
    if level < 9 {
        sp_level(t, p, level + 1)
    } else if level == 9 {
        sp_unary(t, p)
    } else {
        SP { r: SR::Beyond, pos: p, reps: Seq::empty() }
    }
}

/// A chain of operators of binary level `level` (1 to 9), grouped to the left.
pub open spec fn sp_level(t: Seq<Token>, p: nat, level: nat) -> SP
    decreases rem(t, p), lv(level) + 2,
{
    if 1 <= level <= 9 {
        let a = sp_operand(t, p, level);
        if a.pos >= p {
            sp_chain(t, level, a)
        } else {
            a
        }
    } else {
        SP { r: SR::Beyond, pos: p, reps: Seq::empty() }
    }
}

/// After a first operand `a`: while an operator of the level follows, the next operand and
/// the node.
pub open spec fn sp_chain(t: Seq<Token>, level: nat, a: SP) -> SP
    decreases rem(t, a.pos), lv(level) + 1,
{
    if 1 <= level <= 9 {
        match a.r {
            SR::Tree(left) => {
                let q = a.pos;
                match level_op(level, tok(t, q).kind) {
                    Some(op) => if q < t.len() {
                        let b = sp_operand(t, q + 1, level);
                        match b.r {
                            SR::Tree(right) => if b.pos > q {
                                sp_chain(
                                    t,
                                    level,
                                    SP {
                                        r: SR::Tree(Sk::Node(op, q, Box::new(left), Box::new(right))),
                                        pos: b.pos,
                                        reps: a.reps + b.reps,
                                    },
                                )
                            } else {
                                pre(a.reps, b)
                            },
                            _ => pre(a.reps, b),
                        }
                    } else {
                        a
                    },
                    None => a,
                }
            },
            _ => a,
        }
    } else {
        a
    }
}

/// `-a`, `!a`, `~a`, `+a` (the `+` is dropped), or a call.
pub open spec fn sp_unary(t: Seq<Token>, p: nat) -> SP
    decreases rem(t, p), 50nat,
{
    let k = tok(t, p).kind;
    let op: Option<Option<UnaryOperator>> = match k {
        TokenKind::Operator(OperatorKind::Plus) => Some(None),
        TokenKind::Operator(OperatorKind::Minus) => Some(Some(UnaryOperator::Negative)),
        TokenKind::Operator(OperatorKind::Not) => Some(Some(UnaryOperator::Not)),
        TokenKind::Operator(OperatorKind::BitwiseNot) => Some(Some(UnaryOperator::BitwiseNot)),
        _ => None,
    };
    match op {
        Some(u) => if p < t.len() {
            let v = sp_unary(t, p + 1);
            match (u, v.r) {
                (Some(o), SR::Tree(x)) => SP { r: SR::Tree(Sk::Unary(o, p, Box::new(x))), pos: v.pos, reps: v.reps },
                _ => v,
            }
        } else {
            SP { r: SR::Beyond, pos: p, reps: Seq::empty() }
        },
        None => sp_call(t, p),
    }
}

/// A primary expression followed by calls, property reads and indexing.
pub open spec fn sp_call(t: Seq<Token>, p: nat) -> SP
    decreases rem(t, p), 40nat,
{
    let a = sp_primary(t, p);
    if a.pos >= p {
        sp_postfix(t, a)
    } else {
        a
    }
}

/// After an expression `a`: `(args)`, `.name` or `[index]`, again and again.
pub open spec fn sp_postfix(t: Seq<Token>, a: SP) -> SP
    decreases rem(t, a.pos), 39nat,
{
    match a.r {
        SR::Tree(e) => {
            let q = a.pos;
            let k = tok(t, q).kind;
            if q < t.len() && (k == TokenKind::Punctuation(PunctuationKind::LeftParen) || k == TokenKind::Punctuation(
                PunctuationKind::Dot,
            ) || k == TokenKind::Punctuation(PunctuationKind::LeftBracket)) {
                let b = if k == TokenKind::Punctuation(PunctuationKind::LeftParen) {
                    sp_invoke(t, q, e)
                } else if k == TokenKind::Punctuation(PunctuationKind::Dot) {
                    sp_get(t, q, e)
                } else {
                    sp_index(t, q, e)
                };
                match b.r {
                    SR::Tree(_) => if b.pos > q {
                        sp_postfix(t, pre(a.reps, b))
                    } else {
                        pre(a.reps, b)
                    },
                    _ => pre(a.reps, b),
                }
            } else {
                a
            }
        },
        _ => a,
    }
}

/// `.name` after `e`, the `.` at `q`.
pub open spec fn sp_get(t: Seq<Token>, q: nat, e: Sk) -> SP {
    let n = after(t, q);
    if tok(t, n).kind == TokenKind::Identifier {
        SP { r: SR::Tree(Sk::Get(q, n, Box::new(e))), pos: after(t, n), reps: Seq::empty() }
    } else {
        SP { r: SR::Fail(Fail::Expected(TokenKind::Identifier, n)), pos: n, reps: Seq::empty() }
    }
}

/// `[index]` after `e`, the `[` at `q`.
pub open spec fn sp_index(t: Seq<Token>, q: nat, e: Sk) -> SP
    decreases rem(t, q), 38nat,
{
    if q < t.len() {
        let i = sp_expression(t, q + 1);
        match i.r {
            SR::Tree(index) => if tok(t, i.pos).kind == TokenKind::Punctuation(PunctuationKind::RightBracket) {
                SP { r: SR::Tree(Sk::Index(q, i.pos, Box::new(e), Box::new(index))), pos: after(t, i.pos), reps: i.reps }
            } else {
                SP {
                    r: SR::Fail(Fail::Expected(TokenKind::Punctuation(PunctuationKind::RightBracket), i.pos)),
                    pos: i.pos,
                    reps: i.reps,
                }
            },
            _ => i,
        }
    } else {
        SP { r: SR::Beyond, pos: q, reps: Seq::empty() }
    }
}

/// `(args)` after the callee `e`, the `(` at `q`.
pub open spec fn sp_invoke(t: Seq<Token>, q: nat, e: Sk) -> SP
    decreases rem(t, q), 38nat,
{
    if q < t.len() {
        let a = if tok(t, q + 1).kind == TokenKind::Punctuation(PunctuationKind::RightParen) {
            SP { r: SR::Tree(Sk::Invoke(q, q, Box::new(e), Seq::empty())), pos: q + 1, reps: Seq::empty() }
        } else {
            sp_args(t, q + 1, Seq::empty())
        };
        match a.r {
            SR::Tree(Sk::Invoke(_, _, _, args)) => if tok(t, a.pos).kind == TokenKind::Punctuation(PunctuationKind::RightParen) {
                SP { r: SR::Tree(Sk::Invoke(q, a.pos, Box::new(e), args)), pos: after(t, a.pos), reps: a.reps }
            } else {
                SP {
                    r: SR::Fail(Fail::Expected(TokenKind::Punctuation(PunctuationKind::RightParen), a.pos)),
                    pos: a.pos,
                    reps: a.reps,
                }
            },
            _ => a,
        }
    } else {
        SP { r: SR::Beyond, pos: q, reps: Seq::empty() }
    }
}

/// The arguments from `p` on, after those read (`done`), up to (not including) `)`; the
/// result holds them in an `Invoke` skeleton whose other parts do not matter.
pub open spec fn sp_args(t: Seq<Token>, p: nat, done: Seq<Sk>) -> SP
    decreases rem(t, p), 202nat,
{
    let a = sp_expression(t, p);
    match a.r {
        SR::Tree(x) => {
            let all = done.push(x);
            let k = tok(t, a.pos).kind;
            if k == TokenKind::Punctuation(PunctuationKind::RightParen) {
                SP { r: SR::Tree(Sk::Invoke(0, 0, Box::new(Sk::Lit(0)), all)), pos: a.pos, reps: a.reps }
            } else if k == TokenKind::Punctuation(PunctuationKind::Comma) {
                if a.pos >= p && a.pos < t.len() {
                    pre(a.reps, sp_args(t, a.pos + 1, all))
                } else {
                    SP { r: SR::Beyond, pos: a.pos, reps: a.reps }
                }
            } else {
                SP {
                    r: SR::Fail(Fail::Expected(TokenKind::Punctuation(PunctuationKind::Comma), a.pos)),
                    pos: a.pos,
                    reps: a.reps,
                }
            }
        },
        _ => a,
    }
}

/// An array literal whose `[` is at `p`, up to its `]` (which is left to read).
pub open spec fn sp_array(t: Seq<Token>, p: nat) -> SP
    decreases rem(t, p), 29nat,
{
    if p < t.len() {
        if p + 1 < t.len() && tok(t, p + 1).kind == TokenKind::Punctuation(PunctuationKind::RightBracket) {
            arr_end(t, p, Seq::empty(), None, None, p + 1, Seq::empty())
        } else {
            sp_elems(t, p, p + 1, Seq::empty())
        }
    } else {
        SP { r: SR::Beyond, pos: p, reps: Seq::empty() }
    }
}

/// The array literal whose `[` is at `p`, with elements `xs`, element type name at `ty` and
/// size `size`, read up to `k`, where its `]` is wanted, with reports `reps`.
pub open spec fn arr_end(t: Seq<Token>, p: nat, xs: Seq<Sk>, ty: Option<nat>, size: Option<Box<Sk>>, k: nat, reps: Seq<Rep>) -> SP {
    if tok(t, k).kind == TokenKind::Punctuation(PunctuationKind::RightBracket) {
        SP { r: SR::Tree(Sk::Array(p, xs, ty, size, k)), pos: k, reps }
    } else {
        SP { r: SR::Fail(Fail::Expected(TokenKind::Punctuation(PunctuationKind::RightBracket), k)), pos: k, reps }
    }
}

/// The elements of the array literal whose `[` is at `p`, from `q` on, after those read
/// (`done`): `a, b, c` up to `]`, or, after a `;`, the size (the expression before the `;`
/// being the element type's name).
pub open spec fn sp_elems(t: Seq<Token>, p: nat, q: nat, done: Seq<Sk>) -> SP
    decreases rem(t, q), 260nat,
{
    let e = sp_expression(t, q);
    match e.r {
        SR::Tree(x) => {
            let k = e.pos;
            let kk = tok(t, k).kind;
            if k < t.len() && kk == TokenKind::Punctuation(PunctuationKind::RightBracket) {
                arr_end(t, p, done.push(x), None, None, k, e.reps)
            } else if k < t.len() && kk == TokenKind::Punctuation(PunctuationKind::Semicolon) {
                match x {
                    Sk::Var(j) => if k >= q {
                        let n = sp_expression(t, k + 1);
                        match n.r {
                            SR::Tree(size) => arr_end(t, p, done, Some(j), Some(Box::new(size)), n.pos, e.reps + n.reps),
                            _ => pre(e.reps, n),
                        }
                    } else {
                        SP { r: SR::Beyond, pos: k, reps: e.reps }
                    },
                    _ => SP { r: SR::Fail(Fail::NotAType(x)), pos: k + 1, reps: e.reps },
                }
            } else if kk == TokenKind::Punctuation(PunctuationKind::Comma) {
                if k >= q && k < t.len() {
                    pre(e.reps, sp_elems(t, p, k + 1, done.push(x)))
                } else {
                    SP { r: SR::Beyond, pos: k, reps: e.reps }
                }
            } else {
                SP { r: SR::Fail(Fail::Expected(TokenKind::Punctuation(PunctuationKind::Comma), k)), pos: k, reps: e.reps }
            }
        },
        _ => e,
    }
}

/// A group, a variable, a literal (a radix literal that cannot be read fails where it
/// stands) or an array literal; any other token is unexpected (and read).
pub open spec fn sp_primary(t: Seq<Token>, p: nat) -> SP
    decreases rem(t, p), 30nat,
{
    let k = tok(t, p).kind;
    match k {
        TokenKind::Punctuation(PunctuationKind::LeftParen) => if p < t.len() {
            let i = sp_expression(t, p + 1);
            match i.r {
                SR::Tree(inner) => if tok(t, i.pos).kind == TokenKind::Punctuation(PunctuationKind::RightParen) {
                    SP { r: SR::Tree(Sk::Group(p, Box::new(inner))), pos: after(t, i.pos), reps: i.reps }
                } else {
                    SP {
                        r: SR::Fail(Fail::Expected(TokenKind::Punctuation(PunctuationKind::RightParen), i.pos)),
                        pos: i.pos,
                        reps: i.reps,
                    }
                },
                _ => i,
            }
        } else {
            SP { r: SR::Beyond, pos: p, reps: Seq::empty() }
        },
        TokenKind::Identifier => SP { r: SR::Tree(Sk::Var(p)), pos: after(t, p), reps: Seq::empty() },
        TokenKind::Literal(l) => if l == LiteralKind::Integer && has_radix_prefix(tok(t, p).lexeme@)
            && radix_literal_value(tok(t, p).lexeme@) is None {
            SP { r: SR::Fail(Fail::InvalidNumber(p)), pos: p, reps: Seq::empty() }
        } else {
            SP { r: SR::Tree(Sk::Lit(p)), pos: after(t, p), reps: Seq::empty() }
        },
        TokenKind::Punctuation(PunctuationKind::LeftBracket) => {
            let a = sp_array(t, p);
            match a.r {
                SR::Tree(x) => SP { r: SR::Tree(x), pos: after(t, a.pos), reps: a.reps },
                _ => a,
            }
        },
        _ => SP { r: SR::Fail(Fail::Unexpected(p)), pos: after(t, p), reps: Seq::empty() },
    }
}

/// The kind of syntax-tree literal a literal token of kind `k` gives.
pub open spec fn ast_literal_kind(k: LiteralKind) -> AstLiteralKind {
    match k {
        LiteralKind::Integer => AstLiteralKind::Integer,
        LiteralKind::Decimal => AstLiteralKind::Float,
        LiteralKind::String => AstLiteralKind::String,
        LiteralKind::Boolean => AstLiteralKind::Boolean,
    }
}

/// The value text of the literal token `k`: the decimal value of a radix literal, or else
/// the lexeme.
pub open spec fn literal_text(k: Token) -> Seq<char> {
    if k.kind == TokenKind::Literal(LiteralKind::Integer) && has_radix_prefix(k.lexeme@) {
        decimal(radix_literal_value(k.lexeme@).unwrap())
    } else {
        k.lexeme@
    }
}

/// `y` is the unresolved symbol named by the token `k`.
pub open spec fn symbol_of(y: AstSymbol, k: Token) -> bool {
    &&& y.name@ == k.lexeme@
    &&& y.id is None
    &&& y.span == k.span
    &&& y.cursor == k.cursor
}

/// `k` is the kind of type the name `name` denotes.
pub open spec fn type_named(k: TypeKind, name: Seq<char>) -> bool {
    match primitive_of_name(name) {
        Some(p) => k == p,
        None => k matches TypeKind::Named { name: n, def_id: None } && n@ == name,
    }
}

/// The span of an `if` whose span so far is `s`, extended over the bodies of the further
/// branches `bs`.
pub open spec fn if_span(s: Span, bs: Seq<ConditionalBranch>) -> Span
    decreases bs.len(),
{
    if bs.len() == 0 {
        s
    } else {
        if_span(s, bs.drop_last()).spec_merged(bs.last().body.span)
    }
}

/// `e` is the syntax tree that the skeleton `s` describes over the tokens `t`: every node
/// has the operator, the names and the values of its tokens, the cursor of its operator (or
/// first) token, and the span from its first to its last token.
pub open spec fn conforms(t: Seq<Token>, e: Expression, s: Sk) -> bool
    decreases s,
{
    match s {
        Sk::Var(i) => e.kind matches ExpressionKind::Variable { symbol } && symbol_of(symbol, tok(t, i)) && e.span
            == tok(t, i).span && e.cursor == tok(t, i).cursor,
        Sk::Lit(i) => tok(t, i).kind matches TokenKind::Literal(l) && e.kind matches ExpressionKind::Literal {
            kind,
            value,
        } && kind == ast_literal_kind(l) && value@ == literal_text(tok(t, i)) && e.span == tok(t, i).span
            && e.cursor == tok(t, i).cursor,
        Sk::Group(i, x) => e.kind matches ExpressionKind::Group { inner } && conforms(t, *inner, *x) && e.span == tok(
            t,
            i,
        ).span.spec_merged(inner.span) && e.cursor == tok(t, i).cursor,
        Sk::Node(op, i, l, r) => e.cursor == tok(t, i).cursor && match op {
            OpSk::B(b) => e.kind matches ExpressionKind::Binary { left, operator, right } && operator == b
                && conforms(t, *left, *l) && conforms(t, *right, *r) && e.span == left.span.spec_merged(right.span),
            OpSk::L(b) => e.kind matches ExpressionKind::Logical { left, operator, right } && operator == b
                && conforms(t, *left, *l) && conforms(t, *right, *r) && e.span == left.span.spec_merged(right.span),
            OpSk::C(b) => e.kind matches ExpressionKind::Comparison { left, operator, right } && operator == b
                && conforms(t, *left, *l) && conforms(t, *right, *r) && e.span == left.span.spec_merged(right.span),
        },
        Sk::Unary(o, i, x) => e.kind matches ExpressionKind::Unary { operator, value } && operator == o && conforms(
            t,
            *value,
            *x,
        ) && e.span == tok(t, i).span.spec_merged(value.span) && e.cursor == tok(t, i).cursor,
        Sk::Invoke(i, j, c, args) => e.kind matches ExpressionKind::Invoke { callee, arguments } && conforms(
            t,
            *callee,
            *c,
        ) && arguments@.len() == args.len() && (forall|k: int|
            0 <= k < args.len() ==> conforms(t, #[trigger] arguments@[k], args[k])) && e.span == tok(t, i).span.spec_merged(
            tok(t, j).span,
        ) && e.cursor == tok(t, i).cursor,
        Sk::Get(i, j, o) => e.kind matches ExpressionKind::Get { object, property_symbol } && conforms(t, *object, *o)
            && symbol_of(property_symbol, tok(t, j)) && e.span == tok(t, i).span.spec_merged(tok(t, j).span)
            && e.cursor == tok(t, i).cursor,
        Sk::Index(i, j, a, x) => e.kind matches ExpressionKind::ArrayGet { array, index } && conforms(t, *array, *a)
            && conforms(t, *index, *x) && e.span == tok(t, i).span.spec_merged(tok(t, j).span) && e.cursor == tok(
            t,
            i,
        ).cursor,
        Sk::Assign(i, q, x) => e.kind matches ExpressionKind::Assign { symbol, value } && symbol_of(symbol, tok(t, i))
            && conforms(t, *value, *x) && e.span == tok(t, q).span.spec_merged(tok(t, i).span).spec_merged(value.span)
            && e.cursor == tok(t, q).cursor,
        Sk::If(i, cs, bs, el) => e.kind matches ExpressionKind::If { main_branch, branches, else_branch } && cs.len()
            == branches@.len() + 1 && bs.len() == cs.len() && conforms(t, main_branch.condition, cs[0]) && conforms(
            t,
            main_branch.body,
            bs[0],
        ) && (forall|k: int|
            0 <= k < branches@.len() ==> conforms(t, (#[trigger] branches@[k]).condition, cs[k + 1]) && conforms(
                t,
                branches@[k].body,
                bs[k + 1],
            )) && match el {
            None => else_branch is None,
            Some(x) => else_branch matches Some(b) && conforms(t, *b, *x),
        } && e.span == if_span(tok(t, i).span.spec_merged(main_branch.body.span), branches@) && e.cursor == tok(
            t,
            i,
        ).cursor,
        Sk::Scope(i, sks, v, pos, closed) => e.kind matches ExpressionKind::Scope { statements, block_value }
            && statements@.len() == sks.len() && (forall|k: int|
            0 <= k < sks.len() ==> st_conforms(t, #[trigger] statements@[k], sks[k])) && match v {
            None => block_value is None,
            Some(x) => block_value matches Some(b) && conforms(t, *b, *x),
        } && e.span == (if closed {
            tok(t, i).span.spec_merged(tok(t, pos).span)
        } else {
            tok(t, i).span
        }) && e.cursor == tok(t, i).cursor,
        Sk::Array(i, xs, ty, size, j) => e.kind matches ExpressionKind::ArrayLiteral { elements, inner_type, size: n }
            && elements@.len() == xs.len() && (forall|k: int|
            0 <= k < xs.len() ==> conforms(t, #[trigger] elements@[k], xs[k])) && match ty {
            None => inner_type == TypeKind::Unknown,
            Some(m) => type_named(inner_type, tok(t, m).lexeme@),
        } && match size {
            None => n is None,
            Some(x) => n matches Some(b) && conforms(t, *b, *x),
        } && e.span == tok(t, i).span.spec_merged(tok(t, j).span) && e.cursor == tok(t, i).cursor,
    }
}

/// `d` is the report that the failure `f` files over the tokens `t`.
pub open spec fn fails_as(t: Seq<Token>, d: DiagnosticReport, f: Fail) -> bool {
    match f {
        Fail::Unexpected(i) => d == report_at(tok(t, i), ParserDiagnostic::UnexpectedToken(tok(t, i).kind)),
        Fail::Expected(k, i) => d == report_at(tok(t, i), ParserDiagnostic::ExpectedToken(k, tok(t, i).kind)),
        Fail::InvalidLhs(name, i) => d.message matches DiagnosticMessage::Parser(
            ParserDiagnostic::InvalidLeftHandSide(n),
        ) && n@ == name && d.span == tok(t, i).span && d.cursor == tok(t, i).cursor,
        Fail::MissingBody(i) => d == report_at(tok(t, i), ParserDiagnostic::MissingFunctionBody),
        Fail::InvalidNumber(i) => d.message matches DiagnosticMessage::Parser(
            ParserDiagnostic::InvalidNumberLiteral(n),
        ) && n@ == tok(t, i).lexeme@ && d.span == tok(t, i).span && d.cursor == tok(t, i).cursor,
        Fail::NotAType(x) => d.message == DiagnosticMessage::Parser(ParserDiagnostic::MissingArrayTypeAnnotation)
            && exists|e: Expression| #[trigger] conforms(t, e, x) && d.span == e.span && d.cursor == e.cursor,
        Fail::Keyword(w, i) => d.message matches DiagnosticMessage::Parser(
            ParserDiagnostic::ExpectedSpecialKeyword(n),
        ) && n@ == w && d.span == tok(t, i).span && d.cursor == tok(t, i).cursor,
    }
}

/// A report filed on the way: a statement that failed, the semicolon missing at the
/// position, a visibility scope that is no scope, or a token that cannot name one.
pub enum Rep {
    Failed(Fail),
    Semi(nat),
    BadScope(nat),
    Unexpected(nat),
}

/// `d` is the report `rep` stands for over the tokens `t`.
pub open spec fn rep_matches(t: Seq<Token>, d: DiagnosticReport, rep: Rep) -> bool {
    match rep {
        Rep::Failed(f) => fails_as(t, d, f),
        Rep::Semi(q) => d == report_at(
            tok(t, q),
            ParserDiagnostic::ExpectedToken(TokenKind::Punctuation(PunctuationKind::Semicolon), tok(t, q).kind),
        ),
        Rep::BadScope(i) => d.message matches DiagnosticMessage::Parser(ParserDiagnostic::InvalidVisibilityScope(n))
            && n@ == tok(t, i).lexeme@ && d.span == tok(t, i).span && d.cursor == tok(t, i).cursor,
        Rep::Unexpected(i) => d == report_at(tok(t, i), ParserDiagnostic::UnexpectedToken(tok(t, i).kind)),
    }
}

/// `b` is `a` with the reports `reps` filed after its entries, in order.
pub open spec fn filed_all(a: Reporter, b: Reporter, t: Seq<Token>, reps: Seq<Rep>) -> bool {
    &&& reporter_grew(a, b)
    &&& b.spec_entries().len() == a.spec_entries().len() + reps.len()
    &&& forall|k: int|
        0 <= k < reps.len() ==> rep_matches(t, (#[trigger] b.spec_entries()[a.spec_entries().len() + k]).diagnostic, reps[k])
}

/// Filing nothing leaves a reporter as it is.
pub proof fn lemma_filed_none(a: Reporter, t: Seq<Token>)
    ensures
        filed_all(a, a, t, Seq::empty()),
{
}

/// Filing `r1` and then `r2` is filing `r1 + r2`.
pub proof fn lemma_filed_trans(a: Reporter, b: Reporter, c: Reporter, t: Seq<Token>, r1: Seq<Rep>, r2: Seq<Rep>)
    requires
        filed_all(a, b, t, r1),
        filed_all(b, c, t, r2),
    ensures
        filed_all(a, c, t, r1 + r2),
{
    let n = a.spec_entries().len();
    assert forall|k: int| 0 <= k < (r1 + r2).len() implies rep_matches(
        t,
        (#[trigger] c.spec_entries()[n + k]).diagnostic,
        (r1 + r2)[k],
    ) by {
        if k < r1.len() {
            assert(c.spec_entries()[n + k] == b.spec_entries()[n + k]);
        } else {
            assert(c.spec_entries()[b.spec_entries().len() + (k - r1.len())] == c.spec_entries()[n + k]);
        }
    }
    assert forall|i: int| 0 <= i < a.spec_entries().len() implies #[trigger] c.spec_entries()[i] == a.spec_entries()[i] by {
        assert(c.spec_entries()[i] == b.spec_entries()[i]);
    }
}

/// Reading from `o` to `n` gave `r` as the grammar's reading `sp` says: the tree it
/// describes, or the report of its failure, with reading stopped where it stops and its
/// reports filed.
pub open spec fn outcome(o: LumaParser, n: LumaParser, r: DiagnosticResult<Expression>, sp: SP) -> bool {
    match sp.r {
        SR::Tree(s) => r matches Ok(e) && conforms(o.toks(), e, s) && n.ppos() == sp.pos && filed_all(
            o.spec_reporter(),
            n.spec_reporter(),
            o.toks(),
            sp.reps,
        ),
        SR::Fail(f) => r matches Err(d) && fails_as(o.toks(), d, f) && n.ppos() == sp.pos && filed_all(
            o.spec_reporter(),
            n.spec_reporter(),
            o.toks(),
            sp.reps,
        ),
        SR::Beyond => true,
    }
}

/// Reading a conditional branch from `o` to `n` gave `r` as `bp` says (see `outcome`).
pub open spec fn br_outcome(o: LumaParser, n: LumaParser, r: DiagnosticResult<ConditionalBranch>, bp: BrP) -> bool {
    match bp.r {
        BrR::Tree(c, b) => r matches Ok(x) && conforms(o.toks(), x.condition, c) && conforms(o.toks(), x.body, b)
            && n.ppos() == bp.pos && filed_all(o.spec_reporter(), n.spec_reporter(), o.toks(), bp.reps),
        BrR::Fail(f) => r matches Err(d) && fails_as(o.toks(), d, f) && n.ppos() == bp.pos && filed_all(
            o.spec_reporter(),
            n.spec_reporter(),
            o.toks(),
            bp.reps,
        ),
        BrR::Beyond => true,
    }
}

/// The shape of a statement, by the positions of its tokens.
pub enum StSk {
    /// An expression, and the position of the token after it.
    Expr(Sk, nat),
    /// `let [mut] name [: type] [= value]`: the visibility, the positions of `let`, of the
    /// name and of the type's name, whether it is mutable, and the value.
    Var(Visibility, nat, nat, Option<nat>, bool, Option<Sk>),
    /// The end of the file at the position.
    Eof(nat),
    /// `return [value]`, the `return` at the position.
    Return(nat, Option<Sk>),
    /// `break[: label]` (or, if the flag is false, `continue[: label]`): the positions of
    /// the keyword and of the label.
    Jump(bool, nat, Option<nat>),
    /// `fn name(params) [: type] body`: the visibility, the positions of `fn`, of the name,
    /// of `)` and of the return type's name, the parameters, and the body (none in a bare
    /// declaration).
    Func(Visibility, nat, nat, nat, Option<nat>, Seq<ParamSk>, Option<Sk>),
    /// `import .. from "lib"`: the positions of `import` and of the library's name, and
    /// what is imported.
    Import(nat, ImportSk, nat),
}

/// What an `import` takes from its library.
pub enum ImportSk {
    /// `* as name`, by the position of the name.
    All(nat),
    /// `{ a, b as c }`: the positions of each name and of its new name.
    Individual(Seq<(nat, Option<nat>)>),
    /// Nothing (`import "lib"`).
    Bare,
}

/// A parameter `[mut] name: type`: the positions of its first token, of its name and of
/// its type's name, and whether it is mutable.
pub struct ParamSk {
    pub at: nat,
    pub name: nat,
    pub ty: nat,
    pub mutable: bool,
}

/// What reading parameters gives: the parameters and the position of `)`, or a failure
/// and where reading stopped.
pub enum ParamsR {
    Done(Seq<ParamSk>, nat),
    Fail(Fail, nat),
    Beyond,
}

/// What reading a statement gives.
pub enum StR {
    Tree(StSk),
    Fail(Fail),
    Beyond,
}

/// A statement result, the position reading stopped at, and the reports filed on the way.
pub struct StP {
    pub r: StR,
    pub pos: nat,
    pub reps: Seq<Rep>,
}

/// The parameters from `c` on up to `)`; `first` says whether none was read yet (else a
/// `,` comes first).
pub open spec fn sp_params(t: Seq<Token>, c: nat, first: bool) -> ParamsR
    decreases rem(t, c),
{
    if c < t.len() && tok(t, c).kind == TokenKind::Punctuation(PunctuationKind::RightParen) {
        ParamsR::Done(Seq::empty(), c)
    } else if !first && tok(t, c).kind != TokenKind::Punctuation(PunctuationKind::Comma) {
        ParamsR::Fail(Fail::Expected(TokenKind::Punctuation(PunctuationKind::Comma), c), c)
    } else {
        let c1 = if first { c } else { c + 1 };
        let mutable = tok(t, c1).kind == TokenKind::Keyword(KeywordKind::Mut);
        let n = if mutable { c1 + 1 } else { c1 };
        if tok(t, n).kind != TokenKind::Identifier {
            ParamsR::Fail(Fail::Expected(TokenKind::Identifier, n), n)
        } else if tok(t, n + 1).kind != TokenKind::Punctuation(PunctuationKind::Colon) {
            ParamsR::Fail(Fail::Expected(TokenKind::Punctuation(PunctuationKind::Colon), n + 1), n + 1)
        } else if tok(t, n + 2).kind != TokenKind::Identifier {
            ParamsR::Fail(Fail::Expected(TokenKind::Identifier, n + 2), n + 2)
        } else if n + 2 < t.len() {
            let here = ParamSk { at: c1, name: n, ty: n + 2, mutable };
            match sp_params(t, n + 3, false) {
                ParamsR::Done(ps, rp) => ParamsR::Done(seq![here] + ps, rp),
                other => other,
            }
        } else {
            ParamsR::Beyond
        }
    }
}

/// `ps`, then what `r` reads.
pub open spec fn params_after(ps: Seq<ParamSk>, r: ParamsR) -> ParamsR {
    match r {
        ParamsR::Done(x, rp) => ParamsR::Done(ps + x, rp),
        other => other,
    }
}

/// `fn name(params) [: type] body`, the `fn` at `p` (a private declaration). The
/// body is an expression (a braced scope, or after `=`); a `;` is a missing body; anything
/// else is unexpected. A bare declaration (`decl`) ends with `;` instead.
#[verifier::opaque]
pub open spec fn sp_function(t: Seq<Token>, p: nat, decl: bool) -> StP
    decreases rem(t, p), 330nat,
{
    if p >= t.len() {
        StP { r: StR::Beyond, pos: p, reps: Seq::empty() }
    } else if tok(t, p + 1).kind != TokenKind::Identifier {
        StP { r: StR::Fail(Fail::Expected(TokenKind::Identifier, p + 1)), pos: p + 1, reps: Seq::empty() }
    } else if tok(t, p + 2).kind != TokenKind::Punctuation(PunctuationKind::LeftParen) {
        StP {
            r: StR::Fail(Fail::Expected(TokenKind::Punctuation(PunctuationKind::LeftParen), p + 2)),
            pos: p + 2,
            reps: Seq::empty(),
        }
    } else {
        match sp_params(t, p + 3, true) {
            ParamsR::Done(ps, rp) => {
                let k = rp + 1;
                let colon = k < t.len() && tok(t, k).kind == TokenKind::Punctuation(PunctuationKind::Colon);
                if colon && tok(t, k + 1).kind != TokenKind::Identifier {
                    StP { r: StR::Fail(Fail::Expected(TokenKind::Identifier, k + 1)), pos: k + 1, reps: Seq::empty() }
                } else {
                    let ret: Option<nat> = if colon { Some(k + 1) } else { None };
                    let b: nat = if colon { k + 2 } else { k };
                    let bk = tok(t, b).kind;
                    if b <= p {
                        StP { r: StR::Beyond, pos: b, reps: Seq::empty() }
                    } else if decl {
                        if bk == TokenKind::Punctuation(PunctuationKind::Semicolon) {
                            StP { r: StR::Tree(StSk::Func(Visibility::Private, p, p + 1, rp, ret, ps, None)), pos: after(t, b), reps: Seq::empty() }
                        } else {
                            StP {
                                r: StR::Fail(Fail::Expected(TokenKind::Punctuation(PunctuationKind::Semicolon), b)),
                                pos: b,
                                reps: Seq::empty(),
                            }
                        }
                    } else if bk == TokenKind::Operator(OperatorKind::Equals) || bk == TokenKind::Punctuation(
                        PunctuationKind::LeftBrace,
                    ) {
                        let e = if bk == TokenKind::Operator(OperatorKind::Equals) {
                            sp_expression(t, after(t, b))
                        } else {
                            sp_expression(t, b)
                        };
                        match e.r {
                            SR::Tree(x) => StP { r: StR::Tree(StSk::Func(Visibility::Private, p, p + 1, rp, ret, ps, Some(x))), pos: e.pos, reps: e.reps },
                            SR::Fail(f) => StP { r: StR::Fail(f), pos: e.pos, reps: e.reps },
                            SR::Beyond => StP { r: StR::Beyond, pos: e.pos, reps: e.reps },
                        }
                    } else if bk == TokenKind::Punctuation(PunctuationKind::Semicolon) {
                        StP { r: StR::Fail(Fail::MissingBody(after(t, b))), pos: after(t, b), reps: Seq::empty() }
                    } else {
                        StP { r: StR::Fail(Fail::Unexpected(b)), pos: b, reps: Seq::empty() }
                    }
                }
            },
            ParamsR::Fail(f, pos) => StP { r: StR::Fail(f), pos, reps: Seq::empty() },
            ParamsR::Beyond => StP { r: StR::Beyond, pos: p, reps: Seq::empty() },
        }
    }
}

/// `x` is the parameter that `s` describes over the tokens `t`.
pub open spec fn param_conforms(t: Seq<Token>, x: Parameter, s: ParamSk) -> bool {
    &&& x.mutable == s.mutable
    &&& symbol_of(x.symbol, tok(t, s.name))
    &&& type_named(x.ty.kind, tok(t, s.ty).lexeme@)
    &&& x.ty.span == tok(t, s.ty).span
    &&& x.ty.cursor == tok(t, s.ty).cursor
    &&& x.span == tok(t, s.at).span.spec_merged(tok(t, s.ty).span)
    &&& x.cursor == tok(t, s.at).cursor
}

/// `let [mut] name [: type] [= value]`, the `let` at `p` (a private declaration).
#[verifier::opaque]
pub open spec fn sp_var(t: Seq<Token>, p: nat) -> StP
    decreases rem(t, p), 330nat,
{
    let mutable = tok(t, p + 1).kind == TokenKind::Keyword(KeywordKind::Mut);
    let n = if mutable { p + 2 } else { p + 1 };
    if p >= t.len() {
        StP { r: StR::Beyond, pos: p, reps: Seq::empty() }
    } else if tok(t, n).kind != TokenKind::Identifier {
        StP { r: StR::Fail(Fail::Expected(TokenKind::Identifier, n)), pos: n, reps: Seq::empty() }
    } else if tok(t, n + 1).kind == TokenKind::Punctuation(PunctuationKind::Colon) && tok(t, n + 2).kind
        != TokenKind::Identifier {
        StP { r: StR::Fail(Fail::Expected(TokenKind::Identifier, n + 2)), pos: n + 2, reps: Seq::empty() }
    } else {
        let ty: Option<nat> = if tok(t, n + 1).kind == TokenKind::Punctuation(PunctuationKind::Colon) {
            Some(n + 2)
        } else {
            None
        };
        let k: nat = if ty is Some { n + 3 } else { n + 1 };
        if tok(t, k).kind == TokenKind::Operator(OperatorKind::Equals) {
            let v = sp_expression(t, k + 1);
            match v.r {
                SR::Tree(x) => StP { r: StR::Tree(StSk::Var(Visibility::Private, p, n, ty, mutable, Some(x))), pos: v.pos, reps: v.reps },
                SR::Fail(f) => StP { r: StR::Fail(f), pos: v.pos, reps: v.reps },
                SR::Beyond => StP { r: StR::Beyond, pos: v.pos, reps: v.reps },
            }
        } else {
            StP { r: StR::Tree(StSk::Var(Visibility::Private, p, n, ty, mutable, None)), pos: k, reps: Seq::empty() }
        }
    }
}

/// `return [value]`, the `return` at `p`.
pub open spec fn sp_return(t: Seq<Token>, p: nat) -> StP
    decreases rem(t, p), 330nat,
{
    let k = after(t, p);
    let kk = tok(t, k).kind;
    if k >= t.len() || kk == TokenKind::EndOfFile || kk == TokenKind::Punctuation(PunctuationKind::Semicolon) {
        StP { r: StR::Tree(StSk::Return(p, None)), pos: k, reps: Seq::empty() }
    } else if p < t.len() {
        let e = sp_expression(t, k);
        match e.r {
            SR::Tree(x) => StP { r: StR::Tree(StSk::Return(p, Some(x))), pos: e.pos, reps: e.reps },
            SR::Fail(f) => StP { r: StR::Fail(f), pos: e.pos, reps: e.reps },
            SR::Beyond => StP { r: StR::Beyond, pos: e.pos, reps: e.reps },
        }
    } else {
        StP { r: StR::Beyond, pos: p, reps: Seq::empty() }
    }
}

/// `break[: label]` or `continue[: label]`, the keyword at `p`.
pub open spec fn sp_jump(t: Seq<Token>, p: nat, is_break: bool) -> StP {
    let k = after(t, p);
    if tok(t, k).kind == TokenKind::Punctuation(PunctuationKind::Colon) {
        let l = after(t, k);
        if tok(t, l).kind == TokenKind::Identifier {
            StP { r: StR::Tree(StSk::Jump(is_break, p, Some(l))), pos: after(t, l), reps: Seq::empty() }
        } else {
            StP { r: StR::Fail(Fail::Expected(TokenKind::Identifier, l)), pos: l, reps: Seq::empty() }
        }
    } else {
        StP { r: StR::Tree(StSk::Jump(is_break, p, None)), pos: k, reps: Seq::empty() }
    }
}

/// The token at `i` is the identifier `w`, a contextual keyword.
pub open spec fn is_word(t: Seq<Token>, i: nat, w: Seq<char>) -> bool {
    tok(t, i).kind == TokenKind::Identifier && tok(t, i).lexeme@ == w
}

/// What reading the names of `import { .. }` gives: the names and the position of `}`, or a
/// failure and where reading stopped.
pub enum ItemsR {
    Done(Seq<(nat, Option<nat>)>, nat),
    Fail(Fail, nat),
}

/// The names of `import { .. }` from `c` on up to `}`; `first` says whether none was read
/// yet (else a `,` comes first).
pub open spec fn sp_items(t: Seq<Token>, c: nat, first: bool) -> ItemsR
    decreases rem(t, c),
{
    if c < t.len() && tok(t, c).kind == TokenKind::Punctuation(PunctuationKind::RightBrace) {
        ItemsR::Done(Seq::empty(), c)
    } else if !first && tok(t, c).kind != TokenKind::Punctuation(PunctuationKind::Comma) {
        ItemsR::Fail(Fail::Expected(TokenKind::Punctuation(PunctuationKind::Comma), c), c)
    } else {
        let c1 = if first { c } else { c + 1 };
        if tok(t, c1).kind != TokenKind::Identifier {
            ItemsR::Fail(Fail::Expected(TokenKind::Identifier, c1), c1)
        } else if is_word(t, c1 + 1, "as"@) && tok(t, c1 + 2).kind != TokenKind::Identifier {
            ItemsR::Fail(Fail::Expected(TokenKind::Identifier, c1 + 2), c1 + 2)
        } else if c1 < t.len() {
            let alias: Option<nat> = if is_word(t, c1 + 1, "as"@) { Some(c1 + 2) } else { None };
            let next: nat = if alias is Some { c1 + 3 } else { c1 + 1 };
            match sp_items(t, next, false) {
                ItemsR::Done(xs, rb) => ItemsR::Done(seq![(c1, alias)] + xs, rb),
                other => other,
            }
        } else {
            ItemsR::Fail(Fail::Expected(TokenKind::Identifier, c1), c1)
        }
    }
}

/// The names `xs` read before the reading `r` of the rest of an import list.
pub open spec fn items_prepend(xs: Seq<(nat, Option<nat>)>, r: ItemsR) -> ItemsR {
    match r {
        ItemsR::Done(ys, rb) => ItemsR::Done(xs + ys, rb),
        other => other,
    }
}

/// The import at `p` of `what` from the library named at `i`.
pub open spec fn import_lib(t: Seq<Token>, p: nat, i: nat, what: ImportSk) -> StP {
    if tok(t, i).kind == TokenKind::Literal(LiteralKind::String) {
        StP { r: StR::Tree(StSk::Import(p, what, i)), pos: after(t, i), reps: Seq::empty() }
    } else {
        StP { r: StR::Fail(Fail::Expected(TokenKind::Literal(LiteralKind::String), i)), pos: i, reps: Seq::empty() }
    }
}

/// `import * as name from "lib"`, `import { a, b as c } from "lib"` or `import "lib"`, the
/// `import` at `p`.
pub open spec fn sp_import(t: Seq<Token>, p: nat) -> StP {
    let q = p + 1;
    let k = tok(t, q).kind;
    let string = TokenKind::Literal(LiteralKind::String);
    if k == TokenKind::Operator(OperatorKind::Asterisk) {
        if !is_word(t, q + 1, "as"@) {
            StP { r: StR::Fail(Fail::Keyword("as"@, q + 1)), pos: q + 1, reps: Seq::empty() }
        } else if tok(t, q + 2).kind != TokenKind::Identifier {
            StP { r: StR::Fail(Fail::Expected(TokenKind::Identifier, q + 2)), pos: q + 2, reps: Seq::empty() }
        } else if !is_word(t, q + 3, "from"@) {
            StP { r: StR::Fail(Fail::Keyword("from"@, q + 3)), pos: q + 3, reps: Seq::empty() }
        } else {
            import_lib(t, p, q + 4, ImportSk::All(q + 2))
        }
    } else if k == TokenKind::Punctuation(PunctuationKind::LeftBrace) {
        match sp_items(t, q + 1, true) {
            ItemsR::Done(xs, rb) => if !is_word(t, rb + 1, "from"@) {
                StP { r: StR::Fail(Fail::Keyword("from"@, rb + 1)), pos: rb + 1, reps: Seq::empty() }
            } else {
                import_lib(t, p, rb + 2, ImportSk::Individual(xs))
            },
            ItemsR::Fail(f, pos) => StP { r: StR::Fail(f), pos, reps: Seq::empty() },
        }
    } else if k == string {
        import_lib(t, p, q, ImportSk::Bare)
    } else {
        StP { r: StR::Fail(Fail::Unexpected(q)), pos: q, reps: Seq::empty() }
    }
}

/// What reading a visibility gives: the visibility, the reports filed, where reading
/// stopped, and the failure, if any.
pub struct VisP {
    pub vis: Visibility,
    pub reps: Seq<Rep>,
    pub pos: nat,
    pub fail: Option<Fail>,
}

/// `pub`, `pub(scope)`, or nothing (private), at `p`. A scope that is no scope, or a token
/// that cannot name one, is reported, and the visibility is private.
pub open spec fn sp_visibility(t: Seq<Token>, p: nat) -> VisP {
    if tok(t, p).kind != TokenKind::Keyword(KeywordKind::Public) {
        VisP { vis: Visibility::Private, reps: Seq::empty(), pos: p, fail: None }
    } else if tok(t, after(t, p)).kind != TokenKind::Punctuation(PunctuationKind::LeftParen) {
        VisP { vis: Visibility::Public, reps: Seq::empty(), pos: after(t, p), fail: None }
    } else {
        let s = after(t, after(t, p));
        let sk = tok(t, s);
        let vis = if sk.kind == TokenKind::Identifier && spec_scoped(sk.lexeme@) is Some {
            spec_scoped(sk.lexeme@).unwrap()
        } else {
            Visibility::Private
        };
        let reps: Seq<Rep> = if sk.kind == TokenKind::Keyword(KeywordKind::This) || (sk.kind == TokenKind::Identifier
            && spec_scoped(sk.lexeme@) is Some) {
            Seq::empty()
        } else if sk.kind == TokenKind::Identifier {
            seq![Rep::BadScope(s)]
        } else {
            seq![Rep::Unexpected(s)]
        };
        let close = after(t, s);
        if tok(t, close).kind != TokenKind::Punctuation(PunctuationKind::RightParen) {
            VisP {
                vis,
                reps,
                pos: close,
                fail: Some(Fail::Expected(TokenKind::Punctuation(PunctuationKind::RightParen), close)),
            }
        } else {
            VisP { vis, reps, pos: after(t, close), fail: None }
        }
    }
}

/// `s` with the declaration it reads given visibility `vis`.
pub open spec fn with_vis(s: StP, vis: Visibility) -> StP {
    match s.r {
        StR::Tree(StSk::Func(_, p, n, rp, ret, ps, body)) => StP {
            r: StR::Tree(StSk::Func(vis, p, n, rp, ret, ps, body)),
            pos: s.pos,
            reps: s.reps,
        },
        StR::Tree(StSk::Var(_, p, n, ty, mutable, value)) => StP {
            r: StR::Tree(StSk::Var(vis, p, n, ty, mutable, value)),
            pos: s.pos,
            reps: s.reps,
        },
        _ => s,
    }
}

/// Giving a declaration its visibility keeps where reading stopped and what was reported,
/// and changes nothing of a reading that gives no tree.
pub proof fn lemma_with_vis(s: StP, vis: Visibility)
    ensures
        with_vis(s, vis).pos == s.pos,
        with_vis(s, vis).reps == s.reps,
        !(s.r is Tree) ==> with_vis(s, vis) == s,
{
}

/// One step of `sp_decl` once the visibility has been read.
pub proof fn lemma_decl_step(t: Seq<Token>, p: nat)
    requires
        sp_visibility(t, p).fail is None,
        sp_visibility(t, p).pos >= p,
    ensures
        ({
            let v = sp_visibility(t, p);
            let d = v.pos;
            let dk = tok(t, d).kind;
            &&& dk == TokenKind::Keyword(KeywordKind::Function) ==> sp_decl(t, p) == (StP {
                r: with_vis(sp_function(t, d, false), v.vis).r,
                pos: sp_function(t, d, false).pos,
                reps: v.reps + sp_function(t, d, false).reps,
            })
            &&& dk == TokenKind::Keyword(KeywordKind::Var) ==> sp_decl(t, p) == (StP {
                r: with_vis(sp_var(t, d), v.vis).r,
                pos: sp_var(t, d).pos,
                reps: v.reps + sp_var(t, d).reps,
            })
        }),
{
    reveal(sp_function);
    reveal(sp_var);
    let v = sp_visibility(t, p);
    lemma_with_vis(sp_function(t, v.pos, false), v.vis);
    lemma_with_vis(sp_var(t, v.pos), v.vis);
}

/// A declaration at `p` after its visibility: a function or a variable; anything else is
/// unexpected.
pub open spec fn sp_decl(t: Seq<Token>, p: nat) -> StP
    decreases rem(t, p), 340nat,
{
    let v = sp_visibility(t, p);
    match v.fail {
        Some(f) => StP { r: StR::Fail(f), pos: v.pos, reps: v.reps },
        None => {
            let d = v.pos;
            let dk = tok(t, d).kind;
            if dk == TokenKind::Keyword(KeywordKind::Function) && d >= p {
                let f = with_vis(sp_function(t, d, false), v.vis);
                StP { r: f.r, pos: f.pos, reps: v.reps + f.reps }
            } else if dk == TokenKind::Keyword(KeywordKind::Var) && d >= p {
                let f = with_vis(sp_var(t, d), v.vis);
                StP { r: f.r, pos: f.pos, reps: v.reps + f.reps }
            } else {
                StP { r: StR::Fail(Fail::Unexpected(d)), pos: d, reps: v.reps }
            }
        },
    }
}

/// A statement (without its semicolon) at `p`: the end of the file, a declaration,
/// `return`, `break`, `continue`, `import`, or an expression. A class declaration is
/// unexpected.
#[verifier::opaque]
pub open spec fn sp_stmt(t: Seq<Token>, p: nat) -> StP
    decreases rem(t, p), 350nat,
{
    let k = tok(t, p).kind;
    if k == TokenKind::EndOfFile {
        StP { r: StR::Tree(StSk::Eof(p)), pos: p, reps: Seq::empty() }
    } else if p >= t.len() {
        StP { r: StR::Beyond, pos: p, reps: Seq::empty() }
    } else if k == TokenKind::Keyword(KeywordKind::Var) || k == TokenKind::Keyword(KeywordKind::Function) || k
        == TokenKind::Keyword(KeywordKind::Public) || k == TokenKind::Keyword(KeywordKind::Class) {
        sp_decl(t, p)
    } else if k == TokenKind::Keyword(KeywordKind::Return) {
        sp_return(t, p)
    } else if k == TokenKind::Keyword(KeywordKind::Break) {
        sp_jump(t, p, true)
    } else if k == TokenKind::Keyword(KeywordKind::Continue) {
        sp_jump(t, p, false)
    } else if k == TokenKind::Keyword(KeywordKind::Import) {
        sp_import(t, p)
    } else {
        expr_stmt(sp_expression(t, p))
    }
}

/// The statement reading of an expression reading.
pub open spec fn expr_stmt(e: SP) -> StP {
    match e.r {
        SR::Tree(x) => StP { r: StR::Tree(StSk::Expr(x, e.pos)), pos: e.pos, reps: e.reps },
        SR::Fail(f) => StP { r: StR::Fail(f), pos: e.pos, reps: e.reps },
        SR::Beyond => StP { r: StR::Beyond, pos: e.pos, reps: e.reps },
    }
}

/// `label` is the symbol named by the token at `l`, if any.
pub open spec fn label_at(t: Seq<Token>, label: Option<AstSymbol>, l: Option<nat>) -> bool {
    match l {
        None => label is None,
        Some(j) => label matches Some(y) && symbol_of(y, tok(t, j)),
    }
}

/// Whether a statement of shape `s` jumps: a `return`, `break` or `continue`.
pub open spec fn sk_jumps(s: StSk) -> bool {
    s is Return || s is Jump
}

/// `k` is what the import skeleton `s` describes over the tokens `t`.
pub open spec fn import_conforms(t: Seq<Token>, k: ImportPropertyKind, s: ImportSk) -> bool {
    match s {
        ImportSk::All(i) => k matches ImportPropertyKind::All(n) && n@ == tok(t, i).lexeme@,
        ImportSk::Individual(xs) => k matches ImportPropertyKind::Individual(v) && v@.len() == xs.len() && forall|j: int|
            0 <= j < xs.len() ==> match (#[trigger] v@[j], xs[j].1) {
                (Renameable::Normally(a), None) => a@ == tok(t, xs[j].0).lexeme@,
                (Renameable::Renamed(a, b), Some(m)) => a@ == tok(t, xs[j].0).lexeme@ && b@ == tok(t, m).lexeme@,
                _ => false,
            },
        ImportSk::Bare => k is Bare,
    }
}

/// `st` is the statement that the skeleton `s` describes over the tokens `t`.
pub open spec fn st_conforms(t: Seq<Token>, st: Statement, s: StSk) -> bool
    decreases s,
{
    match s {
        StSk::Expr(x, q) => st.kind matches StatementKind::Expression { inner } && conforms(t, inner, x) && st.span
            == inner.span.spec_merged(tok(t, q).span) && st.cursor == tok(t, q).cursor,
        StSk::Var(vis, p, n, ty, mutable, value) => st.kind matches StatementKind::VarDecl(d) && d.visibility == vis
            && d.mutable == mutable && symbol_of(d.symbol, tok(t, n)) && match ty {
            None => d.ty is None,
            Some(j) => d.ty matches Some(y) && type_named(y.kind, tok(t, j).lexeme@) && y.span == tok(t, j).span
                && y.cursor == tok(t, j).cursor,
        } && match value {
            None => d.value is None,
            Some(x) => d.value matches Some(v) && conforms(t, *v, x),
        } && st.cursor == tok(t, p).cursor && st.span == tok(t, p).span.spec_merged(tok(t, n).span).spec_maybe_merged(
            match d.ty {
                Some(y) => Some(y.span),
                None => None,
            },
        ).spec_maybe_merged(
            match d.value {
                Some(v) => Some(v.span),
                None => None,
            },
        ),
        StSk::Eof(i) => st.kind is EndOfFile && st.span == tok(t, i).span && st.cursor == tok(t, i).cursor,
        StSk::Return(p, v) => st.kind matches StatementKind::Return { value } && st.cursor == tok(t, p).cursor
            && match v {
            None => value is None && st.span == tok(t, p).span,
            Some(x) => value matches Some(e) && conforms(t, e, x) && st.span == tok(t, p).span.spec_merged(e.span),
        },
        StSk::Jump(is_break, p, l) => (if is_break {
            st.kind matches StatementKind::Break { label } && label_at(t, label, l)
        } else {
            st.kind matches StatementKind::Continue { label } && label_at(t, label, l)
        }) && st.cursor == tok(t, p).cursor && st.span == match l {
            None => tok(t, p).span,
            Some(j) => tok(t, p).span.spec_merged(tok(t, j).span),
        },
        StSk::Func(vis, p, n, rp, ret, ps, body) => st.kind matches StatementKind::FuncDecl(d) && d.visibility == vis
            && symbol_of(d.symbol, tok(t, n)) && d.parameters@.len() == ps.len() && (forall|i: int|
            0 <= i < ps.len() ==> param_conforms(t, #[trigger] d.parameters@[i], ps[i])) && match ret {
            None => d.return_type is None,
            Some(j) => d.return_type matches Some(y) && type_named(y.kind, tok(t, j).lexeme@) && y.span == tok(
                t,
                j,
            ).span && y.cursor == tok(t, j).cursor,
        } && st.cursor == tok(t, p).cursor && st.span == (match ret {
            None => tok(t, p).span.spec_merged(tok(t, rp).span),
            Some(j) => tok(t, p).span.spec_merged(tok(t, rp).span).spec_merged(tok(t, j).span),
        }) && match body {
            None => d.body is None,
            Some(x) => d.body matches Some(b) && conforms(t, *b, x),
        },
        StSk::Import(p, what, lib) => st.kind matches StatementKind::Import { kind, path } && import_conforms(
            t,
            kind,
            what,
        ) && path@ == tok(t, lib).lexeme@ && st.span == tok(t, p).span && st.cursor == tok(t, p).cursor,
    }
}

/// Reading a statement from `o` to `n` gave `r` as `sp` says (see `outcome`).
pub open spec fn st_outcome(o: LumaParser, n: LumaParser, r: DiagnosticResult<Statement>, sp: StP) -> bool {
    match sp.r {
        StR::Tree(s) => r matches Ok(st) && st_conforms(o.toks(), st, s) && n.ppos() == sp.pos && filed_all(
            o.spec_reporter(),
            n.spec_reporter(),
            o.toks(),
            sp.reps,
        ),
        StR::Fail(f) => r matches Err(d) && fails_as(o.toks(), d, f) && n.ppos() == sp.pos && filed_all(
            o.spec_reporter(),
            n.spec_reporter(),
            o.toks(),
            sp.reps,
        ),
        StR::Beyond => true,
    }
}

/// Whether a statement of shape `s` needs a semicolon after it: all but an `if`, a scope
/// without a value, a function whose body is a scope, and the end of the file.
pub open spec fn sk_semi(s: StSk) -> bool {
    match s {
        StSk::Expr(x, _) => !(x is If || (x matches Sk::Scope(_, _, v, _, _) && v is None)),
        StSk::Func(_, _, _, _, _, _, body) => match body {
            None => true,
            Some(x) => !(x is Scope),
        },
        StSk::Eof(_) => false,
        _ => true,
    }
}

/// The report of the semicolon missing after a statement read up to `q`, where one is
/// wanted (`need`) and none follows.
pub open spec fn semi_reps(t: Seq<Token>, q: nat, need: bool) -> Seq<Rep> {
    if tok(t, q).kind != TokenKind::Punctuation(PunctuationKind::Semicolon) && need {
        seq![Rep::Semi(q)]
    } else {
        Seq::empty()
    }
}

/// Where reading stops after a statement read up to `q` and its semicolon, if any.
pub open spec fn semi_end(t: Seq<Token>, q: nat) -> nat {
    if tok(t, q).kind == TokenKind::Punctuation(PunctuationKind::Semicolon) {
        after(t, q)
    } else {
        q
    }
}

/// Reading a statement and its semicolon from `o` to `n` gave `r` as `sp` says: the
/// statement (or the failure) is followed by a `;`, which is read, or else, where the
/// statement was read and a semicolon is wanted (`semicolon`, or by default where the
/// statement needs one), the missing semicolon is reported after the statement's reports.
pub open spec fn stmt_outcome(
    o: LumaParser,
    n: LumaParser,
    r: DiagnosticResult<Statement>,
    semicolon: Option<bool>,
    sp: StP,
) -> bool {
    let t = o.toks();
    let q = sp.pos;
    match sp.r {
        StR::Tree(s) => r matches Ok(st) && st_conforms(t, st, s) && n.ppos() == semi_end(t, q) && filed_all(
            o.spec_reporter(),
            n.spec_reporter(),
            t,
            sp.reps + semi_reps(
                t,
                q,
                match semicolon {
                    Some(b) => b,
                    None => sk_semi(s),
                },
            ),
        ),
        StR::Fail(f) => r matches Err(d) && fails_as(t, d, f) && n.ppos() == semi_end(t, q) && filed_all(
            o.spec_reporter(),
            n.spec_reporter(),
            t,
            sp.reps,
        ),
        StR::Beyond => true,
    }
}

/// What reading the statements of a program gives: the statements read and the reports
/// filed, in order.
pub enum Prog {
    Done(Seq<StSk>, Seq<Rep>),
    Beyond,
}

/// `a` and `b` read first, then `p`.
pub open spec fn join(a: Seq<StSk>, b: Seq<Rep>, p: Prog) -> Prog {
    match p {
        Prog::Done(x, y) => Prog::Done(a + x, b + y),
        Prog::Beyond => Prog::Beyond,
    }
}

/// The statements from `p` on up to the end of the file, each with its semicolon (see
/// `stmt_outcome`); a statement that fails is reported and reading goes on after it.
pub open spec fn sp_program(t: Seq<Token>, p: nat) -> Prog
    decreases rem(t, p),
{
    if p >= t.len() || tok(t, p).kind == TokenKind::EndOfFile {
        Prog::Done(Seq::empty(), Seq::empty())
    } else {
        let s = sp_stmt(t, p);
        let q = s.pos;
        let end = semi_end(t, q);
        if end <= p {
            Prog::Beyond
        } else {
            match s.r {
                StR::Tree(sk) => {
                    let reps = s.reps + semi_reps(t, q, sk_semi(sk));
                    if sk is Eof {
                        Prog::Done(seq![sk], reps)
                    } else {
                        join(seq![sk], reps, sp_program(t, end))
                    }
                },
                StR::Fail(f) => join(Seq::empty(), s.reps.push(Rep::Failed(f)), sp_program(t, end)),
                StR::Beyond => Prog::Beyond,
            }
        }
    }
}

/// What reading the statements of a scope gives: the statements kept, the value (the last
/// expression without a semicolon), the reports filed, where reading stopped, and whether
/// it stopped at the closing `}`.
pub enum ScopeR {
    Done(Seq<StSk>, Option<Sk>, Seq<Rep>, nat, bool),
    Beyond,
}

/// `a`, value `v` and reports `b` read first, then `rest`; a later value replaces an
/// earlier one.
pub open spec fn scope_join(a: Seq<StSk>, v: Option<Sk>, b: Seq<Rep>, rest: ScopeR) -> ScopeR {
    match rest {
        ScopeR::Done(x, w, y, pos, closed) => ScopeR::Done(a + x, if w is Some { w } else { v }, b + y, pos, closed),
        ScopeR::Beyond => ScopeR::Beyond,
    }
}

/// The statements of a scope from `p` on, up to its `}` or the end of the file. `had` says
/// whether a value (or a jump) was read already: from then on a missing semicolon is
/// reported. A statement that needs a semicolon but stands without one gives the scope its
/// value if it is an expression; other statements are kept.
pub open spec fn sp_scope(t: Seq<Token>, p: nat, had: bool) -> ScopeR
    decreases rem(t, p), 400nat,
{
    if p >= t.len() || tok(t, p).kind == TokenKind::EndOfFile {
        ScopeR::Done(Seq::empty(), None, Seq::empty(), p, false)
    } else if tok(t, p).kind == TokenKind::Punctuation(PunctuationKind::RightBrace) {
        ScopeR::Done(Seq::empty(), None, Seq::empty(), p, true)
    } else {
        let s = sp_stmt(t, p);
        let q = s.pos;
        let end = semi_end(t, q);
        if end <= p {
            ScopeR::Beyond
        } else {
            match s.r {
                StR::Tree(sk) => {
                    let reps = s.reps + semi_reps(t, q, had);
                    let implicit = sk_semi(sk) && tok(t, (end - 1) as nat).kind != TokenKind::Punctuation(
                        PunctuationKind::Semicolon,
                    );
                    let v: Option<Sk> = if implicit {
                        match sk {
                            StSk::Expr(x, _) => Some(x),
                            _ => None,
                        }
                    } else {
                        None
                    };
                    let kept: Seq<StSk> = if implicit { Seq::empty() } else { seq![sk] };
                    scope_join(kept, v, reps, sp_scope(t, end, had || implicit || sk_jumps(sk)))
                },
                StR::Fail(f) => scope_join(Seq::empty(), None, s.reps.push(Rep::Failed(f)), sp_scope(t, end, had)),
                StR::Beyond => ScopeR::Beyond,
            }
        }
    }
}

/// Reading `a`, `v`, `b`, then `c`, `w`, `d`, then `rest`, is reading them together.
pub proof fn lemma_scope_join(
    a: Seq<StSk>,
    v: Option<Sk>,
    b: Seq<Rep>,
    c: Seq<StSk>,
    w: Option<Sk>,
    d: Seq<Rep>,
    rest: ScopeR,
)
    ensures
        scope_join(a, v, b, scope_join(c, w, d, rest)) == scope_join(
            a + c,
            if w is Some { w } else { v },
            b + d,
            rest,
        ),
{
    if let ScopeR::Done(x, u, y, pos, closed) = rest {
        assert(a + (c + x) =~= (a + c) + x);
        assert(b + (d + y) =~= (b + d) + y);
    }
}

/// A statement that conforms to `s` needs a semicolon exactly when `s` says so.
pub proof fn lemma_semi(t: Seq<Token>, st: Statement, s: StSk)
    requires
        st_conforms(t, st, s),
    ensures
        semi_required(st) == sk_semi(s),
{
    if let StSk::Expr(x, q) = s {
        if let StatementKind::Expression { inner } = st.kind {
            assert(conforms(t, inner, x));
        }
    }
    if let StSk::Func(vis, p, n, rp, ret, ps, body) = s {
        if let StatementKind::FuncDecl(d) = st.kind {
            if let Some(b) = d.body {
                assert(conforms(t, *b, body.unwrap()));
            }
        }
    }
}

} // verus!
