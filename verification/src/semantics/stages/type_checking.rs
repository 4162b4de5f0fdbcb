use vstd::prelude::*;

use crate::ast::types::{lemma_same_type_refl, lemma_same_type_symm, lemma_same_type_trans, same_type, TypeKind};
use crate::diagnostic::reporter::{appended, lemma_appended_empty, lemma_appended_trans, Reporter};
use crate::diagnostic::{DiagnosticMessage, DiagnosticReport};
use crate::semantics::ctx::AnalyzerContext;
use crate::semantics::diagnostics::AnalyzerDiagnostic;
use crate::semantics::hir::expressions::{HirExpression, HirExpressionKind};
use crate::semantics::hir::statements::{HirStatement, HirStatementKind};
use crate::semantics::hir::HirConditionalBranch;
use crate::semantics::source::ParsedCodeKind;
use crate::semantics::stages::type_inference::hir_statements;
use crate::semantics::symbol::{SymbolsTable, ValueSymbol};
use crate::span::{Cursor, Span};

verus! {

/// A diagnostic of type checking, up to the copies of the types it names.
pub enum TcReport {
    MismatchedTypes(TypeKind, TypeKind, Span, Cursor),
    ExpectedTypeFoundType(TypeKind, TypeKind, Span, Cursor),
    CalleeNotFunction(TypeKind, Span, Cursor),
    InvalidAmountOfArguments(usize, usize, Span, Cursor),
    MissingElseBranch(TypeKind, Span, Cursor),
}

/// `d` is the report `t` describes, with types that are the same.
pub open spec fn describes(d: DiagnosticReport, t: TcReport) -> bool {
    match t {
        TcReport::MismatchedTypes(a, b, s, c) => d.span == s && d.cursor == c && (d.message matches DiagnosticMessage::Analyzer(
            AnalyzerDiagnostic::MismatchedTypes(x, y),
        ) && same_type(x, a) && same_type(y, b)),
        TcReport::ExpectedTypeFoundType(a, b, s, c) => d.span == s && d.cursor == c && (d.message matches DiagnosticMessage::Analyzer(
            AnalyzerDiagnostic::ExpectedTypeFoundType(x, y),
        ) && same_type(x, a) && same_type(y, b)),
        TcReport::CalleeNotFunction(a, s, c) => d.span == s && d.cursor == c && (d.message matches DiagnosticMessage::Analyzer(
            AnalyzerDiagnostic::CalleeNotFunction(x),
        ) && same_type(x, a)),
        TcReport::InvalidAmountOfArguments(a, b, s, c) => d.span == s && d.cursor == c && d.message
            == DiagnosticMessage::Analyzer(AnalyzerDiagnostic::InvalidAmountOfArguments(a, b)),
        TcReport::MissingElseBranch(a, s, c) => d.span == s && d.cursor == c && (d.message matches DiagnosticMessage::Analyzer(
            AnalyzerDiagnostic::MissingElseBranch(x),
        ) && same_type(x, a)),
    }
}

/// `ds` are the reports `ts` describe, one for one.
pub open spec fn describes_all(ds: Seq<DiagnosticReport>, ts: Seq<TcReport>) -> bool {
    &&& ds.len() == ts.len()
    &&& forall|i: int| 0 <= i < ts.len() ==> describes(#[trigger] ds[i], ts[i])
}

/// `after` is `before` with reports filed, one for each of `ts`, in order.
pub open spec fn reported_as(before: Reporter, after: Reporter, ts: Seq<TcReport>) -> bool {
    exists|ds: Seq<DiagnosticReport>| appended(before, after, ds) && describes_all(ds, ts)
}

/// The type found by checking, what checking reported, and whether it met a symbol the
/// tables do not hold (a callee whose symbol is missing, on which checking fails).
pub struct TcResult {
    pub ty: TypeKind,
    pub reports: Seq<TcReport>,
    pub stuck: bool,
}

pub open spec fn tc_seq(a: TcResult, b: TcResult) -> TcResult {
    TcResult { ty: b.ty, reports: a.reports + b.reports, stuck: a.stuck || b.stuck }
}

pub open spec fn tc_ty(ty: TypeKind) -> TcResult {
    TcResult { ty, reports: Seq::empty(), stuck: false }
}

/// The type a callee's symbol gives a call: the return type of a function, else the symbol's type.
pub open spec fn call_type(t: TypeKind) -> TypeKind {
    match t {
        TypeKind::Function { return_type, .. } => *return_type,
        _ => t,
    }
}

/// Checking an expression against the value types `types`: a call of a variable has its
/// arguments checked against the variable's function type and gives its return type; a call
/// of anything else is reported; an `if` needs `bool` conditions, branches of one type, and
/// an `else` where that type is not the unit type; a scope's statements are checked.
/// Otherwise the expression's own type is given.
pub open spec fn tc_expr(types: Seq<TypeKind>, e: HirExpression) -> TcResult
    decreases e, 1nat,
{
    match e.kind {
        HirExpressionKind::Invoke { callee, arguments } => match callee.kind {
            HirExpressionKind::Variable { symbol_id } => if symbol_id >= types.len() {
                TcResult { ty: TypeKind::Unknown, reports: Seq::empty(), stuck: true }
            } else {
                let st = types[symbol_id as int];
                let args = tc_arguments(types, e, st, arguments@);
                TcResult { ty: call_type(st), reports: args.reports, stuck: args.stuck }
            },
            _ => TcResult {
                ty: callee.ty,
                reports: seq![TcReport::CalleeNotFunction(callee.ty, e.span, e.cursor)],
                stuck: false,
            },
        },
        HirExpressionKind::Scope { statements, .. } => {
            let s = tc_stmts(types, statements@);
            TcResult { ty: e.ty, reports: s.reports, stuck: s.stuck }
        },
        HirExpressionKind::If { main_expr, branches, else_expr } => {
            let m = tc_branch(types, *main_expr);
            let bs = tc_branches(types, m.ty, branches@);
            let el = match else_expr {
                Some(x) => {
                    let t = tc_expr(types, *x);
                    TcResult {
                        ty: m.ty,
                        reports: t.reports + if !same_type(t.ty, m.ty) {
                            seq![TcReport::ExpectedTypeFoundType(m.ty, t.ty, x.span, x.cursor)]
                        } else {
                            Seq::empty()
                        },
                        stuck: t.stuck,
                    }
                },
                None => tc_ty(m.ty),
            };
            let missing = !same_type(m.ty, TypeKind::Unit) && else_expr is None && branches@.len() == 0;
            let all = tc_seq(tc_seq(m, bs), el);
            TcResult {
                ty: m.ty,
                reports: all.reports + if missing {
                    seq![TcReport::MissingElseBranch(m.ty, e.span, e.cursor)]
                } else {
                    Seq::empty()
                },
                stuck: all.stuck,
            }
        },
        _ => tc_ty(e.ty),
    }
}

/// The arguments of a call to a symbol of type `callee`: a callee that is no function is
/// reported, as is a number of arguments other than the number of parameters; otherwise each
/// argument is checked and reported where its type is not the parameter's.
pub open spec fn tc_arguments(types: Seq<TypeKind>, e: HirExpression, callee: TypeKind, args: Seq<HirExpression>) -> TcResult
    decreases args, 1nat,
{
    match callee {
        TypeKind::Function { param_types, .. } => if param_types@.len() != args.len() {
            TcResult {
                ty: TypeKind::Unit,
                reports: seq![TcReport::InvalidAmountOfArguments(param_types@.len() as usize, args.len() as usize, e.span, e.cursor)],
                stuck: false,
            }
        } else {
            tc_args_against(types, args, param_types@)
        },
        _ => TcResult {
            ty: TypeKind::Unit,
            reports: seq![TcReport::CalleeNotFunction(callee, e.span, e.cursor)],
            stuck: false,
        },
    }
}

pub open spec fn tc_args_against(types: Seq<TypeKind>, args: Seq<HirExpression>, params: Seq<TypeKind>) -> TcResult
    decreases args, 0nat,
{
    if args.len() == 0 {
        tc_ty(TypeKind::Unit)
    } else {
        let a = tc_args_against(types, args.drop_last(), params.drop_last());
        let t = tc_expr(types, args.last());
        TcResult {
            ty: TypeKind::Unit,
            reports: a.reports + t.reports + if !same_type(t.ty, params.last()) {
                seq![TcReport::MismatchedTypes(params.last(), t.ty, args.last().span, args.last().cursor)]
            } else {
                Seq::empty()
            },
            stuck: a.stuck || t.stuck,
        }
    }
}

/// A branch: its condition must be `bool`; the branch's type is its body's.
pub open spec fn tc_branch(types: Seq<TypeKind>, b: HirConditionalBranch) -> TcResult
    decreases b, 0nat,
{
    let c = tc_expr(types, b.condition);
    let body = tc_expr(types, b.body);
    TcResult {
        ty: body.ty,
        reports: c.reports + (if !same_type(c.ty, TypeKind::Bool) {
            seq![TcReport::ExpectedTypeFoundType(TypeKind::Bool, c.ty, b.condition.span, b.condition.cursor)]
        } else {
            Seq::empty()
        }) + body.reports,
        stuck: c.stuck || body.stuck,
    }
}

/// The `else if` branches, each of which must have the type `ret`.
pub open spec fn tc_branches(types: Seq<TypeKind>, ret: TypeKind, bs: Seq<HirConditionalBranch>) -> TcResult
    decreases bs, 0nat,
{
    if bs.len() == 0 {
        tc_ty(TypeKind::Unit)
    } else {
        let a = tc_branches(types, ret, bs.drop_last());
        let b = tc_branch(types, bs.last());
        TcResult {
            ty: TypeKind::Unit,
            reports: a.reports + b.reports + if !same_type(b.ty, ret) {
                seq![TcReport::ExpectedTypeFoundType(ret, b.ty, bs.last().body.span, bs.last().body.cursor)]
            } else {
                Seq::empty()
            },
            stuck: a.stuck || b.stuck,
        }
    }
}

/// Each `else if` branch whose body's type is not `ret` is reported: checking the branches
/// files, for every such branch, the report that `ret` was expected and the body's type was
/// found, at that branch's body.
pub proof fn lemma_branch_mismatch_reported(types: Seq<TypeKind>, ret: TypeKind, bs: Seq<HirConditionalBranch>, j: int)
    requires
        0 <= j < bs.len(),
        !same_type(tc_expr(types, bs[j].body).ty, ret),
    ensures
        tc_branches(types, ret, bs).reports.contains(
            TcReport::ExpectedTypeFoundType(ret, tc_expr(types, bs[j].body).ty, bs[j].body.span, bs[j].body.cursor),
        ),
    decreases bs.len(),
{
    let x = TcReport::ExpectedTypeFoundType(ret, tc_expr(types, bs[j].body).ty, bs[j].body.span, bs[j].body.cursor);
    let a = tc_branches(types, ret, bs.drop_last());
    let b = tc_branch(types, bs.last());
    let tail: Seq<TcReport> = if !same_type(b.ty, ret) {
        seq![TcReport::ExpectedTypeFoundType(ret, b.ty, bs.last().body.span, bs.last().body.cursor)]
    } else {
        Seq::empty()
    };
    let all = a.reports + b.reports + tail;
    assert(tc_branches(types, ret, bs).reports == all);
    if j == bs.len() - 1 {
        assert(bs.last() == bs[j]);
        assert(tail[0] == x);
        assert(all[(a.reports.len() + b.reports.len()) as int] == x);
    } else {
        assert(bs.drop_last()[j] == bs[j]);
        lemma_branch_mismatch_reported(types, ret, bs.drop_last(), j);
        let k = choose|k: int| 0 <= k < a.reports.len() && a.reports[k] == x;
        assert(all[k] == x);
    }
}

/// In an `if`, every `else if` branch whose body's type differs from the first branch's is
/// reported at its body, as expecting the first branch's type and finding the body's.
pub proof fn lemma_if_branch_mismatch_reported(types: Seq<TypeKind>, e: HirExpression, j: int)
    requires
        e.kind matches HirExpressionKind::If { main_expr, branches, .. } && 0 <= j < branches@.len() && !same_type(
            tc_expr(types, branches@[j].body).ty,
            tc_expr(types, main_expr.body).ty,
        ),
    ensures
        match e.kind {
            HirExpressionKind::If { main_expr, branches, .. } => tc_expr(types, e).reports.contains(
                TcReport::ExpectedTypeFoundType(
                    tc_expr(types, main_expr.body).ty,
                    tc_expr(types, branches@[j].body).ty,
                    branches@[j].body.span,
                    branches@[j].body.cursor,
                ),
            ),
            _ => false,
        },
{
    match e.kind {
        HirExpressionKind::If { main_expr, branches, else_expr } => {
            let m = tc_branch(types, *main_expr);
            let ret = tc_expr(types, main_expr.body).ty;
            assert(m.ty == ret);
            let x = TcReport::ExpectedTypeFoundType(
                ret,
                tc_expr(types, branches@[j].body).ty,
                branches@[j].body.span,
                branches@[j].body.cursor,
            );
            lemma_branch_mismatch_reported(types, ret, branches@, j);
            let bs = tc_branches(types, m.ty, branches@);
            let k = choose|k: int| 0 <= k < bs.reports.len() && bs.reports[k] == x;
            let first = tc_seq(m, bs);
            assert(first.reports[m.reports.len() as int + k] == x);
            let r = tc_expr(types, e).reports;
            assert(r[m.reports.len() as int + k] == x);
        },
        _ => {},
    }
}

/// Checking a statement: the inner expression, a variable's value, a function's body, or a
/// return value.
pub open spec fn tc_stmt(types: Seq<TypeKind>, s: HirStatement) -> TcResult
    decreases s, 1nat,
{
    match s.kind {
        HirStatementKind::Expression { inner } => tc_expr(types, inner),
        HirStatementKind::VarDecl(d) => match d.value {
            Some(v) => tc_expr(types, *v),
            None => tc_ty(TypeKind::Unknown),
        },
        HirStatementKind::FuncDecl(d) => match d.body {
            Some(b) => tc_expr(types, *b),
            None => tc_ty(TypeKind::Unit),
        },
        HirStatementKind::Return { value } => match value {
            Some(v) => tc_expr(types, *v),
            None => tc_ty(TypeKind::Unit),
        },
        _ => tc_ty(TypeKind::Unit),
    }
}

pub open spec fn tc_stmts(types: Seq<TypeKind>, ss: Seq<HirStatement>) -> TcResult
    decreases ss, 0nat,
{
    if ss.len() == 0 {
        tc_ty(TypeKind::Unit)
    } else {
        let a = tc_stmts(types, ss.drop_last());
        let b = tc_stmt(types, ss.last());
        TcResult { ty: TypeKind::Unit, reports: a.reports + b.reports, stuck: a.stuck || b.stuck }
    }
}

/// The value types the tables hold, by symbol id.
pub open spec fn value_types(t: SymbolsTable) -> Seq<TypeKind> {
    t.value_table.spec_symbols().map_values(|s: ValueSymbol| s.ty)
}

/// The arguments of a call (none for any other expression).
pub open spec fn invoke_args(e: HirExpression) -> Seq<HirExpression> {
    match e.kind {
        HirExpressionKind::Invoke { arguments, .. } => arguments@,
        _ => Seq::empty(),
    }
}

/// The `else if` branches of an `if` (none for any other expression).
pub open spec fn if_branches(e: HirExpression) -> Seq<HirConditionalBranch> {
    match e.kind {
        HirExpressionKind::If { branches, .. } => branches@,
        _ => Seq::empty(),
    }
}

/// Type checking can run on `ctx`: its code is HIR, and every callee that is a variable
/// names a symbol the tables hold.
pub open spec fn type_checking_ready(ctx: AnalyzerContext) -> bool {
    &&& ctx.input.code is Hir
    &&& !tc_stmts(value_types(ctx.symbol_table), hir_statements(ctx.input.code)).stuck
}

/// What checking the HIR of `ctx` reports, in order.
pub open spec fn type_checking_reports(ctx: AnalyzerContext) -> Seq<TcReport> {
    tc_stmts(value_types(ctx.symbol_table), hir_statements(ctx.input.code)).reports
}

/// The stage that checks that the types of the HIR fit together: arguments against
/// parameters, conditions against `bool`, the branches of an `if` against each other.
#[derive(Debug)]
pub struct TypeCheckingStage;

impl TypeCheckingStage {
    pub fn name(&self) -> (r: &'static str)
        ensures
            r@ == "TypeChecking"@,
    {
        "TypeChecking"
    }

    /// Checks the source's HIR statement by statement; changes nothing but the reporter.
    pub fn run(&mut self, ctx: &mut AnalyzerContext) -> (r: bool)
        requires
            type_checking_ready(*old(ctx)),
        ensures
            r,
            final(ctx).input == old(ctx).input,
            final(ctx).symbol_table == old(ctx).symbol_table,
            reported_as(old(ctx).reporter, final(ctx).reporter, type_checking_reports(*old(ctx))),
    {
        match &ctx.input.code {
            ParsedCodeKind::Hir(h) => {
                let ghost ss = h.statements@;
                proof {
                    assert(ss.take(ss.len() as int) =~= ss);
                }
                let g = check_stmts_upto(&ctx.symbol_table, &mut ctx.reporter, &h.statements, h.statements.len());
                proof {
                    assert(appended(old(ctx).reporter, ctx.reporter, g@) && describes_all(g@, type_checking_reports(*old(ctx))));
                }
            },
            _ => {
                proof {
                    assert(false);
                }
            },
        }
        true
    }
}

/// What checking an `else` reports, against the `if`'s type `ret`.
pub open spec fn else_reports(types: Seq<TypeKind>, ret: TypeKind, else_expr: Option<Box<HirExpression>>) -> Seq<TcReport> {
    match else_expr {
        Some(x) => {
            let t = tc_expr(types, *x);
            t.reports + if !same_type(t.ty, ret) {
                seq![TcReport::ExpectedTypeFoundType(ret, t.ty, x.span, x.cursor)]
            } else {
                Seq::empty()
            }
        },
        None => Seq::empty(),
    }
}

proof fn lemma_arg_decreases(e: HirExpression, i: int)
    requires
        0 <= i < invoke_args(e).len(),
    ensures
        decreases_to!(e => invoke_args(e)[i]),
{
    match e.kind {
        HirExpressionKind::Invoke { arguments, .. } => {
            assert(decreases_to!(arguments@ => arguments@[i]));
        },
        _ => {},
    }
}

proof fn lemma_branch_decreases(e: HirExpression, i: int)
    requires
        0 <= i < if_branches(e).len(),
    ensures
        decreases_to!(e => if_branches(e)[i]),
{
    match e.kind {
        HirExpressionKind::If { branches, .. } => {
            assert(decreases_to!(branches@ => branches@[i]));
        },
        _ => {},
    }
}

/// Two batches of reports, filed one after the other, are filed together.
proof fn lemma_chain(
    a: Reporter,
    b: Reporter,
    c: Reporter,
    d1: Seq<DiagnosticReport>,
    t1: Seq<TcReport>,
    d2: Seq<DiagnosticReport>,
    t2: Seq<TcReport>,
)
    requires
        appended(a, b, d1),
        describes_all(d1, t1),
        appended(b, c, d2),
        describes_all(d2, t2),
    ensures
        appended(a, c, d1 + d2),
        describes_all(d1 + d2, t1 + t2),
{
    lemma_appended_trans(a, b, c, d1, d2);
    assert forall|i: int| 0 <= i < (t1 + t2).len() implies describes(#[trigger] (d1 + d2)[i], (t1 + t2)[i]) by {
        if i < t1.len() {
            assert((d1 + d2)[i] == d1[i]);
            assert((t1 + t2)[i] == t1[i]);
        } else {
            assert((d1 + d2)[i] == d2[i - d1.len()]);
            assert((t1 + t2)[i] == t2[i - t1.len()]);
        }
    }
}

/// Filing nothing describes no reports.
proof fn lemma_none(r: Reporter)
    ensures
        appended(r, r, Seq::empty()),
        describes_all(Seq::empty(), Seq::<TcReport>::empty()),
{
    lemma_appended_empty(r);
}

/// Comparing copies of two types gives what comparing the types gives.
proof fn lemma_same_type_congruent(a: TypeKind, a2: TypeKind, b: TypeKind, b2: TypeKind)
    requires
        same_type(a, a2),
        same_type(b, b2),
    ensures
        same_type(a, b) == same_type(a2, b2),
{
    lemma_same_type_symm(a, a2);
    lemma_same_type_symm(b, b2);
    if same_type(a, b) {
        lemma_same_type_trans(a2, a, b);
        lemma_same_type_trans(a2, b, b2);
    }
    if same_type(a2, b2) {
        lemma_same_type_trans(a, a2, b2);
        lemma_same_type_trans(a, b2, b);
    }
}

/// Files one report of type checking.
fn file_report(reporter: &mut Reporter, report: DiagnosticReport, Ghost(t): Ghost<TcReport>) -> (g: Ghost<Seq<DiagnosticReport>>)
    requires
        describes(report, t),
    ensures
        appended(*old(reporter), *final(reporter), g@),
        describes_all(g@, seq![t]),
{
    let ghost d = report;
    reporter.report(report);
    let ghost out = seq![d];
    proof {
        assert(out[0] == d);
        assert(seq![t][0] == t);
    }
    Ghost(out)
}

/// Checks an expression (see `tc_expr`), reporting what it finds; gives the expression's type.
#[verifier::spinoff_prover]
#[verifier::rlimit(40)]
fn check_expr(table: &SymbolsTable, reporter: &mut Reporter, expr: &HirExpression) -> (r: (TypeKind, Ghost<Seq<DiagnosticReport>>))
    requires
        !tc_expr(value_types(*table), *expr).stuck,
    ensures
        same_type(r.0, tc_expr(value_types(*table), *expr).ty),
        appended(*old(reporter), *final(reporter), r.1@),
        describes_all(r.1@, tc_expr(value_types(*table), *expr).reports),
    decreases *expr, 2nat, 0nat,
{
    let ghost types = value_types(*table);
    let ghost r0 = *reporter;
    match &expr.kind {
        HirExpressionKind::Invoke { callee, arguments } => match &callee.kind {
            HirExpressionKind::Variable { symbol_id } => match table.value_table.lookup_id(*symbol_id) {
                Some(symbol) => {
                    let g = check_arguments(table, reporter, expr, &symbol.ty);
                    let t = match &symbol.ty {
                        TypeKind::Function { return_type, .. } => return_type.duplicate(),
                        _ => symbol.ty.duplicate(),
                    };
                    (t, g)
                },
                None => {
                    proof {
                        assert(false);
                    }
                    (TypeKind::Unknown, Ghost(Seq::empty()))
                },
            },
            _ => {
                let ty = callee.ty.duplicate();
                let report = DiagnosticReport {
                    message: DiagnosticMessage::Analyzer(AnalyzerDiagnostic::CalleeNotFunction(callee.ty.duplicate())),
                    span: expr.span,
                    cursor: expr.cursor,
                };
                let g = file_report(reporter, report, Ghost(TcReport::CalleeNotFunction(callee.ty, expr.span, expr.cursor)));
                (ty, g)
            },
        },
        HirExpressionKind::Scope { statements, .. } => {
            proof {
                assert(statements@.take(statements@.len() as int) =~= statements@);
                assert(decreases_to!(*expr => statements@));
            }
            let g = check_stmts_upto(table, reporter, statements, statements.len());
            (expr.ty.duplicate(), g)
        },
        HirExpressionKind::If { main_expr, branches, else_expr } => {
            let ghost m = tc_branch(types, **main_expr);
            let (ret_ty, g1) = check_branch(table, reporter, &**main_expr);
            let ghost r1 = *reporter;
            proof {
                assert(branches@.take(branches@.len() as int) =~= branches@);
            }
            let g2 = check_branches_upto(table, reporter, expr, branches, &ret_ty, Ghost(m.ty), branches.len());
            let ghost r2 = *reporter;
            proof {
                lemma_chain(r0, r1, r2, g1@, m.reports, g2@, tc_branches(types, m.ty, branches@).reports);
            }
            let ghost el = else_reports(types, m.ty, *else_expr);
            let g3 = match else_expr {
                Some(x) => {
                    let ghost xt = tc_expr(types, **x);
                    let (t, g) = check_expr(table, reporter, &**x);
                    let ghost r3 = *reporter;
                    proof {
                        lemma_same_type_congruent(t, xt.ty, ret_ty, m.ty);
                    }
                    if !t.eq(&ret_ty) {
                        let rd = ret_ty.duplicate();
                        proof {
                            lemma_same_type_trans(rd, ret_ty, m.ty);
                        }
                        let report = DiagnosticReport {
                            message: DiagnosticMessage::Analyzer(AnalyzerDiagnostic::ExpectedTypeFoundType(rd, t)),
                            span: x.span,
                            cursor: x.cursor,
                        };
                        let gx = file_report(reporter, report, Ghost(TcReport::ExpectedTypeFoundType(m.ty, xt.ty, x.span, x.cursor)));
                        proof {
                            lemma_chain(r2, r3, *reporter, g@, xt.reports, gx@, seq![TcReport::ExpectedTypeFoundType(m.ty, xt.ty, x.span, x.cursor)]);
                        }
                        Ghost(g@ + gx@)
                    } else {
                        proof {
                            assert(xt.reports + Seq::<TcReport>::empty() =~= xt.reports);
                        }
                        g
                    }
                },
                None => {
                    proof {
                        lemma_none(*reporter);
                    }
                    Ghost(Seq::empty())
                },
            };
            let ghost r4 = *reporter;
            proof {
                lemma_chain(r0, r2, r4, g1@ + g2@, m.reports + tc_branches(types, m.ty, branches@).reports, g3@, el);
            }
            proof {
                lemma_same_type_refl(TypeKind::Unit);
                lemma_same_type_congruent(ret_ty, m.ty, TypeKind::Unit, TypeKind::Unit);
            }
            let returns_type = !ret_ty.eq(&TypeKind::Unit);
            let has_else_branch = else_expr.is_some() || branches.len() > 0;
            let ghost all = m.reports + tc_branches(types, m.ty, branches@).reports + el;
            let g4 = if returns_type && !has_else_branch {
                let rd = ret_ty.duplicate();
                proof {
                    lemma_same_type_trans(rd, ret_ty, m.ty);
                }
                let report = DiagnosticReport {
                    message: DiagnosticMessage::Analyzer(AnalyzerDiagnostic::MissingElseBranch(rd)),
                    span: expr.span,
                    cursor: expr.cursor,
                };
                let gm = file_report(reporter, report, Ghost(TcReport::MissingElseBranch(m.ty, expr.span, expr.cursor)));
                proof {
                    lemma_chain(r0, r4, *reporter, g1@ + g2@ + g3@, all, gm@, seq![TcReport::MissingElseBranch(m.ty, expr.span, expr.cursor)]);
                }
                Ghost(g1@ + g2@ + g3@ + gm@)
            } else {
                proof {
                    assert(all + Seq::<TcReport>::empty() =~= all);
                }
                Ghost(g1@ + g2@ + g3@)
            };
            (ret_ty, g4)
        },
        _ => {
            proof {
                lemma_none(*reporter);
            }
            (expr.ty.duplicate(), Ghost(Seq::empty()))
        },
    }
}

/// Checks the arguments of the call `expr` against the callee's type `callee` (see `tc_arguments`).
#[verifier::spinoff_prover]
fn check_arguments(table: &SymbolsTable, reporter: &mut Reporter, expr: &HirExpression, callee: &TypeKind) -> (g: Ghost<Seq<DiagnosticReport>>)
    requires
        expr.kind is Invoke,
        !tc_arguments(value_types(*table), *expr, *callee, invoke_args(*expr)).stuck,
    ensures
        appended(*old(reporter), *final(reporter), g@),
        describes_all(g@, tc_arguments(value_types(*table), *expr, *callee, invoke_args(*expr)).reports),
    decreases *expr, 1nat, 0nat,
{
    match &expr.kind {
        HirExpressionKind::Invoke { arguments, .. } => match callee {
            TypeKind::Function { param_types, .. } => {
                if param_types.len() != arguments.len() {
                    let report = DiagnosticReport {
                        message: DiagnosticMessage::Analyzer(
                            AnalyzerDiagnostic::InvalidAmountOfArguments(param_types.len(), arguments.len()),
                        ),
                        span: expr.span,
                        cursor: expr.cursor,
                    };
                    file_report(
                        reporter,
                        report,
                        Ghost(TcReport::InvalidAmountOfArguments(param_types.len(), arguments.len(), expr.span, expr.cursor)),
                    )
                } else {
                    proof {
                        assert(arguments@.take(arguments@.len() as int) =~= arguments@);
                        assert(param_types@.take(param_types@.len() as int) =~= param_types@);
                    }
                    check_args_upto(table, reporter, expr, arguments, param_types, arguments.len())
                }
            },
            _ => {
                let report = DiagnosticReport {
                    message: DiagnosticMessage::Analyzer(AnalyzerDiagnostic::CalleeNotFunction(callee.duplicate())),
                    span: expr.span,
                    cursor: expr.cursor,
                };
                file_report(reporter, report, Ghost(TcReport::CalleeNotFunction(*callee, expr.span, expr.cursor)))
            },
        },
        _ => {
            proof {
                assert(false);
            }
            Ghost(Seq::empty())
        },
    }
}

/// Checks the first `n` arguments of the call `expr` against the first `n` parameter types.
#[verifier::spinoff_prover]
fn check_args_upto(
    table: &SymbolsTable,
    reporter: &mut Reporter,
    expr: &HirExpression,
    args: &Vec<HirExpression>,
    params: &Vec<TypeKind>,
    n: usize,
) -> (g: Ghost<Seq<DiagnosticReport>>)
    requires
        expr.kind is Invoke,
        invoke_args(*expr) == args@,
        args@.len() == params@.len(),
        n <= args@.len(),
        !tc_args_against(value_types(*table), args@.take(n as int), params@.take(n as int)).stuck,
    ensures
        appended(*old(reporter), *final(reporter), g@),
        describes_all(g@, tc_args_against(value_types(*table), args@.take(n as int), params@.take(n as int)).reports),
    decreases *expr, 0nat, n,
{
    let ghost types = value_types(*table);
    if n == 0 {
        proof {
            lemma_none(*reporter);
        }
        Ghost(Seq::empty())
    } else {
        let ghost r0 = *reporter;
        let ghost a = args@.take(n as int);
        let ghost p = params@.take(n as int);
        proof {
            assert(a.drop_last() =~= args@.take(n - 1));
            assert(p.drop_last() =~= params@.take(n - 1));
            assert(a.last() == args@[n - 1]);
            assert(p.last() == params@[n - 1]);
        }
        let g1 = check_args_upto(table, reporter, expr, args, params, n - 1);
        let ghost r1 = *reporter;
        let arg = &args[n - 1];
        let ghost at = tc_expr(types, *arg);
        proof {
            lemma_arg_decreases(*expr, n - 1);
        }
        let (t, g2) = check_expr(table, reporter, arg);
        let ghost r2 = *reporter;
        proof {
            lemma_chain(r0, r1, r2, g1@, tc_args_against(types, a.drop_last(), p.drop_last()).reports, g2@, at.reports);
            lemma_same_type_refl(params@[n - 1]);
            lemma_same_type_congruent(t, at.ty, params@[n - 1], params@[n - 1]);
        }
        if !t.eq(&params[n - 1]) {
            let report = DiagnosticReport {
                message: DiagnosticMessage::Analyzer(AnalyzerDiagnostic::MismatchedTypes(params[n - 1].duplicate(), t)),
                span: arg.span,
                cursor: arg.cursor,
            };
            let ghost tr = TcReport::MismatchedTypes(params@[n - 1], at.ty, arg.span, arg.cursor);
            let g3 = file_report(reporter, report, Ghost(tr));
            proof {
                lemma_chain(
                    r0,
                    r2,
                    *reporter,
                    g1@ + g2@,
                    tc_args_against(types, a.drop_last(), p.drop_last()).reports + at.reports,
                    g3@,
                    seq![tr],
                );
            }
            Ghost(g1@ + g2@ + g3@)
        } else {
            proof {
                let x = tc_args_against(types, a.drop_last(), p.drop_last()).reports + at.reports;
                assert(x + Seq::<TcReport>::empty() =~= x);
            }
            Ghost(g1@ + g2@)
        }
    }
}

/// Checks a branch of an `if` (see `tc_branch`); gives its body's type.
#[verifier::spinoff_prover]
fn check_branch(table: &SymbolsTable, reporter: &mut Reporter, branch: &HirConditionalBranch) -> (r: (TypeKind, Ghost<Seq<DiagnosticReport>>))
    requires
        !tc_branch(value_types(*table), *branch).stuck,
    ensures
        same_type(r.0, tc_branch(value_types(*table), *branch).ty),
        appended(*old(reporter), *final(reporter), r.1@),
        describes_all(r.1@, tc_branch(value_types(*table), *branch).reports),
    decreases *branch, 0nat, 0nat,
{
    let ghost types = value_types(*table);
    let ghost r0 = *reporter;
    let ghost c = tc_expr(types, branch.condition);
    let (cond_ty, g1) = check_expr(table, reporter, &branch.condition);
    let ghost r1 = *reporter;
    proof {
        lemma_same_type_refl(TypeKind::Bool);
        lemma_same_type_congruent(cond_ty, c.ty, TypeKind::Bool, TypeKind::Bool);
    }
    let ghost ct = if !same_type(c.ty, TypeKind::Bool) {
        seq![TcReport::ExpectedTypeFoundType(TypeKind::Bool, c.ty, branch.condition.span, branch.condition.cursor)]
    } else {
        Seq::empty()
    };
    let g2 = if !cond_ty.eq(&TypeKind::Bool) {
        let report = DiagnosticReport {
            message: DiagnosticMessage::Analyzer(AnalyzerDiagnostic::ExpectedTypeFoundType(TypeKind::Bool, cond_ty)),
            span: branch.condition.span,
            cursor: branch.condition.cursor,
        };
        file_report(
            reporter,
            report,
            Ghost(TcReport::ExpectedTypeFoundType(TypeKind::Bool, c.ty, branch.condition.span, branch.condition.cursor)),
        )
    } else {
        proof {
            lemma_none(*reporter);
        }
        Ghost(Seq::empty())
    };
    let ghost r2 = *reporter;
    proof {
        lemma_chain(r0, r1, r2, g1@, c.reports, g2@, ct);
    }
    let (body_ty, g3) = check_expr(table, reporter, &branch.body);
    proof {
        lemma_chain(r0, r2, *reporter, g1@ + g2@, c.reports + ct, g3@, tc_expr(types, branch.body).reports);
    }
    (body_ty, Ghost(g1@ + g2@ + g3@))
}

/// Checks the first `n` `else if` branches of the `if` expression `expr`, each against the
/// type `ret` (a copy of `spec_ret`).
#[verifier::spinoff_prover]
fn check_branches_upto(
    table: &SymbolsTable,
    reporter: &mut Reporter,
    expr: &HirExpression,
    bs: &Vec<HirConditionalBranch>,
    ret: &TypeKind,
    Ghost(spec_ret): Ghost<TypeKind>,
    n: usize,
) -> (g: Ghost<Seq<DiagnosticReport>>)
    requires
        expr.kind is If,
        if_branches(*expr) == bs@,
        same_type(*ret, spec_ret),
        n <= bs@.len(),
        !tc_branches(value_types(*table), spec_ret, bs@.take(n as int)).stuck,
    ensures
        appended(*old(reporter), *final(reporter), g@),
        describes_all(g@, tc_branches(value_types(*table), spec_ret, bs@.take(n as int)).reports),
    decreases *expr, 0nat, n,
{
    let ghost types = value_types(*table);
    if n == 0 {
        proof {
            lemma_none(*reporter);
        }
        Ghost(Seq::empty())
    } else {
        let ghost r0 = *reporter;
        let ghost s = bs@.take(n as int);
        proof {
            assert(s.drop_last() =~= bs@.take(n - 1));
            assert(s.last() == bs@[n - 1]);
        }
        let g1 = check_branches_upto(table, reporter, expr, bs, ret, Ghost(spec_ret), n - 1);
        let ghost r1 = *reporter;
        let b = &bs[n - 1];
        let ghost bt = tc_branch(types, *b);
        proof {
            lemma_branch_decreases(*expr, n - 1);
        }
        let (t, g2) = check_branch(table, reporter, b);
        let ghost r2 = *reporter;
        let ghost prev = tc_branches(types, spec_ret, s.drop_last()).reports;
        proof {
            lemma_chain(r0, r1, r2, g1@, prev, g2@, bt.reports);
            lemma_same_type_congruent(t, bt.ty, *ret, spec_ret);
        }
        if !t.eq(ret) {
            let rd = ret.duplicate();
            proof {
                lemma_same_type_trans(rd, *ret, spec_ret);
            }
            let report = DiagnosticReport {
                message: DiagnosticMessage::Analyzer(AnalyzerDiagnostic::ExpectedTypeFoundType(rd, t)),
                span: b.body.span,
                cursor: b.body.cursor,
            };
            let ghost tr = TcReport::ExpectedTypeFoundType(spec_ret, bt.ty, b.body.span, b.body.cursor);
            let g3 = file_report(reporter, report, Ghost(tr));
            proof {
                lemma_chain(r0, r2, *reporter, g1@ + g2@, prev + bt.reports, g3@, seq![tr]);
            }
            Ghost(g1@ + g2@ + g3@)
        } else {
            proof {
                assert(prev + bt.reports + Seq::<TcReport>::empty() =~= prev + bt.reports);
            }
            Ghost(g1@ + g2@)
        }
    }
}

/// Checks the first `n` statements of `ss` in order (see `tc_stmts`).
#[verifier::spinoff_prover]
fn check_stmts_upto(table: &SymbolsTable, reporter: &mut Reporter, ss: &Vec<HirStatement>, n: usize) -> (g: Ghost<Seq<DiagnosticReport>>)
    requires
        n <= ss@.len(),
        !tc_stmts(value_types(*table), ss@.take(n as int)).stuck,
    ensures
        appended(*old(reporter), *final(reporter), g@),
        describes_all(g@, tc_stmts(value_types(*table), ss@.take(n as int)).reports),
    decreases ss@, 0nat, n,
{
    let ghost types = value_types(*table);
    if n == 0 {
        proof {
            lemma_none(*reporter);
        }
        Ghost(Seq::empty())
    } else {
        let ghost r0 = *reporter;
        let ghost s = ss@.take(n as int);
        proof {
            assert(s.drop_last() =~= ss@.take(n - 1));
            assert(s.last() == ss@[n - 1]);
        }
        let g1 = check_stmts_upto(table, reporter, ss, n - 1);
        let ghost r1 = *reporter;
        proof {
            assert(decreases_to!(ss@ => ss@[n - 1]));
        }
        let (_t, g2) = check_stmt(table, reporter, &ss[n - 1]);
        proof {
            lemma_chain(r0, r1, *reporter, g1@, tc_stmts(types, s.drop_last()).reports, g2@, tc_stmt(types, ss@[n - 1]).reports);
        }
        Ghost(g1@ + g2@)
    }
}

/// Checks a statement (see `tc_stmt`); gives the type found.
#[verifier::spinoff_prover]
fn check_stmt(table: &SymbolsTable, reporter: &mut Reporter, statement: &HirStatement) -> (r: (TypeKind, Ghost<Seq<DiagnosticReport>>))
    requires
        !tc_stmt(value_types(*table), *statement).stuck,
    ensures
        same_type(r.0, tc_stmt(value_types(*table), *statement).ty),
        appended(*old(reporter), *final(reporter), r.1@),
        describes_all(r.1@, tc_stmt(value_types(*table), *statement).reports),
    decreases *statement, 0nat, 0nat,
{
    proof {
        lemma_none(*reporter);
        lemma_same_type_refl(TypeKind::Unknown);
        lemma_same_type_refl(TypeKind::Unit);
    }
    match &statement.kind {
        HirStatementKind::Expression { inner } => check_expr(table, reporter, inner),
        HirStatementKind::VarDecl(decl) => match &decl.value {
            Some(value) => check_expr(table, reporter, &**value),
            None => (TypeKind::Unknown, Ghost(Seq::empty())),
        },
        HirStatementKind::FuncDecl(decl) => match &decl.body {
            Some(body) => check_expr(table, reporter, &**body),
            None => (TypeKind::Unit, Ghost(Seq::empty())),
        },
        HirStatementKind::Return { value } => match value {
            Some(value) => check_expr(table, reporter, &**value),
            None => (TypeKind::Unit, Ghost(Seq::empty())),
        },
        _ => (TypeKind::Unit, Ghost(Seq::empty())),
    }
}

} // verus!
