use vstd::prelude::*;

use crate::ast::expressions::{Expression, ExpressionKind};
use crate::ast::Ast;
use crate::diagnostic::store::count_kind;
use crate::diagnostic::DiagnosticKind;
use crate::semantics::ctx::AnalyzerContext;
use crate::semantics::hir::Hir;
use crate::semantics::source::ParsedCodeKind;
use crate::ast::statements::{Parameter, Statement, StatementKind};
use crate::ast::symbol::AstSymbol;
use crate::ast::types::{lemma_same_type_refl, same_type, Type, TypeKind};
use crate::diagnostic::reporter::{appended, lemma_appended_empty, lemma_appended_trans, Reporter};
use crate::diagnostic::{DiagnosticMessage, DiagnosticReport};
use crate::semantics::diagnostics::AnalyzerDiagnostic;
use crate::semantics::stages::ast_lowering::unresolved_report;
use crate::semantics::symbol::{SymbolTable, SymbolsTable, TableView, ValueSymbol};

verus! {

/// The value table as name resolution sees it: the names and scopes, the type each value
/// was declared with, the number of open scopes, and whether resolution can go no further
/// (a class declaration, which it does not handle, or a table that cannot grow).
pub struct NsState {
    pub view: TableView,
    pub types: Seq<TypeKind>,
    pub depth: nat,
    pub stuck: bool,
}

/// A state after resolving something, and the diagnostics reported on the way.
pub struct NsResult {
    pub state: NsState,
    pub reports: Seq<DiagnosticReport>,
}

pub open spec fn stay(st: NsState) -> NsResult {
    NsResult { state: st, reports: Seq::empty() }
}

/// `a`, then `b` (which starts from the state `a` ends in).
pub open spec fn seq2(a: NsResult, b: NsResult) -> NsResult {
    NsResult { state: b.state, reports: a.reports + b.reports }
}

pub open spec fn stuck_state(st: NsState) -> NsState {
    NsState { view: st.view, types: st.types, depth: st.depth, stuck: true }
}

pub open spec fn ns_enter(st: NsState) -> NsState {
    if st.stuck {
        st
    } else if st.depth >= u16::MAX {
        stuck_state(st)
    } else {
        NsState { view: st.view.enter(), types: st.types, depth: st.depth + 1, stuck: false }
    }
}

pub open spec fn ns_leave(st: NsState) -> NsState {
    if st.stuck {
        st
    } else {
        NsState { view: st.view.leave(), types: st.types, depth: (st.depth - 1) as nat, stuck: false }
    }
}

pub open spec fn ns_declare(st: NsState, name: Seq<char>, ty: TypeKind) -> NsState {
    if st.stuck {
        st
    } else if st.view.names.len() >= usize::MAX {
        stuck_state(st)
    } else {
        NsState { view: st.view.declare(name), types: st.types.push(ty), depth: st.depth, stuck: false }
    }
}

/// The type a declaration was annotated with, or unknown.
pub open spec fn annotated(ty: Option<Type>) -> TypeKind {
    match ty {
        Some(t) => t.kind,
        None => TypeKind::Unknown,
    }
}

/// Resolving an expression: the operands of unary and binary operators, the callee and then
/// the arguments of a call, and the statements of a scope (inside a scope of the table) are
/// resolved; a variable is resolved by looking its name up, and reported when it reaches
/// nothing. Other expressions are left as they are.
pub open spec fn ns_expr(st: NsState, e: Expression) -> NsResult
    decreases e, 1nat,
{
    if st.stuck {
        stay(st)
    } else {
        match e.kind {
            ExpressionKind::Binary { left, right, .. } => {
                let a = ns_expr(st, *left);
                seq2(a, ns_expr(a.state, *right))
            },
            ExpressionKind::Unary { value, .. } => ns_expr(st, *value),
            ExpressionKind::Invoke { callee, arguments } => {
                let a = ns_expr(st, *callee);
                seq2(a, ns_exprs(a.state, arguments@))
            },
            ExpressionKind::Variable { symbol } => if st.view.lookup(symbol.name@) is Some {
                stay(st)
            } else {
                NsResult { state: st, reports: seq![unresolved_report(symbol)] }
            },
            ExpressionKind::Scope { statements, .. } => {
                let inner = ns_stmts(ns_enter(st), statements@);
                NsResult { state: ns_leave(inner.state), reports: inner.reports }
            },
            _ => stay(st),
        }
    }
}

pub open spec fn ns_exprs(st: NsState, es: Seq<Expression>) -> NsResult
    decreases es, 0nat,
{
    if st.stuck {
        stay(st)
    } else if es.len() == 0 {
        stay(st)
    } else {
        let a = ns_exprs(st, es.drop_last());
        seq2(a, ns_expr(a.state, es.last()))
    }
}

pub open spec fn ns_opt_expr(st: NsState, e: Option<Box<Expression>>) -> NsResult
    decreases e, 2nat,
{
    match e {
        Some(x) => ns_expr(st, *x),
        None => stay(st),
    }
}

/// The parameters of a function are declared in order, each with its annotated type.
pub open spec fn ns_params(st: NsState, ps: Seq<Parameter>) -> NsState
    decreases ps.len(),
{
    if ps.len() == 0 {
        st
    } else {
        ns_declare(ns_params(st, ps.drop_last()), ps.last().symbol.name@, ps.last().ty.kind)
    }
}

/// Resolving a statement: a variable's value is resolved before the variable is declared; a
/// function's parameters are declared in a scope of their own, in which its body is
/// resolved, and the function is declared after that scope is left. Class declarations are
/// not handled.
pub open spec fn ns_stmt(st: NsState, s: Statement) -> NsResult
    decreases s, 1nat,
{
    if st.stuck {
        stay(st)
    } else {
        match s.kind {
            StatementKind::VarDecl(d) => {
                let a = ns_opt_expr(st, d.value);
                NsResult { state: ns_declare(a.state, d.symbol.name@, annotated(d.ty)), reports: a.reports }
            },
            StatementKind::FuncDecl(d) => {
                let inner = ns_params(ns_enter(st), d.parameters@);
                let b = ns_opt_expr(inner, d.body);
                NsResult {
                    state: ns_declare(ns_leave(b.state), d.symbol.name@, annotated(d.return_type)),
                    reports: b.reports,
                }
            },
            StatementKind::ClassDecl(_) => stay(stuck_state(st)),
            StatementKind::Expression { inner } => ns_expr(st, inner),
            _ => stay(st),
        }
    }
}

pub open spec fn ns_stmts(st: NsState, ss: Seq<Statement>) -> NsResult
    decreases ss, 0nat,
{
    if st.stuck {
        stay(st)
    } else if ss.len() == 0 {
        stay(st)
    } else {
        let a = ns_stmts(st, ss.drop_last());
        seq2(a, ns_stmt(a.state, ss.last()))
    }
}

/// `symbol` with its index set to `id`.
pub open spec fn with_id(symbol: AstSymbol, id: usize) -> AstSymbol {
    AstSymbol { name: symbol.name, id: Some(id), span: symbol.span, cursor: symbol.cursor }
}

/// `e2` is `e` with its names resolved from the state `st`: each variable that reaches a
/// symbol gets that symbol's index, and nothing else changes.
pub open spec fn resolved_expr(st: NsState, e: Expression, e2: Expression) -> bool
    decreases e, 1nat,
{
    &&& e2.span == e.span
    &&& e2.cursor == e.cursor
    &&& match e.kind {
        ExpressionKind::Binary { left, operator, right } => e2.kind matches ExpressionKind::Binary {
            left: l2,
            operator: o2,
            right: r2,
        } && o2 == operator && resolved_expr(st, *left, *l2) && resolved_expr(
            ns_expr(st, *left).state,
            *right,
            *r2,
        ),
        ExpressionKind::Unary { operator, value } => e2.kind matches ExpressionKind::Unary {
            operator: o2,
            value: v2,
        } && o2 == operator && resolved_expr(st, *value, *v2),
        ExpressionKind::Invoke { callee, arguments } => e2.kind matches ExpressionKind::Invoke {
            callee: c2,
            arguments: a2,
        } && resolved_expr(st, *callee, *c2) && a2@.len() == arguments@.len() && forall|i: int|
            0 <= i < arguments@.len() ==> resolved_expr(
                ns_exprs(ns_expr(st, *callee).state, arguments@.take(i)).state,
                #[trigger] arguments@[i],
                a2@[i],
            ),
        ExpressionKind::Variable { symbol } => e2.kind matches ExpressionKind::Variable { symbol: s2 } && s2 == match st.view.lookup(
            symbol.name@,
        ) {
            Some(id) => with_id(symbol, id),
            None => symbol,
        },
        ExpressionKind::Scope { statements, block_value } => e2.kind matches ExpressionKind::Scope {
            statements: ss2,
            block_value: b2,
        } && b2 == block_value && ss2@.len() == statements@.len() && forall|i: int|
            0 <= i < statements@.len() ==> resolved_stmt(
                ns_stmts(ns_enter(st), statements@.take(i)).state,
                #[trigger] statements@[i],
                ss2@[i],
            ),
        _ => e2 == e,
    }
}

pub open spec fn resolved_opt_expr(st: NsState, e: Option<Box<Expression>>, e2: Option<Box<Expression>>) -> bool
    decreases e, 2nat,
{
    match e {
        Some(x) => e2 matches Some(y) && resolved_expr(st, *x, *y),
        None => e2 is None,
    }
}

/// The parameter `p` with its symbol's index set to `id`.
pub open spec fn param_with_id(p: Parameter, id: usize) -> Parameter {
    Parameter { symbol: with_id(p.symbol, id), mutable: p.mutable, ty: p.ty, span: p.span, cursor: p.cursor }
}

/// The parameters of a function with their symbols set: each gets the index it was
/// declared at.
pub open spec fn resolved_params(st: NsState, ps: Seq<Parameter>, ps2: Seq<Parameter>) -> bool {
    &&& ps2.len() == ps.len()
    &&& forall|i: int|
        0 <= i < ps.len() ==> #[trigger] ps2[i] == param_with_id(
            ps[i],
            ns_params(st, ps.take(i)).view.names.len() as usize,
        )
}

/// `s2` is `s` with its names resolved and its declarations given their symbols' indices.
pub open spec fn resolved_stmt(st: NsState, s: Statement, s2: Statement) -> bool
    decreases s, 1nat,
{
    &&& s2.span == s.span
    &&& s2.cursor == s.cursor
    &&& match s.kind {
        StatementKind::VarDecl(d) => s2.kind matches StatementKind::VarDecl(d2) && d2.visibility == d.visibility
            && d2.mutable == d.mutable && d2.ty == d.ty && resolved_opt_expr(st, d.value, d2.value) && d2.symbol
            == with_id(d.symbol, ns_opt_expr(st, d.value).state.view.names.len() as usize),
        StatementKind::FuncDecl(d) => s2.kind matches StatementKind::FuncDecl(d2) && d2.visibility == d.visibility
            && d2.return_type == d.return_type && resolved_params(ns_enter(st), d.parameters@, d2.parameters@)
            && resolved_opt_expr(ns_params(ns_enter(st), d.parameters@), d.body, d2.body) && d2.symbol == with_id(
            d.symbol,
            ns_leave(ns_opt_expr(ns_params(ns_enter(st), d.parameters@), d.body).state).view.names.len() as usize,
        ),
        StatementKind::Expression { inner } => s2.kind matches StatementKind::Expression { inner: i2 }
            && resolved_expr(st, inner, i2),
        _ => s2 == s,
    }
}

/// Every variable that `e` holds as an operand, at any depth under unary and binary
/// operators, as a callee or as an argument of a call, carries a symbol index.
pub open spec fn operand_vars_bound(e: Expression) -> bool
    decreases e,
{
    match e.kind {
        ExpressionKind::Variable { symbol } => symbol.id is Some,
        ExpressionKind::Unary { value, .. } => operand_vars_bound(*value),
        ExpressionKind::Binary { left, right, .. } => operand_vars_bound(*left) && operand_vars_bound(*right),
        ExpressionKind::Invoke { callee, arguments } => operand_vars_bound(*callee) && forall|i: int|
            0 <= i < arguments@.len() ==> operand_vars_bound(#[trigger] arguments@[i]),
        _ => true,
    }
}

/// Resolving a list that reports nothing and goes through reports nothing, and goes
/// through, on each of its expressions.
proof fn lemma_exprs_clean(st: NsState, es: Seq<Expression>)
    requires
        ns_exprs(st, es).reports.len() == 0,
        !ns_exprs(st, es).state.stuck,
    ensures
        forall|i: int|
            0 <= i < es.len() ==> (#[trigger] ns_expr(ns_exprs(st, es.take(i)).state, es[i])).reports.len() == 0
                && !ns_expr(ns_exprs(st, es.take(i)).state, es[i]).state.stuck,
    decreases es.len(),
{
    if es.len() > 0 {
        let init = es.drop_last();
        let a = ns_exprs(st, init);
        assert(!st.stuck);
        if a.state.stuck {
            assert(ns_expr(a.state, es.last()) == stay(a.state));
        }
        lemma_exprs_clean(st, init);
        assert forall|i: int| 0 <= i < es.len() implies (#[trigger] ns_expr(ns_exprs(st, es.take(i)).state, es[i])).reports.len()
            == 0 && !ns_expr(ns_exprs(st, es.take(i)).state, es[i]).state.stuck by {
            if i < es.len() - 1 {
                assert(es.take(i) =~= init.take(i));
                assert(es[i] == init[i]);
            } else {
                assert(es.take(i) =~= init);
                assert(es[i] == es.last());
            }
        }
    }
}

/// Once names are resolved without a report and without resolution stopping, every
/// variable held as an operand of the result, however deep under operators and calls,
/// carries the index of a symbol: a name that reaches no symbol is always reported.
pub proof fn lemma_resolved_operands_bound(st: NsState, e: Expression, e2: Expression)
    requires
        resolved_expr(st, e, e2),
        ns_expr(st, e).reports.len() == 0,
        !ns_expr(st, e).state.stuck,
    ensures
        operand_vars_bound(e2),
    decreases e,
{
    if st.stuck {
        assert(ns_expr(st, e) == stay(st));
    } else {
        match e.kind {
            ExpressionKind::Variable { symbol } => {
                if st.view.lookup(symbol.name@) is None {
                    assert(ns_expr(st, e).reports.len() == 1);
                }
            },
            ExpressionKind::Unary { value, .. } => {
                match e2.kind {
                    ExpressionKind::Unary { value: v2, .. } => {
                        lemma_resolved_operands_bound(st, *value, *v2);
                    },
                    _ => {},
                }
            },
            ExpressionKind::Binary { left, right, .. } => {
                let a = ns_expr(st, *left);
                if a.state.stuck {
                    assert(ns_expr(a.state, *right) == stay(a.state));
                }
                match e2.kind {
                    ExpressionKind::Binary { left: l2, right: r2, .. } => {
                        lemma_resolved_operands_bound(st, *left, *l2);
                        lemma_resolved_operands_bound(a.state, *right, *r2);
                    },
                    _ => {},
                }
            },
            ExpressionKind::Invoke { callee, arguments } => {
                let a = ns_expr(st, *callee);
                if a.state.stuck {
                    assert(ns_exprs(a.state, arguments@) == stay(a.state));
                }
                lemma_exprs_clean(a.state, arguments@);
                match e2.kind {
                    ExpressionKind::Invoke { callee: c2, arguments: a2 } => {
                        lemma_resolved_operands_bound(st, *callee, *c2);
                        assert forall|i: int| 0 <= i < a2@.len() implies operand_vars_bound(#[trigger] a2@[i]) by {
                            let si = ns_exprs(a.state, arguments@.take(i)).state;
                            assert(ns_expr(si, arguments@[i]).reports.len() == 0);
                            assert(resolved_expr(si, arguments@[i], a2@[i]));
                            lemma_resolved_operands_bound(si, arguments@[i], a2@[i]);
                        }
                    },
                    _ => {},
                }
            },
            _ => {},
        }
    }
}

/// `e` holds no scope among its operands, at any depth under operators and calls.
pub open spec fn operand_scope_free(e: Expression) -> bool
    decreases e,
{
    match e.kind {
        ExpressionKind::Scope { .. } => false,
        ExpressionKind::Unary { value, .. } => operand_scope_free(*value),
        ExpressionKind::Binary { left, right, .. } => operand_scope_free(*left) && operand_scope_free(*right),
        ExpressionKind::Invoke { callee, arguments } => operand_scope_free(*callee) && forall|i: int|
            0 <= i < arguments@.len() ==> operand_scope_free(#[trigger] arguments@[i]),
        _ => true,
    }
}

/// Every variable that `e` holds as an operand carries the symbol its name reaches in the
/// table `v`.
pub open spec fn operand_vars_reach(v: TableView, e: Expression) -> bool
    decreases e,
{
    match e.kind {
        ExpressionKind::Variable { symbol } => symbol.id is Some && symbol.id == v.lookup(symbol.name@),
        ExpressionKind::Unary { value, .. } => operand_vars_reach(v, *value),
        ExpressionKind::Binary { left, right, .. } => operand_vars_reach(v, *left) && operand_vars_reach(v, *right),
        ExpressionKind::Invoke { callee, arguments } => operand_vars_reach(v, *callee) && forall|i: int|
            0 <= i < arguments@.len() ==> operand_vars_reach(v, #[trigger] arguments@[i]),
        _ => true,
    }
}

/// Resolving operands without scopes declares nothing: the table is as it was.
proof fn lemma_scope_free_stays(st: NsState, e: Expression)
    requires
        operand_scope_free(e),
    ensures
        ns_expr(st, e).state == st,
    decreases e, 1nat,
{
    if !st.stuck {
        match e.kind {
            ExpressionKind::Unary { value, .. } => lemma_scope_free_stays(st, *value),
            ExpressionKind::Binary { left, right, .. } => {
                lemma_scope_free_stays(st, *left);
                lemma_scope_free_stays(st, *right);
            },
            ExpressionKind::Invoke { callee, arguments } => {
                lemma_scope_free_stays(st, *callee);
                lemma_scope_free_list_stays(st, arguments@);
            },
            _ => {},
        }
    }
}

proof fn lemma_scope_free_list_stays(st: NsState, es: Seq<Expression>)
    requires
        forall|i: int| 0 <= i < es.len() ==> operand_scope_free(#[trigger] es[i]),
    ensures
        ns_exprs(st, es).state == st,
    decreases es, 0nat,
{
    if !st.stuck && es.len() > 0 {
        let init = es.drop_last();
        assert forall|i: int| 0 <= i < init.len() implies operand_scope_free(#[trigger] init[i]) by {
            assert(init[i] == es[i]);
        }
        lemma_scope_free_list_stays(st, init);
        assert(es.last() == es[es.len() - 1]);
        lemma_scope_free_stays(st, es.last());
    }
}

/// Resolving operands that hold no scope, without a report, gives every variable among
/// them the very symbol its name reaches in the table: the latest visible declaration of
/// that name.
pub proof fn lemma_resolved_operands_reach(st: NsState, e: Expression, e2: Expression)
    requires
        !st.stuck,
        operand_scope_free(e),
        resolved_expr(st, e, e2),
        ns_expr(st, e).reports.len() == 0,
    ensures
        operand_vars_reach(st.view, e2),
    decreases e,
{
    match e.kind {
        ExpressionKind::Variable { symbol } => {
            if st.view.lookup(symbol.name@) is None {
                assert(ns_expr(st, e).reports.len() == 1);
            }
        },
        ExpressionKind::Unary { value, .. } => {
            match e2.kind {
                ExpressionKind::Unary { value: v2, .. } => {
                    lemma_resolved_operands_reach(st, *value, *v2);
                },
                _ => {},
            }
        },
        ExpressionKind::Binary { left, right, .. } => {
            lemma_scope_free_stays(st, *left);
            match e2.kind {
                ExpressionKind::Binary { left: l2, right: r2, .. } => {
                    lemma_resolved_operands_reach(st, *left, *l2);
                    lemma_resolved_operands_reach(st, *right, *r2);
                },
                _ => {},
            }
        },
        ExpressionKind::Invoke { callee, arguments } => {
            lemma_scope_free_stays(st, *callee);
            lemma_scope_free_list_stays(st, arguments@);
            lemma_exprs_clean(st, arguments@);
            match e2.kind {
                ExpressionKind::Invoke { callee: c2, arguments: a2 } => {
                    lemma_resolved_operands_reach(st, *callee, *c2);
                    assert forall|i: int| 0 <= i < a2@.len() implies operand_vars_reach(st.view, #[trigger] a2@[i]) by {
                        let pre = arguments@.take(i);
                        assert forall|j: int| 0 <= j < pre.len() implies operand_scope_free(#[trigger] pre[j]) by {
                            assert(pre[j] == arguments@[j]);
                        }
                        lemma_scope_free_list_stays(st, pre);
                        assert(ns_expr(ns_exprs(st, pre).state, arguments@[i]).reports.len() == 0);
                        assert(resolved_expr(st, arguments@[i], a2@[i]));
                        lemma_resolved_operands_reach(st, arguments@[i], a2@[i]);
                    }
                },
                _ => {},
            }
        },
        _ => {},
    }
}

/// `st` describes the value table of `t`, whose other tables are as in `other`.
pub open spec fn ns_agrees(st: NsState, t: SymbolsTable) -> bool {
    &&& t.wf()
    &&& !st.stuck
    &&& st.view == t.value_table.view()
    &&& st.depth == t.depth
    &&& st.types.len() == t.value_table.spec_symbols().len()
    &&& forall|i: int| 0 <= i < st.types.len() ==> same_type(#[trigger] t.value_table.spec_symbols()[i].ty, st.types[i])
}

/// The type and label tables of `a` and `b` are the same.
pub open spec fn others_kept(a: SymbolsTable, b: SymbolsTable) -> bool {
    &&& a.type_table.view() == b.type_table.view()
    &&& a.type_table.spec_symbols() == b.type_table.spec_symbols()
    &&& a.control_flow_table.view() == b.control_flow_table.view()
    &&& a.control_flow_table.spec_symbols() == b.control_flow_table.spec_symbols()
}

/// Nothing moves a stuck resolution.
pub broadcast proof fn lemma_stuck_expr(st: NsState, e: Expression)
    requires
        st.stuck,
    ensures
        #[trigger] ns_expr(st, e) == stay(st),
{
}

pub broadcast proof fn lemma_stuck_exprs(st: NsState, es: Seq<Expression>)
    requires
        st.stuck,
    ensures
        #[trigger] ns_exprs(st, es) == stay(st),
{
}

pub broadcast proof fn lemma_stuck_stmt(st: NsState, s: Statement)
    requires
        st.stuck,
    ensures
        #[trigger] ns_stmt(st, s) == stay(st),
{
}

pub broadcast proof fn lemma_stuck_stmts(st: NsState, ss: Seq<Statement>)
    requires
        st.stuck,
    ensures
        #[trigger] ns_stmts(st, ss) == stay(st),
{
}

pub broadcast proof fn lemma_stuck_opt_expr(st: NsState, e: Option<Box<Expression>>)
    requires
        st.stuck,
    ensures
        #[trigger] ns_opt_expr(st, e) == stay(st),
{
}

pub broadcast proof fn lemma_stuck_params(st: NsState, ps: Seq<Parameter>)
    requires
        st.stuck,
    ensures
        #[trigger] ns_params(st, ps) == st,
    decreases ps.len(),
{
    if ps.len() > 0 {
        lemma_stuck_params(st, ps.drop_last());
    }
}

pub broadcast group group_stuck {
    lemma_stuck_expr,
    lemma_stuck_exprs,
    lemma_stuck_stmt,
    lemma_stuck_stmts,
    lemma_stuck_opt_expr,
    lemma_stuck_params,
}

/// Entering and then leaving a scope gives back the view.
pub proof fn lemma_enter_leave(v: TableView)
    ensures
        v.enter().leave() == v,
{
    assert(v.enter().leave().visible =~= v.visible);
    assert(v.enter().leave().scopes =~= v.scopes);
}

/// Once a prefix of the expressions gets stuck, so does the whole.
proof fn lemma_exprs_stuck_prefix(st: NsState, s: Seq<Expression>, k: int)
    requires
        0 <= k <= s.len(),
    ensures
        ns_exprs(st, s.take(k)).state.stuck ==> ns_exprs(st, s).state.stuck,
    decreases s.len() - k,
{
    broadcast use group_stuck;

    if k < s.len() {
        lemma_exprs_stuck_prefix(st, s, k + 1);
        assert(s.take(k + 1).drop_last() =~= s.take(k));
        let a = ns_exprs(st, s.take(k));
        if a.state.stuck && !st.stuck {
            assert(ns_expr(a.state, s.take(k + 1).last()) == stay(a.state));
        }
    } else {
        assert(s.take(k) =~= s);
    }
}

/// Once a prefix of the statements gets stuck, so does the whole.
proof fn lemma_stmts_stuck_prefix(st: NsState, s: Seq<Statement>, k: int)
    requires
        0 <= k <= s.len(),
    ensures
        ns_stmts(st, s.take(k)).state.stuck ==> ns_stmts(st, s).state.stuck,
    decreases s.len() - k,
{
    broadcast use group_stuck;

    if k < s.len() {
        lemma_stmts_stuck_prefix(st, s, k + 1);
        assert(s.take(k + 1).drop_last() =~= s.take(k));
        let a = ns_stmts(st, s.take(k));
        if a.state.stuck && !st.stuck {
            assert(ns_stmt(a.state, s.take(k + 1).last()) == stay(a.state));
        }
    } else {
        assert(s.take(k) =~= s);
    }
}

/// Declaring parameters only gets stuck for good.
proof fn lemma_params_stuck_prefix(st: NsState, s: Seq<Parameter>, k: int)
    requires
        0 <= k <= s.len(),
    ensures
        ns_params(st, s.take(k)).stuck ==> ns_params(st, s).stuck,
    decreases s.len() - k,
{
    broadcast use group_stuck;

    if k < s.len() {
        lemma_params_stuck_prefix(st, s, k + 1);
        assert(s.take(k + 1).drop_last() =~= s.take(k));
    } else {
        assert(s.take(k) =~= s);
    }
}

/// Opens a scope in the tables, for the state `st`.
fn ns_enter_exec(table: &mut SymbolsTable, Ghost(st): Ghost<NsState>)
    requires
        ns_agrees(st, *old(table)),
        !ns_enter(st).stuck,
    ensures
        ns_agrees(ns_enter(st), *final(table)),
        final(table).depth == old(table).depth + 1,
        final(table).type_table.view() == old(table).type_table.view().enter(),
        final(table).control_flow_table.view() == old(table).control_flow_table.view().enter(),
        final(table).type_table.spec_symbols() == old(table).type_table.spec_symbols(),
        final(table).control_flow_table.spec_symbols() == old(table).control_flow_table.spec_symbols(),
{
    table.enter_scope();
}

/// Closes the innermost scope of the tables, for the state `st`.
fn ns_leave_exec(table: &mut SymbolsTable, Ghost(st): Ghost<NsState>)
    requires
        ns_agrees(st, *old(table)),
        old(table).depth > 0,
    ensures
        ns_agrees(ns_leave(st), *final(table)),
        final(table).depth == old(table).depth - 1,
        final(table).type_table.view() == old(table).type_table.view().leave(),
        final(table).control_flow_table.view() == old(table).control_flow_table.view().leave(),
        final(table).type_table.spec_symbols() == old(table).type_table.spec_symbols(),
        final(table).control_flow_table.spec_symbols() == old(table).control_flow_table.spec_symbols(),
{
    table.leave_scope();
}

/// Declares a value named `name` of type `ty`, for the state `st`.
fn ns_declare_exec(table: &mut SymbolsTable, name: String, ty: TypeKind, Ghost(st): Ghost<NsState>, Ghost(spec_ty): Ghost<TypeKind>) -> (r: usize)
    requires
        ns_agrees(st, *old(table)),
        !ns_declare(st, name@, spec_ty).stuck,
        same_type(ty, spec_ty),
    ensures
        ns_agrees(ns_declare(st, name@, spec_ty), *final(table)),
        r == st.view.names.len(),
        final(table).depth == old(table).depth,
        others_kept(*old(table), *final(table)),
{
    let ghost n = name@;
    proof {
        table.value_table.lemma_view_names();
    }
    let r = table.declare_value(name, ty);
    proof {
        let after = ns_declare(st, n, spec_ty);
        assert forall|i: int| 0 <= i < after.types.len() implies same_type(
            #[trigger] table.value_table.spec_symbols()[i].ty,
            after.types[i],
        ) by {
            if i < st.types.len() {
                assert(table.value_table.spec_symbols()[i] == table.value_table.spec_symbols().drop_last()[i]);
            }
        }
    }
    r
}

/// Resolves the names of an expression (see `ns_expr`), starting from the state `st` of the tables.
#[verifier::spinoff_prover]
#[verifier::rlimit(40)]
fn resolve_expr(table: &mut SymbolsTable, reporter: &mut Reporter, expr: Expression, Ghost(st): Ghost<NsState>) -> (r: Expression)
    requires
        ns_agrees(st, *old(table)),
        !ns_expr(st, expr).state.stuck,
    ensures
        ns_agrees(ns_expr(st, expr).state, *final(table)),
        final(table).depth == old(table).depth,
        others_kept(*old(table), *final(table)),
        appended(*old(reporter), *final(reporter), ns_expr(st, expr).reports),
        resolved_expr(st, expr, r),
    decreases expr,
{
    broadcast use group_stuck;

    let ghost e = expr;
    let ghost r0 = *reporter;
    let ghost t0 = *table;
    proof {
        lemma_appended_empty(r0);
    }
    let Expression { kind, span, cursor } = expr;
    match kind {
        ExpressionKind::Binary { left, operator, right } => {
            let ghost a = ns_expr(st, *left);
            assert(ns_expr(st, e) == seq2(a, ns_expr(a.state, *right)));
            assert(a.state.stuck ==> ns_expr(a.state, *right) == stay(a.state));
            let l2 = resolve_expr(table, reporter, *left, Ghost(st));
            let ghost r1 = *reporter;
            let r2 = resolve_expr(table, reporter, *right, Ghost(a.state));
            proof {
                lemma_appended_trans(r0, r1, *reporter, a.reports, ns_expr(a.state, *right).reports);
            }
            let result = Expression {
                kind: ExpressionKind::Binary { left: Box::new(l2), operator, right: Box::new(r2) },
                span,
                cursor,
            };
            assert(resolved_expr(st, *left, l2));
            assert(resolved_expr(a.state, *right, r2));
            assert(resolved_expr(st, expr, result));
            result
        },
        ExpressionKind::Unary { operator, value } => {
            let v2 = resolve_expr(table, reporter, *value, Ghost(st));
            Expression { kind: ExpressionKind::Unary { operator, value: Box::new(v2) }, span, cursor }
        },
        ExpressionKind::Invoke { callee, arguments } => {
            let ghost a = ns_expr(st, *callee);
            assert(ns_expr(st, e) == seq2(a, ns_exprs(a.state, arguments@)));
            assert(a.state.stuck ==> ns_exprs(a.state, arguments@) == stay(a.state));
            let c2 = resolve_expr(table, reporter, *callee, Ghost(st));
            let ghost r1 = *reporter;
            let a2 = resolve_exprs(table, reporter, arguments, Ghost(a.state));
            proof {
                lemma_appended_trans(r0, r1, *reporter, a.reports, ns_exprs(a.state, arguments@).reports);
            }
            Expression { kind: ExpressionKind::Invoke { callee: Box::new(c2), arguments: a2 }, span, cursor }
        },
        ExpressionKind::Variable { symbol } => {
            proof {
                table.value_table.lemma_lookup_bounded(symbol.name@);
                table.value_table.lemma_ids();
            }
            match table.value_table.lookup_name(symbol.name.as_str()) {
                Some(found) => {
                    let id = found.id;
                    Expression {
                        kind: ExpressionKind::Variable {
                            symbol: AstSymbol { name: symbol.name, id: Some(id), span: symbol.span, cursor: symbol.cursor },
                        },
                        span,
                        cursor,
                    }
                },
                None => {
                    let report = DiagnosticReport {
                        message: DiagnosticMessage::Analyzer(AnalyzerDiagnostic::UnresolvedSymbol(symbol.name.clone())),
                        span: symbol.span,
                        cursor: symbol.cursor,
                    };
                    reporter.report(report);
                    Expression { kind: ExpressionKind::Variable { symbol }, span, cursor }
                },
            }
        },
        ExpressionKind::Scope { statements, block_value } => {
            let ghost entered = ns_enter(st);
            assert(entered.stuck ==> ns_stmts(entered, statements@) == stay(entered));
            ns_enter_exec(table, Ghost(st));
            let s2 = resolve_stmts(table, reporter, statements, Ghost(entered));
            ns_leave_exec(table, Ghost(ns_stmts(entered, statements@).state));
            proof {
                lemma_enter_leave(t0.type_table.view());
                lemma_enter_leave(t0.control_flow_table.view());
            }
            Expression { kind: ExpressionKind::Scope { statements: s2, block_value }, span, cursor }
        },
        _ => {
            Expression { kind, span, cursor }
        },
    }
}

/// Resolves expressions in order, each from the state the previous one left.
#[verifier::spinoff_prover]
fn resolve_exprs(table: &mut SymbolsTable, reporter: &mut Reporter, es: Vec<Expression>, Ghost(st): Ghost<NsState>) -> (r: Vec<Expression>)
    requires
        ns_agrees(st, *old(table)),
        !ns_exprs(st, es@).state.stuck,
    ensures
        ns_agrees(ns_exprs(st, es@).state, *final(table)),
        final(table).depth == old(table).depth,
        others_kept(*old(table), *final(table)),
        appended(*old(reporter), *final(reporter), ns_exprs(st, es@).reports),
        r@.len() == es@.len(),
        forall|i: int| 0 <= i < es@.len() ==> resolved_expr(ns_exprs(st, es@.take(i)).state, #[trigger] es@[i], r@[i]),
    decreases es,
{
    broadcast use group_stuck;

    let ghost orig = es@;
    let ghost r0 = *reporter;
    let ghost t0 = *table;
    proof {
        lemma_appended_empty(r0);
    }
    let total = es.len();
    let mut rest = es;
    let mut out: Vec<Expression> = Vec::new();
    let mut i: usize = 0;
    assert(orig.take(0) =~= Seq::<Expression>::empty());
    while rest.len() > 0
        invariant
            i + rest@.len() == orig.len(),
            orig.len() == total,
            rest@ == orig.skip(i as int),
            out@.len() == i,
            es@ == orig,
            forall|j: int| 0 <= j < i ==> resolved_expr(ns_exprs(st, orig.take(j)).state, #[trigger] orig[j], out@[j]),
            ns_agrees(ns_exprs(st, orig.take(i as int)).state, *table),
            table.depth == t0.depth,
            others_kept(t0, *table),
            appended(r0, *reporter, ns_exprs(st, orig.take(i as int)).reports),
            !ns_exprs(st, orig).state.stuck,
            r0 == *old(reporter),
            t0 == *old(table),
        decreases rest.len(),
    {
        let x = rest.remove(0);
        assert(x == orig[i as int]);
        assert(orig.take(i + 1).drop_last() =~= orig.take(i as int));
        assert(orig.take(i + 1).last() == orig[i as int]);
        proof {
            lemma_exprs_stuck_prefix(st, orig, i + 1);
            assert(decreases_to!(es => es@[i as int]));
        }
        let ghost cur = ns_exprs(st, orig.take(i as int));
        let ghost r1 = *reporter;
        let y = resolve_expr(table, reporter, x, Ghost(cur.state));
        proof {
            lemma_appended_trans(r0, r1, *reporter, cur.reports, ns_expr(cur.state, orig[i as int]).reports);
        }
        out.push(y);
        i = i + 1;
    }
    assert(orig.take(i as int) =~= orig);
    out
}

/// Resolves statements in order, each from the state the previous one left.
#[verifier::spinoff_prover]
fn resolve_stmts(table: &mut SymbolsTable, reporter: &mut Reporter, ss: Vec<Statement>, Ghost(st): Ghost<NsState>) -> (r: Vec<Statement>)
    requires
        ns_agrees(st, *old(table)),
        !ns_stmts(st, ss@).state.stuck,
    ensures
        ns_agrees(ns_stmts(st, ss@).state, *final(table)),
        final(table).depth == old(table).depth,
        others_kept(*old(table), *final(table)),
        appended(*old(reporter), *final(reporter), ns_stmts(st, ss@).reports),
        r@.len() == ss@.len(),
        forall|i: int| 0 <= i < ss@.len() ==> resolved_stmt(ns_stmts(st, ss@.take(i)).state, #[trigger] ss@[i], r@[i]),
    decreases ss,
{
    broadcast use group_stuck;

    let ghost orig = ss@;
    let ghost r0 = *reporter;
    let ghost t0 = *table;
    proof {
        lemma_appended_empty(r0);
    }
    let total = ss.len();
    let mut rest = ss;
    let mut out: Vec<Statement> = Vec::new();
    let mut i: usize = 0;
    assert(orig.take(0) =~= Seq::<Statement>::empty());
    while rest.len() > 0
        invariant
            i + rest@.len() == orig.len(),
            orig.len() == total,
            rest@ == orig.skip(i as int),
            out@.len() == i,
            ss@ == orig,
            forall|j: int| 0 <= j < i ==> resolved_stmt(ns_stmts(st, orig.take(j)).state, #[trigger] orig[j], out@[j]),
            ns_agrees(ns_stmts(st, orig.take(i as int)).state, *table),
            table.depth == t0.depth,
            others_kept(t0, *table),
            appended(r0, *reporter, ns_stmts(st, orig.take(i as int)).reports),
            !ns_stmts(st, orig).state.stuck,
            r0 == *old(reporter),
            t0 == *old(table),
        decreases rest.len(),
    {
        let x = rest.remove(0);
        assert(x == orig[i as int]);
        assert(orig.take(i + 1).drop_last() =~= orig.take(i as int));
        assert(orig.take(i + 1).last() == orig[i as int]);
        proof {
            lemma_stmts_stuck_prefix(st, orig, i + 1);
            assert(decreases_to!(ss => ss@[i as int]));
        }
        let ghost cur = ns_stmts(st, orig.take(i as int));
        let ghost r1 = *reporter;
        let y = resolve_stmt(table, reporter, x, Ghost(cur.state));
        proof {
            lemma_appended_trans(r0, r1, *reporter, cur.reports, ns_stmt(cur.state, orig[i as int]).reports);
        }
        out.push(y);
        i = i + 1;
    }
    assert(orig.take(i as int) =~= orig);
    out
}

/// Declares the parameters of a function in order, each with (a copy of) its type, and sets
/// their symbols.
#[verifier::spinoff_prover]
fn resolve_params(table: &mut SymbolsTable, ps: Vec<Parameter>, Ghost(st): Ghost<NsState>) -> (r: Vec<Parameter>)
    requires
        ns_agrees(st, *old(table)),
        !ns_params(st, ps@).stuck,
    ensures
        ns_agrees(ns_params(st, ps@), *final(table)),
        final(table).depth == old(table).depth,
        others_kept(*old(table), *final(table)),
        resolved_params(st, ps@, r@),
{
    broadcast use group_stuck;

    let ghost orig = ps@;
    let ghost t0 = *table;
    let total = ps.len();
    let mut rest = ps;
    let mut out: Vec<Parameter> = Vec::new();
    let mut i: usize = 0;
    assert(orig.take(0) =~= Seq::<Parameter>::empty());
    while rest.len() > 0
        invariant
            i + rest@.len() == orig.len(),
            orig.len() == total,
            rest@ == orig.skip(i as int),
            out@.len() == i,
            forall|j: int|
                0 <= j < i ==> #[trigger] out@[j] == param_with_id(
                    orig[j],
                    ns_params(st, orig.take(j)).view.names.len() as usize,
                ),
            ns_agrees(ns_params(st, orig.take(i as int)), *table),
            table.depth == t0.depth,
            others_kept(t0, *table),
            !ns_params(st, orig).stuck,
            t0 == *old(table),
        decreases rest.len(),
    {
        let p = rest.remove(0);
        assert(p == orig[i as int]);
        assert(orig.take(i + 1).drop_last() =~= orig.take(i as int));
        assert(orig.take(i + 1).last() == orig[i as int]);
        proof {
            lemma_params_stuck_prefix(st, orig, i + 1);
        }
        let ghost cur = ns_params(st, orig.take(i as int));
        let ty = p.ty.kind.duplicate();
        let id = ns_declare_exec(table, p.symbol.name.clone(), ty, Ghost(cur), Ghost(p.ty.kind));
        let Parameter { symbol, mutable, ty: pty, span, cursor } = p;
        let symbol2 = AstSymbol { name: symbol.name, id: Some(id), span: symbol.span, cursor: symbol.cursor };
        out.push(Parameter { symbol: symbol2, mutable, ty: pty, span, cursor });
        i = i + 1;
    }
    assert(orig.take(i as int) =~= orig);
    out
}

/// A copy of the type a declaration was annotated with, or unknown.
fn annotated_copy(ty: &Option<Type>) -> (r: TypeKind)
    ensures
        same_type(r, annotated(*ty)),
{
    match ty {
        Some(t) => t.kind.duplicate(),
        None => {
            proof {
                lemma_same_type_refl(TypeKind::Unknown);
            }
            TypeKind::Unknown
        },
    }
}

/// Resolves the names of a statement (see `ns_stmt`) and gives its declaration its symbol.
#[verifier::spinoff_prover]
fn resolve_stmt(table: &mut SymbolsTable, reporter: &mut Reporter, stmt: Statement, Ghost(st): Ghost<NsState>) -> (r: Statement)
    requires
        ns_agrees(st, *old(table)),
        !ns_stmt(st, stmt).state.stuck,
    ensures
        ns_agrees(ns_stmt(st, stmt).state, *final(table)),
        final(table).depth == old(table).depth,
        others_kept(*old(table), *final(table)),
        appended(*old(reporter), *final(reporter), ns_stmt(st, stmt).reports),
        resolved_stmt(st, stmt, r),
    decreases stmt,
{
    broadcast use group_stuck;

    let ghost r0 = *reporter;
    let ghost t0 = *table;
    proof {
        lemma_appended_empty(r0);
    }
    let Statement { kind, span, cursor } = stmt;
    match kind {
        StatementKind::VarDecl(decl) => {
            let ghost a = ns_opt_expr(st, decl.value);
            let value = match decl.value {
                Some(v) => Some(Box::new(resolve_expr(table, reporter, *v, Ghost(st)))),
                None => None,
            };
            let ty = annotated_copy(&decl.ty);
            let id = ns_declare_exec(table, decl.symbol.name.clone(), ty, Ghost(a.state), Ghost(annotated(decl.ty)));
            let symbol = AstSymbol { name: decl.symbol.name, id: Some(id), span: decl.symbol.span, cursor: decl.symbol.cursor };
            Statement {
                kind: StatementKind::VarDecl(
                    crate::ast::statements::VarDecl {
                        visibility: decl.visibility,
                        symbol,
                        mutable: decl.mutable,
                        value,
                        ty: decl.ty,
                    },
                ),
                span,
                cursor,
            }
        },
        StatementKind::FuncDecl(decl) => {
            let ghost entered = ns_enter(st);
            let ghost inner = ns_params(entered, decl.parameters@);
            let ghost b = ns_opt_expr(inner, decl.body);
            ns_enter_exec(table, Ghost(st));
            let parameters = resolve_params(table, decl.parameters, Ghost(entered));
            let body = match decl.body {
                Some(v) => Some(Box::new(resolve_expr(table, reporter, *v, Ghost(inner)))),
                None => None,
            };
            ns_leave_exec(table, Ghost(b.state));
            proof {
                lemma_enter_leave(t0.type_table.view());
                lemma_enter_leave(t0.control_flow_table.view());
            }
            let ty = annotated_copy(&decl.return_type);
            let id = ns_declare_exec(
                table,
                decl.symbol.name.clone(),
                ty,
                Ghost(ns_leave(b.state)),
                Ghost(annotated(decl.return_type)),
            );
            let symbol = AstSymbol { name: decl.symbol.name, id: Some(id), span: decl.symbol.span, cursor: decl.symbol.cursor };
            Statement {
                kind: StatementKind::FuncDecl(
                    crate::ast::statements::FuncDecl {
                        visibility: decl.visibility,
                        symbol,
                        parameters,
                        return_type: decl.return_type,
                        body,
                    },
                ),
                span,
                cursor,
            }
        },
        StatementKind::ClassDecl(decl) => {
            proof {
                assert(false);
            }
            Statement { kind: StatementKind::ClassDecl(decl), span, cursor }
        },
        StatementKind::Expression { inner } => {
            let i2 = resolve_expr(table, reporter, inner, Ghost(st));
            Statement { kind: StatementKind::Expression { inner: i2 }, span, cursor }
        },
        _ => {
            Statement { kind, span, cursor }
        },
    }
}

/// The statements of the syntax tree `code` holds (none once it is lowered).
pub open spec fn ast_statements(code: ParsedCodeKind) -> Seq<Statement> {
    match code {
        ParsedCodeKind::Ast(a) => a.statements@,
        _ => Seq::empty(),
    }
}

/// Name resolution starts from the tables as they are.
pub open spec fn ns_start(t: SymbolsTable) -> NsState {
    NsState {
        view: t.value_table.view(),
        types: t.value_table.spec_symbols().map_values(|s: ValueSymbol| s.ty),
        depth: t.depth as nat,
        stuck: false,
    }
}

pub proof fn lemma_ns_start(t: SymbolsTable)
    requires
        t.wf(),
    ensures
        ns_agrees(ns_start(t), t),
{
    assert forall|i: int| 0 <= i < ns_start(t).types.len() implies same_type(
        #[trigger] t.value_table.spec_symbols()[i].ty,
        ns_start(t).types[i],
    ) by {
        lemma_same_type_refl(t.value_table.spec_symbols()[i].ty);
    }
}

/// Name resolution can run on `ctx`: its code is a syntax tree, and resolving it neither
/// meets a class declaration nor nests scopes or declares values beyond what the tables hold.
#[verifier::opaque]
pub open spec fn name_resolution_ready(ctx: AnalyzerContext) -> bool {
    &&& ctx.input.code is Ast
    &&& ctx.symbol_table.wf()
    &&& !ns_stmts(ns_start(ctx.symbol_table), ast_statements(ctx.input.code)).state.stuck
}

/// `after` is `before` with the names of its syntax tree resolved (see `ns_stmts` and
/// `resolved_stmt`), and `reports` what was reported on the way.
#[verifier::opaque]
pub open spec fn names_resolved(before: AnalyzerContext, after: AnalyzerContext, reports: Seq<DiagnosticReport>) -> bool {
    let ss = ast_statements(before.input.code);
    let st = ns_start(before.symbol_table);
    &&& after.input.source == before.input.source
    &&& after.input.code matches ParsedCodeKind::Ast(a2) && a2.span == before.input.code->Ast_0.span
        && a2.statements@.len() == ss.len() && forall|i: int|
        0 <= i < ss.len() ==> resolved_stmt(ns_stmts(st, ss.take(i)).state, #[trigger] ss[i], a2.statements@[i])
    &&& ns_agrees(ns_stmts(st, ss).state, after.symbol_table)
    &&& others_kept(before.symbol_table, after.symbol_table)
    &&& after.symbol_table.depth == before.symbol_table.depth
    &&& reports == ns_stmts(st, ss).reports
}

/// The stage that resolves names to symbols.
#[derive(Debug)]
pub struct NameResolutionStage;

impl NameResolutionStage {
    pub fn name(&self) -> (r: &'static str)
        ensures
            r@ == "NameResolution"@,
    {
        "NameResolution"
    }

    /// Resolves the names of the source's syntax tree; succeeds when no error was reported.
    pub fn run(&mut self, ctx: &mut AnalyzerContext) -> (r: bool)
        requires
            name_resolution_ready(*old(ctx)),
        ensures
            names_resolved(*old(ctx), *final(ctx), ns_stmts(ns_start(old(ctx).symbol_table), ast_statements(old(ctx).input.code)).reports),
            appended(old(ctx).reporter, final(ctx).reporter, ns_stmts(ns_start(old(ctx).symbol_table), ast_statements(old(ctx).input.code)).reports),
            r == (count_kind(final(ctx).reporter.spec_entries(), DiagnosticKind::Error) <= count_kind(
                old(ctx).reporter.spec_entries(),
                DiagnosticKind::Error,
            )),
    {
        proof {
            reveal(names_resolved);
            reveal(name_resolution_ready);
        }
        let errors = ctx.reporter.diagnostic_count(DiagnosticKind::Error);
        run_pass(ctx);
        let new_errors = ctx.reporter.diagnostic_count(DiagnosticKind::Error);
        if new_errors > errors {
            return false;
        }
        true
    }
}

/// Resolves the names of every statement of the source's syntax tree, in order.
fn run_pass(ctx: &mut AnalyzerContext)
    requires
        name_resolution_ready(*old(ctx)),
    ensures
        names_resolved(*old(ctx), *final(ctx), ns_stmts(ns_start(old(ctx).symbol_table), ast_statements(old(ctx).input.code)).reports),
        appended(old(ctx).reporter, final(ctx).reporter, ns_stmts(ns_start(old(ctx).symbol_table), ast_statements(old(ctx).input.code)).reports),
{
    proof {
        reveal(names_resolved);
        reveal(name_resolution_ready);
    }
    proof {
        lemma_ns_start(ctx.symbol_table);
    }
    let ghost st = ns_start(ctx.symbol_table);
    let mut code = ParsedCodeKind::Hir(Hir::new());
    std::mem::swap(&mut code, &mut ctx.input.code);
    match code {
        ParsedCodeKind::Ast(ast) => {
            let Ast { statements, span } = ast;
            let resolved = resolve_stmts(&mut ctx.symbol_table, &mut ctx.reporter, statements, Ghost(st));
            ctx.input.code = ParsedCodeKind::Ast(Ast { statements: resolved, span });
        },
        _ => {
            proof {
                assert(false);
            }
        },
    }
}

/// Name resolution does not look at the reporter of the context.
pub proof fn lemma_names_resolved_frame(a: AnalyzerContext, a2: AnalyzerContext, b: AnalyzerContext, b2: AnalyzerContext, d: Seq<DiagnosticReport>)
    requires
        a.input == a2.input,
        a.symbol_table == a2.symbol_table,
        b.input == b2.input,
        b.symbol_table == b2.symbol_table,
    ensures
        names_resolved(a, b, d) == names_resolved(a2, b2, d),
        name_resolution_ready(a) == name_resolution_ready(a2),
{
    reveal(names_resolved);
    reveal(name_resolution_ready);
}

} // verus!
