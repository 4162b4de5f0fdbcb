use vstd::prelude::*;

use crate::ast::expressions::{ConditionalBranch, Expression, ExpressionKind, LiteralKind};
use crate::ast::statements::{Parameter, Statement, StatementKind};
use crate::ast::symbol::{AstSymbol, SymbolId};
use crate::ast::types::{Type, TypeKind};
use crate::ast::Ast;
use crate::semantics::ctx::AnalyzerContext;
use crate::semantics::hir::Hir;
use crate::semantics::source::ParsedCodeKind;
use crate::semantics::stages::name_resolution::ast_statements;
use crate::diagnostic::reporter::{appended, lemma_appended_empty, lemma_appended_trans, Reporter};
use crate::diagnostic::{DiagnosticMessage, DiagnosticReport, DiagnosticResult};
use crate::semantics::diagnostics::AnalyzerDiagnostic;
use crate::semantics::hir::expressions::{literal_type, HirExpression, HirExpressionKind};
use crate::semantics::hir::statements::{HirFuncDecl, HirParameter, HirStatement, HirStatementKind, HirVarDecl};
use crate::semantics::hir::HirConditionalBranch;
use crate::semantics::stages::literal::{
    ast_to_hir_literal, invalid_literal_report, literal_readable, literal_report_type, literal_value,
};
use crate::semantics::symbol::SymbolsTable;

verus! {

/// Why lowering stops: a name that resolves to no symbol, a literal that cannot be read, or
/// a construct that lowering does not handle (loops, imports and classes).
pub enum LoweringFailure {
    Unresolved(AstSymbol),
    InvalidLiteral(TypeKind, Seq<char>),
    Unsupported,
}

/// What lowering reports on the way (parameters that resolve to no symbol) and where it stops.
pub struct LoweringTrace {
    pub reports: Seq<DiagnosticReport>,
    pub failure: Option<LoweringFailure>,
}

pub open spec fn ok_trace() -> LoweringTrace {
    LoweringTrace { reports: Seq::empty(), failure: None }
}

pub open spec fn fail_trace(f: LoweringFailure) -> LoweringTrace {
    LoweringTrace { reports: Seq::empty(), failure: Some(f) }
}

/// `a`, then `b` unless `a` stopped.
pub open spec fn then(a: LoweringTrace, b: LoweringTrace) -> LoweringTrace {
    if a.failure is Some {
        a
    } else {
        LoweringTrace { reports: a.reports + b.reports, failure: b.failure }
    }
}

pub open spec fn unresolved_report(symbol: AstSymbol) -> DiagnosticReport {
    DiagnosticReport {
        message: DiagnosticMessage::Analyzer(AnalyzerDiagnostic::UnresolvedSymbol(symbol.name)),
        span: symbol.span,
        cursor: symbol.cursor,
    }
}

/// `d` is the report of `f`.
pub open spec fn failure_report(f: LoweringFailure, d: DiagnosticReport) -> bool {
    match f {
        LoweringFailure::Unresolved(symbol) => d == unresolved_report(symbol),
        LoweringFailure::InvalidLiteral(ty, value) => invalid_literal_report(d, ty, value),
        LoweringFailure::Unsupported => false,
    }
}

/// A symbol resolves when it was given an index that the value table holds (`n` symbols).
pub open spec fn symbol_trace(symbol: AstSymbol, n: nat) -> LoweringTrace {
    match symbol.id {
        Some(id) => if id < n {
            ok_trace()
        } else {
            fail_trace(LoweringFailure::Unresolved(symbol))
        },
        None => fail_trace(LoweringFailure::Unresolved(symbol)),
    }
}

pub open spec fn opt_symbol_trace(symbol: Option<AstSymbol>, n: nat) -> LoweringTrace {
    match symbol {
        Some(s) => symbol_trace(s, n),
        None => ok_trace(),
    }
}

pub open spec fn literal_trace(kind: LiteralKind, value: Seq<char>) -> LoweringTrace {
    if literal_readable(kind, value) {
        ok_trace()
    } else {
        fail_trace(LoweringFailure::InvalidLiteral(literal_report_type(kind), value))
    }
}

/// What lowering `e` reports and where it stops, with `n` value symbols declared.
pub open spec fn expr_trace(e: Expression, n: nat) -> LoweringTrace
    decreases e, 1nat,
{
    match e.kind {
        ExpressionKind::ArrayGet { array, index } => then(expr_trace(*array, n), expr_trace(*index, n)),
        ExpressionKind::ArraySet { array, index, value } => then(
            then(expr_trace(*array, n), expr_trace(*index, n)),
            expr_trace(*value, n),
        ),
        ExpressionKind::Assign { symbol, value } => then(symbol_trace(symbol, n), expr_trace(*value, n)),
        ExpressionKind::Binary { left, right, .. } => then(expr_trace(*left, n), expr_trace(*right, n)),
        ExpressionKind::Comparison { left, right, .. } => then(expr_trace(*left, n), expr_trace(*right, n)),
        ExpressionKind::Logical { left, right, .. } => then(expr_trace(*left, n), expr_trace(*right, n)),
        ExpressionKind::Get { object, property_symbol } => then(
            expr_trace(*object, n),
            symbol_trace(property_symbol, n),
        ),
        ExpressionKind::Group { inner } => expr_trace(*inner, n),
        ExpressionKind::If { main_branch, branches, else_branch } => then(
            then(
                then(expr_trace(main_branch.condition, n), expr_trace(main_branch.body, n)),
                branches_trace(branches@, n),
            ),
            match else_branch {
                Some(b) => expr_trace(*b, n),
                None => ok_trace(),
            },
        ),
        ExpressionKind::Invoke { callee, arguments } => then(exprs_trace(arguments@, n), expr_trace(*callee, n)),
        ExpressionKind::Literal { kind, value } => literal_trace(kind, value@),
        ExpressionKind::Scope { statements, block_value } => then(
            stmts_trace(statements@, n),
            match block_value {
                Some(v) => expr_trace(*v, n),
                None => ok_trace(),
            },
        ),
        ExpressionKind::Unary { value, .. } => expr_trace(*value, n),
        ExpressionKind::Variable { symbol } => symbol_trace(symbol, n),
        ExpressionKind::ArrayLiteral { elements, size, .. } => then(
            exprs_trace(elements@, n),
            match size {
                Some(s) => expr_trace(*s, n),
                None => ok_trace(),
            },
        ),
    }
}

pub open spec fn opt_expr_trace(o: Option<Box<Expression>>, n: nat) -> LoweringTrace {
    match o {
        Some(e) => expr_trace(*e, n),
        None => ok_trace(),
    }
}

pub open spec fn exprs_trace(es: Seq<Expression>, n: nat) -> LoweringTrace
    decreases es, 0nat,
{
    if es.len() == 0 {
        ok_trace()
    } else {
        then(exprs_trace(es.drop_last(), n), expr_trace(es.last(), n))
    }
}

pub open spec fn branches_trace(bs: Seq<ConditionalBranch>, n: nat) -> LoweringTrace
    decreases bs, 0nat,
{
    if bs.len() == 0 {
        ok_trace()
    } else {
        then(
            branches_trace(bs.drop_last(), n),
            then(expr_trace(bs.last().condition, n), expr_trace(bs.last().body, n)),
        )
    }
}

/// The parameters of a function whose names resolve to no symbol are reported, in order.
pub open spec fn params_reports(ps: Seq<Parameter>, n: nat) -> Seq<DiagnosticReport>
    decreases ps.len(),
{
    if ps.len() == 0 {
        Seq::empty()
    } else {
        params_reports(ps.drop_last(), n) + if symbol_trace(ps.last().symbol, n).failure is Some {
            seq![unresolved_report(ps.last().symbol)]
        } else {
            Seq::empty()
        }
    }
}

pub open spec fn stmt_trace(s: Statement, n: nat) -> LoweringTrace
    decreases s, 1nat,
{
    match s.kind {
        StatementKind::While { .. } => fail_trace(LoweringFailure::Unsupported),
        StatementKind::Import { .. } => fail_trace(LoweringFailure::Unsupported),
        StatementKind::ClassDecl(_) => fail_trace(LoweringFailure::Unsupported),
        StatementKind::Expression { inner } => expr_trace(inner, n),
        StatementKind::Continue { label } => opt_symbol_trace(label, n),
        StatementKind::Break { label } => opt_symbol_trace(label, n),
        StatementKind::Return { value } => match value {
            Some(v) => expr_trace(v, n),
            None => ok_trace(),
        },
        StatementKind::FuncDecl(d) => then(
            then(
                LoweringTrace { reports: params_reports(d.parameters@, n), failure: None },
                match d.body {
                    Some(b) => expr_trace(*b, n),
                    None => ok_trace(),
                },
            ),
            symbol_trace(d.symbol, n),
        ),
        StatementKind::VarDecl(d) => then(
            match d.value {
                Some(v) => expr_trace(*v, n),
                None => ok_trace(),
            },
            symbol_trace(d.symbol, n),
        ),
        StatementKind::EndOfFile => ok_trace(),
    }
}

pub open spec fn stmts_trace(ss: Seq<Statement>, n: nat) -> LoweringTrace
    decreases ss, 0nat,
{
    if ss.len() == 0 {
        ok_trace()
    } else {
        then(stmts_trace(ss.drop_last(), n), stmt_trace(ss.last(), n))
    }
}

/// The index `symbol` resolves to.
pub open spec fn resolved_id(symbol: AstSymbol) -> SymbolId {
    symbol.id.unwrap()
}

/// `h` is the lowered form of `e`: the same shape, with names replaced by the indices of their
/// symbols, literals by their values, and the type known so far (that of a literal, `bool` for
/// comparisons and logical operators, the unit type for an element store, else unknown).
pub open spec fn lowers_expr(e: Expression, h: HirExpression, n: nat) -> bool
    decreases e, 1nat,
{
    &&& h.span == e.span
    &&& h.cursor == e.cursor
    &&& match e.kind {
        ExpressionKind::ArrayGet { array, index } => h.kind matches HirExpressionKind::ArrayGet {
            array: ha,
            index: hi,
        } && lowers_expr(*array, *ha, n) && lowers_expr(*index, *hi, n) && h.ty == TypeKind::Unknown,
        ExpressionKind::ArraySet { array, index, value } => h.kind matches HirExpressionKind::ArraySet {
            array: ha,
            index: hi,
            value: hv,
        } && lowers_expr(*array, *ha, n) && lowers_expr(*index, *hi, n) && lowers_expr(*value, *hv, n) && h.ty
            == TypeKind::Unit,
        ExpressionKind::Assign { symbol, value } => h.kind matches HirExpressionKind::Assign {
            symbol_id,
            value: hv,
        } && symbol_id == resolved_id(symbol) && lowers_expr(*value, *hv, n) && h.ty == TypeKind::Unknown,
        ExpressionKind::Binary { left, operator, right } => h.kind matches HirExpressionKind::Binary {
            left: hl,
            operator: ho,
            right: hr,
        } && ho == operator && lowers_expr(*left, *hl, n) && lowers_expr(*right, *hr, n) && h.ty == TypeKind::Unknown,
        ExpressionKind::Comparison { left, operator, right } => h.kind matches HirExpressionKind::Comparison {
            left: hl,
            operator: ho,
            right: hr,
        } && ho == operator && lowers_expr(*left, *hl, n) && lowers_expr(*right, *hr, n) && h.ty == TypeKind::Bool,
        ExpressionKind::Logical { left, operator, right } => h.kind matches HirExpressionKind::Logical {
            left: hl,
            operator: ho,
            right: hr,
        } && ho == operator && lowers_expr(*left, *hl, n) && lowers_expr(*right, *hr, n) && h.ty == TypeKind::Bool,
        ExpressionKind::Get { object, property_symbol } => h.kind matches HirExpressionKind::Get {
            object: ho,
            property_symbol_id,
        } && lowers_expr(*object, *ho, n) && property_symbol_id == resolved_id(property_symbol) && h.ty
            == TypeKind::Unknown,
        ExpressionKind::Group { inner } => h.kind matches HirExpressionKind::Group { inner: hi } && lowers_expr(
            *inner,
            *hi, n,
        ) && h.ty == TypeKind::Unknown,
        ExpressionKind::If { main_branch, branches, else_branch } => h.kind matches HirExpressionKind::If {
            main_expr,
            branches: hb,
            else_expr,
        } && lowers_expr(main_branch.condition, main_expr.condition, n) && lowers_expr(
            main_branch.body,
            main_expr.body, n,
        ) && hb@.len() == branches@.len() && (forall|i: int|
            0 <= i < branches@.len() ==> lowers_expr(#[trigger] branches@[i].condition, hb@[i].condition, n)
                && lowers_expr(branches@[i].body, hb@[i].body, n)) && (else_branch is None <==> else_expr is None) && (
        else_branch matches Some(b) ==> lowers_expr(*b, *else_expr->0, n)) && h.ty == TypeKind::Unknown,
        ExpressionKind::Invoke { callee, arguments } => h.kind matches HirExpressionKind::Invoke {
            callee: hc,
            arguments: ha,
        } && lowers_expr(*callee, *hc, n) && ha@.len() == arguments@.len() && (forall|i: int|
            0 <= i < arguments@.len() ==> lowers_expr(#[trigger] arguments@[i], ha@[i], n)) && h.ty == TypeKind::Unknown,
        ExpressionKind::Literal { kind, value } => h.kind matches HirExpressionKind::Literal { kind: hk }
            && literal_value(kind, value@, hk) && h.ty == literal_type(hk),
        ExpressionKind::Scope { statements, block_value } => h.kind matches HirExpressionKind::Scope {
            statements: hs,
            value: hv,
        } && lowers_stmts(statements@, hs@, n) && (block_value is None <==> hv is None) && (block_value matches Some(
            v,
        ) ==> lowers_expr(*v, *hv->0, n)) && h.ty == TypeKind::Unknown,
        ExpressionKind::Unary { operator, value } => h.kind matches HirExpressionKind::Unary {
            operator: ho,
            value: hv,
        } && ho == operator && lowers_expr(*value, *hv, n) && h.ty == TypeKind::Unknown,
        ExpressionKind::Variable { symbol } => h.kind matches HirExpressionKind::Variable { symbol_id }
            && symbol_id == resolved_id(symbol) && h.ty == TypeKind::Unknown,
        ExpressionKind::ArrayLiteral { elements, inner_type, size } => h.kind matches HirExpressionKind::ArrayLiteral {
            elements: he,
            size: hs,
        } && he@.len() == elements@.len() && (forall|i: int|
            0 <= i < elements@.len() ==> lowers_expr(#[trigger] elements@[i], he@[i], n)) && (size is None
            <==> hs is None) && (size matches Some(s) ==> lowers_expr(*s, *hs->0, n)) && h.ty == TypeKind::Array(
            Box::new(inner_type),
        ),
    }
}

/// The lowered parameters of a function: those whose names resolve, in order.
pub open spec fn lowers_params(ps: Seq<Parameter>, n: nat, hs: Seq<HirParameter>) -> bool
    decreases ps.len(),
{
    if ps.len() == 0 {
        hs.len() == 0
    } else if symbol_trace(ps.last().symbol, n).failure is Some {
        lowers_params(ps.drop_last(), n, hs)
    } else {
        &&& hs.len() > 0
        &&& hs.last() == HirParameter {
            symbol_id: resolved_id(ps.last().symbol),
            mutable: ps.last().mutable,
            ty: ps.last().ty,
            span: ps.last().span,
            cursor: ps.last().cursor,
        }
        &&& lowers_params(ps.drop_last(), n, hs.drop_last())
    }
}

/// A type as written, or an unknown type at the place of the statement.
pub open spec fn written_or_unknown(ty: Option<Type>, s: Statement) -> Type {
    match ty {
        Some(t) => t,
        None => Type { kind: TypeKind::Unknown, span: s.span, cursor: s.cursor },
    }
}

/// `h` is the lowered form of the statement `s` (which is not the end of the file).
pub open spec fn lowers_stmt(s: Statement, h: HirStatement, n: nat) -> bool
    decreases s, 1nat,
{
    &&& h.span == s.span
    &&& h.cursor == s.cursor
    &&& match s.kind {
        StatementKind::Expression { inner } => h.kind matches HirStatementKind::Expression { inner: hi }
            && lowers_expr(inner, hi, n),
        StatementKind::Continue { label } => h.kind matches HirStatementKind::Continue { label: hl } && hl
            == match label {
            Some(l) => Some(resolved_id(l)),
            None => None,
        },
        StatementKind::Break { label } => h.kind matches HirStatementKind::Break { label: hl } && hl == match label {
            Some(l) => Some(resolved_id(l)),
            None => None,
        },
        StatementKind::Return { value } => h.kind matches HirStatementKind::Return { value: hv } && (value is None
            <==> hv is None) && (value matches Some(v) ==> lowers_expr(v, *hv->0, n)),
        StatementKind::FuncDecl(d) => h.kind matches HirStatementKind::FuncDecl(hd) && hd.visibility
            == d.visibility && hd.symbol_id == resolved_id(d.symbol) && lowers_params(d.parameters@, n, hd.parameters@) && hd.return_type == written_or_unknown(d.return_type, s) && (d.body is None <==> hd.body is None) && (
        d.body matches Some(b) ==> lowers_expr(*b, *hd.body->0, n)),
        StatementKind::VarDecl(d) => h.kind matches HirStatementKind::VarDecl(hd) && hd.visibility == d.visibility
            && hd.symbol_id == resolved_id(d.symbol) && hd.mutable == d.mutable && hd.ty == written_or_unknown(
            d.ty,
            s,
        ) && (d.value is None <==> hd.value is None) && (d.value matches Some(v) ==> lowers_expr(*v, *hd.value->0, n)),
        _ => false,
    }
}

/// The lowered statements of `ss`: the end of the file is dropped, every other statement is
/// lowered, in order.
pub open spec fn lowers_stmts(ss: Seq<Statement>, hs: Seq<HirStatement>, n: nat) -> bool
    decreases ss, 0nat,
{
    if ss.len() == 0 {
        hs.len() == 0
    } else if ss.last().kind is EndOfFile {
        lowers_stmts(ss.drop_last(), hs, n)
    } else {
        &&& hs.len() > 0
        &&& lowers_stmt(ss.last(), hs.last(), n)
        &&& lowers_stmts(ss.drop_last(), hs.drop_last(), n)
    }
}


/// Lowering does not reach a loop, an import or a class.
pub open spec fn lowerable(t: LoweringTrace) -> bool {
    !(t.failure matches Some(LoweringFailure::Unsupported))
}

/// The number of value symbols, which is what decides whether an index resolves.
pub open spec fn values(table: SymbolsTable) -> nat {
    table.value_table.spec_symbols().len()
}

proof fn lemma_then_appended(a: Reporter, b: Reporter, c: Reporter, ta: LoweringTrace, tb: LoweringTrace)
    requires
        appended(a, b, ta.reports),
        ta.failure is None,
        appended(b, c, tb.reports),
    ensures
        appended(a, c, then(ta, tb).reports),
{
    lemma_appended_trans(a, b, c, ta.reports, tb.reports);
}

proof fn lemma_then_empty(t: LoweringTrace)
    ensures
        then(ok_trace(), t) == t,
        t.failure is None ==> then(t, ok_trace()) == t,
{
    assert(Seq::<DiagnosticReport>::empty() + t.reports =~= t.reports);
    assert(t.reports + Seq::<DiagnosticReport>::empty() =~= t.reports);
}

/// The index `symbol` was resolved to, where the value table holds it.
fn unwrap_ast_symbol(table: &SymbolsTable, symbol: &AstSymbol) -> (r: DiagnosticResult<SymbolId>)
    ensures
        match symbol_trace(*symbol, values(*table)).failure {
            None => r == Ok::<SymbolId, DiagnosticReport>(resolved_id(*symbol)),
            Some(f) => r matches Err(d) && failure_report(f, d),
        },
{
    let unresolved = DiagnosticReport {
        span: symbol.span,
        cursor: symbol.cursor,
        message: DiagnosticMessage::Analyzer(AnalyzerDiagnostic::UnresolvedSymbol(symbol.name.clone())),
    };
    match symbol.id {
        Some(id) => {
            if table.value_table.lookup_id(id).is_some() {
                Ok(id)
            } else {
                Err(unresolved)
            }
        },
        None => Err(unresolved),
    }
}

/// Lowers an expression: every name to the index of its symbol, every literal to its value.
/// Lowering stops at the first name that resolves to no symbol or literal that cannot be read.
#[verifier::spinoff_prover]
pub fn ast_to_hir_expr(table: &SymbolsTable, reporter: &mut Reporter, expr: Expression) -> (r: DiagnosticResult<HirExpression>)
    requires
        lowerable(expr_trace(expr, values(*table))),
    ensures
        appended(*old(reporter), *final(reporter), expr_trace(expr, values(*table)).reports),
        match expr_trace(expr, values(*table)).failure {
            None => r matches Ok(h) && lowers_expr(expr, h, values(*table)),
            Some(f) => r matches Err(d) && failure_report(f, d),
        },
    decreases expr,
{
    let ghost n = values(*table);
    let ghost e = expr;
    let ghost r0 = *reporter;
    proof {
        lemma_appended_empty(r0);
    }
    let Expression { kind, span, cursor } = expr;
    match kind {
        ExpressionKind::ArrayGet { array, index } => {
            let ha = match ast_to_hir_expr(table, reporter, *array) {
                Ok(h) => h,
                Err(d) => return Err(d),
            };
            let ghost r1 = *reporter;
            let hi = match ast_to_hir_expr(table, reporter, *index) {
                Ok(h) => h,
                Err(d) => {
                    proof { lemma_then_appended(r0, r1, *reporter, expr_trace(*array, n), expr_trace(*index, n)); }
                    return Err(d);
                },
            };
            proof { lemma_then_appended(r0, r1, *reporter, expr_trace(*array, n), expr_trace(*index, n)); }
            Ok(HirExpression {
                kind: HirExpressionKind::ArrayGet { array: Box::new(ha), index: Box::new(hi) },
                ty: TypeKind::Unknown,
                span,
                cursor,
            })
        },
        ExpressionKind::ArraySet { array, index, value } => {
            let ghost ta = expr_trace(*array, n);
            let ghost ti = expr_trace(*index, n);
            let ghost tv = expr_trace(*value, n);
            let ha = match ast_to_hir_expr(table, reporter, *array) {
                Ok(h) => h,
                Err(d) => return Err(d),
            };
            let ghost r1 = *reporter;
            let hi = match ast_to_hir_expr(table, reporter, *index) {
                Ok(h) => h,
                Err(d) => {
                    proof { lemma_then_appended(r0, r1, *reporter, ta, ti); }
                    return Err(d);
                },
            };
            proof { lemma_then_appended(r0, r1, *reporter, ta, ti); }
            let ghost r2 = *reporter;
            let hv = match ast_to_hir_expr(table, reporter, *value) {
                Ok(h) => h,
                Err(d) => {
                    proof { lemma_then_appended(r0, r2, *reporter, then(ta, ti), tv); }
                    return Err(d);
                },
            };
            proof { lemma_then_appended(r0, r2, *reporter, then(ta, ti), tv); }
            Ok(HirExpression {
                kind: HirExpressionKind::ArraySet { array: Box::new(ha), index: Box::new(hi), value: Box::new(hv) },
                ty: TypeKind::Unit,
                span,
                cursor,
            })
        },
        ExpressionKind::Assign { symbol, value } => {
            let symbol_id = match unwrap_ast_symbol(table, &symbol) {
                Ok(id) => id,
                Err(d) => return Err(d),
            };
            proof { lemma_then_empty(expr_trace(*value, n)); }
            let hv = match ast_to_hir_expr(table, reporter, *value) {
                Ok(h) => h,
                Err(d) => return Err(d),
            };
            Ok(HirExpression {
                kind: HirExpressionKind::Assign { symbol_id, value: Box::new(hv) },
                ty: TypeKind::Unknown,
                span,
                cursor,
            })
        },
        ExpressionKind::Binary { left, operator, right } => {
            let hl = match ast_to_hir_expr(table, reporter, *left) {
                Ok(h) => h,
                Err(d) => return Err(d),
            };
            let ghost r1 = *reporter;
            let hr = match ast_to_hir_expr(table, reporter, *right) {
                Ok(h) => h,
                Err(d) => {
                    proof { lemma_then_appended(r0, r1, *reporter, expr_trace(*left, n), expr_trace(*right, n)); }
                    return Err(d);
                },
            };
            proof { lemma_then_appended(r0, r1, *reporter, expr_trace(*left, n), expr_trace(*right, n)); }
            Ok(HirExpression {
                kind: HirExpressionKind::Binary { left: Box::new(hl), operator, right: Box::new(hr) },
                ty: TypeKind::Unknown,
                span,
                cursor,
            })
        },
        ExpressionKind::Comparison { left, operator, right } => {
            let hl = match ast_to_hir_expr(table, reporter, *left) {
                Ok(h) => h,
                Err(d) => return Err(d),
            };
            let ghost r1 = *reporter;
            let hr = match ast_to_hir_expr(table, reporter, *right) {
                Ok(h) => h,
                Err(d) => {
                    proof { lemma_then_appended(r0, r1, *reporter, expr_trace(*left, n), expr_trace(*right, n)); }
                    return Err(d);
                },
            };
            proof { lemma_then_appended(r0, r1, *reporter, expr_trace(*left, n), expr_trace(*right, n)); }
            Ok(HirExpression {
                kind: HirExpressionKind::Comparison { left: Box::new(hl), operator, right: Box::new(hr) },
                ty: TypeKind::Bool,
                span,
                cursor,
            })
        },
        ExpressionKind::Logical { left, operator, right } => {
            let hl = match ast_to_hir_expr(table, reporter, *left) {
                Ok(h) => h,
                Err(d) => return Err(d),
            };
            let ghost r1 = *reporter;
            let hr = match ast_to_hir_expr(table, reporter, *right) {
                Ok(h) => h,
                Err(d) => {
                    proof { lemma_then_appended(r0, r1, *reporter, expr_trace(*left, n), expr_trace(*right, n)); }
                    return Err(d);
                },
            };
            proof { lemma_then_appended(r0, r1, *reporter, expr_trace(*left, n), expr_trace(*right, n)); }
            Ok(HirExpression {
                kind: HirExpressionKind::Logical { left: Box::new(hl), operator, right: Box::new(hr) },
                ty: TypeKind::Bool,
                span,
                cursor,
            })
        },
        ExpressionKind::Get { object, property_symbol } => {
            let ho = match ast_to_hir_expr(table, reporter, *object) {
                Ok(h) => h,
                Err(d) => return Err(d),
            };
            proof { lemma_then_empty(expr_trace(*object, n)); }
            let property_symbol_id = match unwrap_ast_symbol(table, &property_symbol) {
                Ok(id) => id,
                Err(d) => return Err(d),
            };
            Ok(HirExpression {
                kind: HirExpressionKind::Get { object: Box::new(ho), property_symbol_id },
                ty: TypeKind::Unknown,
                span,
                cursor,
            })
        },
        ExpressionKind::Group { inner } => {
            let hi = match ast_to_hir_expr(table, reporter, *inner) {
                Ok(h) => h,
                Err(d) => return Err(d),
            };
            Ok(HirExpression {
                kind: HirExpressionKind::Group { inner: Box::new(hi) },
                ty: TypeKind::Unknown,
                span,
                cursor,
            })
        },
        ExpressionKind::Unary { operator, value } => {
            let hv = match ast_to_hir_expr(table, reporter, *value) {
                Ok(h) => h,
                Err(d) => return Err(d),
            };
            Ok(HirExpression {
                kind: HirExpressionKind::Unary { operator, value: Box::new(hv) },
                ty: TypeKind::Unknown,
                span,
                cursor,
            })
        },
        ExpressionKind::Variable { symbol } => {
            let symbol_id = match unwrap_ast_symbol(table, &symbol) {
                Ok(id) => id,
                Err(d) => return Err(d),
            };
            Ok(HirExpression {
                kind: HirExpressionKind::Variable { symbol_id },
                ty: TypeKind::Unknown,
                span,
                cursor,
            })
        },
        ExpressionKind::Literal { kind, value } => {
            match ast_to_hir_literal(&kind, value.as_str()) {
                Ok(lit) => {
                    let ty = lit.type_kind();
                    Ok(HirExpression { kind: HirExpressionKind::Literal { kind: lit }, ty, span, cursor })
                },
                Err(d) => Err(d),
            }
        },
        ExpressionKind::If { main_branch, branches, else_branch } => {
            let ConditionalBranch { condition, body } = *main_branch;
            let ghost tc = expr_trace(condition, n);
            let ghost tb = expr_trace(body, n);
            let ghost tbs = branches_trace(branches@, n);
            let ghost te = opt_expr_trace(else_branch, n);
            let hc = match ast_to_hir_expr(table, reporter, condition) {
                Ok(h) => h,
                Err(d) => return Err(d),
            };
            let ghost r1 = *reporter;
            let hb = match ast_to_hir_expr(table, reporter, body) {
                Ok(h) => h,
                Err(d) => {
                    proof { lemma_then_appended(r0, r1, *reporter, tc, tb); }
                    return Err(d);
                },
            };
            proof { lemma_then_appended(r0, r1, *reporter, tc, tb); }
            let ghost r2 = *reporter;
            let hbs = match ast_to_hir_branches(table, reporter, branches) {
                Ok(h) => h,
                Err(d) => {
                    proof { lemma_then_appended(r0, r2, *reporter, then(tc, tb), tbs); }
                    return Err(d);
                },
            };
            proof { lemma_then_appended(r0, r2, *reporter, then(tc, tb), tbs); }
            let ghost r3 = *reporter;
            let he = match else_branch {
                Some(b) => match ast_to_hir_expr(table, reporter, *b) {
                    Ok(h) => Some(Box::new(h)),
                    Err(d) => {
                        proof { lemma_then_appended(r0, r3, *reporter, then(then(tc, tb), tbs), te); }
                        return Err(d);
                    },
                },
                None => {
                    proof { lemma_appended_empty(r3); }
                    None
                },
            };
            proof { lemma_then_appended(r0, r3, *reporter, then(then(tc, tb), tbs), te); }
            Ok(HirExpression {
                kind: HirExpressionKind::If {
                    main_expr: Box::new(HirConditionalBranch { condition: hc, body: hb }),
                    branches: hbs,
                    else_expr: he,
                },
                ty: TypeKind::Unknown,
                span,
                cursor,
            })
        },
        ExpressionKind::Invoke { callee, arguments } => {
            let ghost ta = exprs_trace(arguments@, n);
            let ghost tc = expr_trace(*callee, n);
            let hargs = match ast_to_hir_exprs(table, reporter, arguments) {
                Ok(h) => h,
                Err(d) => return Err(d),
            };
            let ghost r1 = *reporter;
            let hc = match ast_to_hir_expr(table, reporter, *callee) {
                Ok(h) => h,
                Err(d) => {
                    proof { lemma_then_appended(r0, r1, *reporter, ta, tc); }
                    return Err(d);
                },
            };
            proof { lemma_then_appended(r0, r1, *reporter, ta, tc); }
            Ok(HirExpression {
                kind: HirExpressionKind::Invoke { callee: Box::new(hc), arguments: hargs },
                ty: TypeKind::Unknown,
                span,
                cursor,
            })
        },
        ExpressionKind::Scope { statements, block_value } => {
            let ghost ts = stmts_trace(statements@, n);
            let ghost tv = opt_expr_trace(block_value, n);
            let hs = match ast_to_hir_stmts(table, reporter, statements) {
                Ok(h) => h,
                Err(d) => return Err(d),
            };
            let ghost r1 = *reporter;
            let hv = match block_value {
                Some(v) => match ast_to_hir_expr(table, reporter, *v) {
                    Ok(h) => Some(Box::new(h)),
                    Err(d) => {
                        proof { lemma_then_appended(r0, r1, *reporter, ts, tv); }
                        return Err(d);
                    },
                },
                None => {
                    proof { lemma_appended_empty(r1); }
                    None
                },
            };
            proof { lemma_then_appended(r0, r1, *reporter, ts, tv); }
            Ok(HirExpression {
                kind: HirExpressionKind::Scope { statements: hs, value: hv },
                ty: TypeKind::Unknown,
                span,
                cursor,
            })
        },
        ExpressionKind::ArrayLiteral { elements, inner_type, size } => {
            let ghost ta = exprs_trace(elements@, n);
            let ghost tsz = opt_expr_trace(size, n);
            let helems = match ast_to_hir_exprs(table, reporter, elements) {
                Ok(h) => h,
                Err(d) => return Err(d),
            };
            let ghost r1 = *reporter;
            let hsize = match size {
                Some(v) => match ast_to_hir_expr(table, reporter, *v) {
                    Ok(h) => Some(Box::new(h)),
                    Err(d) => {
                        proof { lemma_then_appended(r0, r1, *reporter, ta, tsz); }
                        return Err(d);
                    },
                },
                None => {
                    proof { lemma_appended_empty(r1); }
                    None
                },
            };
            proof { lemma_then_appended(r0, r1, *reporter, ta, tsz); }
            Ok(HirExpression {
                kind: HirExpressionKind::ArrayLiteral { elements: helems, size: hsize },
                ty: TypeKind::Array(Box::new(inner_type)),
                span,
                cursor,
            })
        },
    }
}

/// Lowers expressions in order, stopping at the first that cannot be lowered.
#[verifier::spinoff_prover]
fn ast_to_hir_exprs(table: &SymbolsTable, reporter: &mut Reporter, es: Vec<Expression>) -> (r: DiagnosticResult<Vec<HirExpression>>)
    requires
        lowerable(exprs_trace(es@, values(*table))),
    ensures
        appended(*old(reporter), *final(reporter), exprs_trace(es@, values(*table)).reports),
        match exprs_trace(es@, values(*table)).failure {
            None => r matches Ok(hs) && hs@.len() == es@.len() && forall|i: int|
                0 <= i < es@.len() ==> lowers_expr(#[trigger] es@[i], hs@[i], values(*table)),
            Some(f) => r matches Err(d) && failure_report(f, d),
        },
    decreases es,
{
    let ghost n = values(*table);
    let ghost orig = es@;
    let ghost r0 = *reporter;
    proof {
        lemma_appended_empty(r0);
    }
    let total = es.len();
    let mut rest = es;
    let mut out: Vec<HirExpression> = Vec::new();
    let mut i: usize = 0;
    assert(orig.take(0) =~= Seq::<Expression>::empty());
    while rest.len() > 0
        invariant
            i + rest@.len() == orig.len(),
            rest@ == orig.skip(i as int),
            out@.len() == i,
            forall|j: int| 0 <= j < i ==> lowers_expr(#[trigger] orig[j], out@[j], n),
            exprs_trace(orig.take(i as int), n).failure is None,
            appended(r0, *reporter, exprs_trace(orig.take(i as int), n).reports),
            lowerable(exprs_trace(orig, n)),
            n == values(*table),
            r0 == *old(reporter),
            es@ == orig,
            orig.len() == total,
        decreases rest.len(),
    {
        let x = rest.remove(0);
        assert(x == orig[i as int]);
        assert(orig.take(i + 1).drop_last() =~= orig.take(i as int));
        assert(orig.take(i + 1).last() == orig[i as int]);
        proof {
            lemma_exprs_prefix(orig, n, i + 1);
            assert(decreases_to!(es => es@[i as int]));
        }
        let ghost r1 = *reporter;
        match ast_to_hir_expr(table, reporter, x) {
            Ok(h) => {
                out.push(h);
                proof {
                    lemma_then_appended(r0, r1, *reporter, exprs_trace(orig.take(i as int), n), expr_trace(orig[i as int], n));
                }
            },
            Err(d) => {
                proof {
                    lemma_then_appended(r0, r1, *reporter, exprs_trace(orig.take(i as int), n), expr_trace(orig[i as int], n));
                    assert(exprs_trace(orig.take(i + 1), n) == then(exprs_trace(orig.take(i as int), n), expr_trace(orig[i as int], n)));
                    assert(exprs_trace(orig.take(i + 1), n).failure is Some);
                    assert(exprs_trace(orig, n) == exprs_trace(orig.take(i + 1), n));
                    assert(appended(r0, *reporter, exprs_trace(orig, n).reports));
                }
                return Err(d);
            },
        }
        i = i + 1;
    }
    assert(orig.take(i as int) =~= orig);
    Ok(out)
}

/// Once a prefix of the expressions stops lowering, the whole stops there too.
proof fn lemma_exprs_prefix(s: Seq<Expression>, n: nat, k: int)
    requires
        0 <= k <= s.len(),
    ensures
        exprs_trace(s.take(k), n).failure is Some ==> exprs_trace(s, n) == exprs_trace(s.take(k), n),
    decreases s.len() - k,
{
    if k < s.len() {
        lemma_exprs_prefix(s, n, k + 1);
        assert(s.take(k + 1).drop_last() =~= s.take(k));
    } else {
        assert(s.take(k) =~= s);
    }
}

/// Once a prefix of the branches stops lowering, the whole stops there too.
proof fn lemma_branches_prefix(s: Seq<ConditionalBranch>, n: nat, k: int)
    requires
        0 <= k <= s.len(),
    ensures
        branches_trace(s.take(k), n).failure is Some ==> branches_trace(s, n) == branches_trace(s.take(k), n),
    decreases s.len() - k,
{
    if k < s.len() {
        lemma_branches_prefix(s, n, k + 1);
        assert(s.take(k + 1).drop_last() =~= s.take(k));
    } else {
        assert(s.take(k) =~= s);
    }
}

/// Once a prefix of the statements stops lowering, the whole stops there too.
proof fn lemma_stmts_prefix(s: Seq<Statement>, n: nat, k: int)
    requires
        0 <= k <= s.len(),
    ensures
        stmts_trace(s.take(k), n).failure is Some ==> stmts_trace(s, n) == stmts_trace(s.take(k), n),
    decreases s.len() - k,
{
    if k < s.len() {
        lemma_stmts_prefix(s, n, k + 1);
        assert(s.take(k + 1).drop_last() =~= s.take(k));
    } else {
        assert(s.take(k) =~= s);
    }
}

/// Lowers the `else if` branches of an `if`, in order: each condition, then its body.
#[verifier::spinoff_prover]
fn ast_to_hir_branches(table: &SymbolsTable, reporter: &mut Reporter, bs: Vec<ConditionalBranch>) -> (r: DiagnosticResult<Vec<HirConditionalBranch>>)
    requires
        lowerable(branches_trace(bs@, values(*table))),
    ensures
        appended(*old(reporter), *final(reporter), branches_trace(bs@, values(*table)).reports),
        match branches_trace(bs@, values(*table)).failure {
            None => r matches Ok(hs) && hs@.len() == bs@.len() && forall|i: int|
                0 <= i < bs@.len() ==> lowers_expr(#[trigger] bs@[i].condition, hs@[i].condition, values(*table))
                    && lowers_expr(bs@[i].body, hs@[i].body, values(*table)),
            Some(f) => r matches Err(d) && failure_report(f, d),
        },
    decreases bs,
{
    let ghost n = values(*table);
    let ghost orig = bs@;
    let ghost r0 = *reporter;
    proof {
        lemma_appended_empty(r0);
    }
    let total = bs.len();
    let mut rest = bs;
    let mut out: Vec<HirConditionalBranch> = Vec::new();
    let mut i: usize = 0;
    assert(orig.take(0) =~= Seq::<ConditionalBranch>::empty());
    while rest.len() > 0
        invariant
            i + rest@.len() == orig.len(),
            rest@ == orig.skip(i as int),
            out@.len() == i,
            forall|j: int| 0 <= j < i ==> lowers_expr(#[trigger] orig[j].condition, out@[j].condition, n)
                && lowers_expr(orig[j].body, out@[j].body, n),
            branches_trace(orig.take(i as int), n).failure is None,
            appended(r0, *reporter, branches_trace(orig.take(i as int), n).reports),
            lowerable(branches_trace(orig, n)),
            n == values(*table),
            r0 == *old(reporter),
            bs@ == orig,
            orig.len() == total,
        decreases rest.len(),
    {
        let branch = rest.remove(0);
        assert(branch == orig[i as int]);
        assert(orig.take(i + 1).drop_last() =~= orig.take(i as int));
        assert(orig.take(i + 1).last() == orig[i as int]);
        proof {
            lemma_branches_prefix(orig, n, i + 1);
            assert(decreases_to!(bs => bs@[i as int].condition));
            assert(decreases_to!(bs => bs@[i as int].body));
        }
        let ghost tp = branches_trace(orig.take(i as int), n);
        let ghost tc = expr_trace(orig[i as int].condition, n);
        let ghost tb = expr_trace(orig[i as int].body, n);
        let ConditionalBranch { condition, body } = branch;
        let ghost r1 = *reporter;
        let hc = match ast_to_hir_expr(table, reporter, condition) {
            Ok(h) => h,
            Err(d) => {
                proof {
                    lemma_then_appended(r0, r1, *reporter, tp, then(tc, tb));
                    assert(branches_trace(orig.take(i + 1), n) == then(tp, then(tc, tb)));
                    assert(branches_trace(orig, n) == branches_trace(orig.take(i + 1), n));
                    assert(appended(r0, *reporter, branches_trace(orig, n).reports));
                }
                return Err(d);
            },
        };
        let ghost r2 = *reporter;
        let hb = match ast_to_hir_expr(table, reporter, body) {
            Ok(h) => h,
            Err(d) => {
                proof {
                    lemma_then_appended(r1, r2, *reporter, tc, tb);
                    lemma_then_appended(r0, r1, *reporter, tp, then(tc, tb));
                    assert(branches_trace(orig.take(i + 1), n) == then(tp, then(tc, tb)));
                    assert(branches_trace(orig, n) == branches_trace(orig.take(i + 1), n));
                    assert(appended(r0, *reporter, branches_trace(orig, n).reports));
                }
                return Err(d);
            },
        };
        proof {
            lemma_then_appended(r1, r2, *reporter, tc, tb);
            lemma_then_appended(r0, r1, *reporter, tp, then(tc, tb));
        }
        out.push(HirConditionalBranch { condition: hc, body: hb });
        i = i + 1;
    }
    assert(orig.take(i as int) =~= orig);
    Ok(out)
}

/// Lowers statements in order, leaving out the end of the file, stopping at the first that
/// cannot be lowered.
#[verifier::spinoff_prover]
#[verifier::rlimit(30)]
fn ast_to_hir_stmts(table: &SymbolsTable, reporter: &mut Reporter, ss: Vec<Statement>) -> (r: DiagnosticResult<Vec<HirStatement>>)
    requires
        lowerable(stmts_trace(ss@, values(*table))),
    ensures
        appended(*old(reporter), *final(reporter), stmts_trace(ss@, values(*table)).reports),
        match stmts_trace(ss@, values(*table)).failure {
            None => r matches Ok(hs) && lowers_stmts(ss@, hs@, values(*table)),
            Some(f) => r matches Err(d) && failure_report(f, d),
        },
    decreases ss,
{
    let ghost n = values(*table);
    let ghost orig = ss@;
    let ghost r0 = *reporter;
    proof {
        lemma_appended_empty(r0);
    }
    let total = ss.len();
    let mut rest = ss;
    let mut out: Vec<HirStatement> = Vec::new();
    let mut i: usize = 0;
    assert(orig.take(0) =~= Seq::<Statement>::empty());
    while rest.len() > 0
        invariant
            i + rest@.len() == orig.len(),
            rest@ == orig.skip(i as int),
            lowers_stmts(orig.take(i as int), out@, n),
            stmts_trace(orig.take(i as int), n).failure is None,
            appended(r0, *reporter, stmts_trace(orig.take(i as int), n).reports),
            lowerable(stmts_trace(orig, n)),
            n == values(*table),
            r0 == *old(reporter),
            ss@ == orig,
            orig.len() == total,
        decreases rest.len(),
    {
        let x = rest.remove(0);
        assert(x == orig[i as int]);
        assert(orig.take(i + 1).drop_last() =~= orig.take(i as int));
        assert(orig.take(i + 1).last() == orig[i as int]);
        proof {
            lemma_stmts_prefix(orig, n, i + 1);
            assert(decreases_to!(ss => ss@[i as int]));
        }
        let ghost r1 = *reporter;
        let ghost prev = out@;
        match ast_to_hir_stmt(table, reporter, x) {
            Ok(o) => {
                proof {
                    lemma_then_appended(r0, r1, *reporter, stmts_trace(orig.take(i as int), n), stmt_trace(orig[i as int], n));
                }
                match o {
                    Some(h) => {
                        out.push(h);
                        assert(out@.drop_last() =~= prev);
                    },
                    None => {},
                }
            },
            Err(d) => {
                proof {
                    lemma_then_appended(r0, r1, *reporter, stmts_trace(orig.take(i as int), n), stmt_trace(orig[i as int], n));
                    assert(stmts_trace(orig.take(i + 1), n) == then(stmts_trace(orig.take(i as int), n), stmt_trace(orig[i as int], n)));
                    assert(stmts_trace(orig, n) == stmts_trace(orig.take(i + 1), n));
                    assert(appended(r0, *reporter, stmts_trace(orig, n).reports));
                }
                return Err(d);
            },
        }
        i = i + 1;
    }
    assert(orig.take(i as int) =~= orig);
    Ok(out)
}

/// Lowers a statement; the end of the file lowers to nothing. Parameters whose names resolve
/// to no symbol are reported and left out.
#[verifier::spinoff_prover]
pub fn ast_to_hir_stmt(table: &SymbolsTable, reporter: &mut Reporter, stmt: Statement) -> (r: DiagnosticResult<Option<HirStatement>>)
    requires
        lowerable(stmt_trace(stmt, values(*table))),
    ensures
        appended(*old(reporter), *final(reporter), stmt_trace(stmt, values(*table)).reports),
        match stmt_trace(stmt, values(*table)).failure {
            None => r matches Ok(o) && (stmt.kind is EndOfFile ==> o is None) && (!(stmt.kind is EndOfFile) ==> (o matches Some(
                h,
            ) && lowers_stmt(stmt, h, values(*table)))),
            Some(f) => r matches Err(d) && failure_report(f, d),
        },
    decreases stmt,
{
    let ghost n = values(*table);
    let ghost r0 = *reporter;
    proof {
        lemma_appended_empty(r0);
    }
    let ghost st = stmt;
    let Statement { kind, span, cursor } = stmt;
    let hkind = match kind {
        StatementKind::While { .. } => {
            proof {
                assert(false);
            }
            return Ok(None);
        },
        StatementKind::Import { .. } => {
            proof {
                assert(false);
            }
            return Ok(None);
        },
        StatementKind::ClassDecl(_) => {
            proof {
                assert(false);
            }
            return Ok(None);
        },
        StatementKind::EndOfFile => {
            return Ok(None);
        },
        StatementKind::Expression { inner } => {
            let hi = match ast_to_hir_expr(table, reporter, inner) {
                Ok(h) => h,
                Err(d) => return Err(d),
            };
            HirStatementKind::Expression { inner: hi }
        },
        StatementKind::Continue { label } => {
            let hl = match label {
                Some(l) => match unwrap_ast_symbol(table, &l) {
                    Ok(id) => Some(id),
                    Err(d) => return Err(d),
                },
                None => None,
            };
            HirStatementKind::Continue { label: hl }
        },
        StatementKind::Break { label } => {
            let hl = match label {
                Some(l) => match unwrap_ast_symbol(table, &l) {
                    Ok(id) => Some(id),
                    Err(d) => return Err(d),
                },
                None => None,
            };
            HirStatementKind::Break { label: hl }
        },
        StatementKind::Return { value } => {
            let hv = match value {
                Some(v) => match ast_to_hir_expr(table, reporter, v) {
                    Ok(h) => Some(Box::new(h)),
                    Err(d) => return Err(d),
                },
                None => None,
            };
            HirStatementKind::Return { value: hv }
        },
        StatementKind::FuncDecl(decl) => {
            let ghost tp = LoweringTrace { reports: params_reports(decl.parameters@, n), failure: None };
            let ghost tb = opt_expr_trace(decl.body, n);
            let ghost ts = symbol_trace(decl.symbol, n);
            let parameters = ast_to_hir_params(table, reporter, decl.parameters);
            let ghost r1 = *reporter;
            let body = match decl.body {
                Some(b) => match ast_to_hir_expr(table, reporter, *b) {
                    Ok(h) => Some(Box::new(h)),
                    Err(d) => {
                        proof { lemma_then_appended(r0, r1, *reporter, tp, tb); }
                        return Err(d);
                    },
                },
                None => {
                    proof { lemma_appended_empty(r1); }
                    None
                },
            };
            proof {
                lemma_then_appended(r0, r1, *reporter, tp, tb);
                lemma_then_empty(then(tp, tb));
            }
            let return_type = match decl.return_type {
                Some(t) => t,
                None => Type { kind: TypeKind::Unknown, span, cursor },
            };
            let symbol_id = match unwrap_ast_symbol(table, &decl.symbol) {
                Ok(id) => id,
                Err(d) => return Err(d),
            };
            HirStatementKind::FuncDecl(
                HirFuncDecl { visibility: decl.visibility, symbol_id, parameters, return_type, body },
            )
        },
        StatementKind::VarDecl(decl) => {
            let ghost tv = opt_expr_trace(decl.value, n);
            let value = match decl.value {
                Some(v) => match ast_to_hir_expr(table, reporter, *v) {
                    Ok(h) => Some(Box::new(h)),
                    Err(d) => return Err(d),
                },
                None => {
                    proof { lemma_appended_empty(r0); }
                    None
                },
            };
            proof {
                lemma_then_empty(tv);
            }
            let symbol_id = match unwrap_ast_symbol(table, &decl.symbol) {
                Ok(id) => id,
                Err(d) => return Err(d),
            };
            let ty = match decl.ty {
                Some(t) => t,
                None => Type { kind: TypeKind::Unknown, span, cursor },
            };
            HirStatementKind::VarDecl(
                HirVarDecl { visibility: decl.visibility, mutable: decl.mutable, symbol_id, ty, value },
            )
        },
    };
    Ok(Some(HirStatement { kind: hkind, span, cursor }))
}

/// Lowers the parameters of a function: those whose names resolve are kept, in order; the
/// others are reported.
#[verifier::spinoff_prover]
fn ast_to_hir_params(table: &SymbolsTable, reporter: &mut Reporter, ps: Vec<Parameter>) -> (r: Vec<HirParameter>)
    ensures
        appended(*old(reporter), *final(reporter), params_reports(ps@, values(*table))),
        lowers_params(ps@, values(*table), r@),
{
    let ghost n = values(*table);
    let ghost orig = ps@;
    let ghost r0 = *reporter;
    proof {
        lemma_appended_empty(r0);
    }
    let total = ps.len();
    let mut rest = ps;
    let mut out: Vec<HirParameter> = Vec::new();
    let mut i: usize = 0;
    assert(orig.take(0) =~= Seq::<Parameter>::empty());
    while rest.len() > 0
        invariant
            i + rest@.len() == orig.len(),
            rest@ == orig.skip(i as int),
            lowers_params(orig.take(i as int), n, out@),
            appended(r0, *reporter, params_reports(orig.take(i as int), n)),
            n == values(*table),
            r0 == *old(reporter),
            orig.len() == total,
        decreases rest.len(),
    {
        let p = rest.remove(0);
        assert(p == orig[i as int]);
        assert(orig.take(i + 1).drop_last() =~= orig.take(i as int));
        assert(orig.take(i + 1).last() == orig[i as int]);
        let ghost prev = out@;
        let ghost r1 = *reporter;
        match unwrap_ast_symbol(table, &p.symbol) {
            Ok(symbol_id) => {
                out.push(HirParameter { symbol_id, mutable: p.mutable, ty: p.ty, span: p.span, cursor: p.cursor });
                assert(out@.drop_last() =~= prev);
                assert(params_reports(orig.take(i + 1), n) =~= params_reports(orig.take(i as int), n));
            },
            Err(d) => {
                reporter.report(d);
                proof {
                    lemma_appended_trans(r0, r1, *reporter, params_reports(orig.take(i as int), n), seq![d]);
                }
            },
        }
        i = i + 1;
    }
    assert(orig.take(i as int) =~= orig);
    out
}

/// The lowered statements of a source: those that lower, in order, without the end of the file.
pub open spec fn lowered_program(ss: Seq<Statement>, n: nat, hs: Seq<HirStatement>) -> bool
    decreases ss.len(),
{
    if ss.len() == 0 {
        hs.len() == 0
    } else if stmt_trace(ss.last(), n).failure is Some || ss.last().kind is EndOfFile {
        lowered_program(ss.drop_last(), n, hs)
    } else {
        &&& hs.len() > 0
        &&& lowers_stmt(ss.last(), hs.last(), n)
        &&& lowered_program(ss.drop_last(), n, hs.drop_last())
    }
}

/// What lowering a source reports: for each statement in order, what lowering it reported
/// on the way, then the report of the failure that stopped it, if any.
pub open spec fn lowering_reports(ss: Seq<Statement>, n: nat, ds: Seq<DiagnosticReport>) -> bool
    decreases ss.len(),
{
    if ss.len() == 0 {
        ds.len() == 0
    } else {
        let t = stmt_trace(ss.last(), n);
        let m = t.reports.len() + if t.failure is Some {
            1nat
        } else {
            0nat
        };
        &&& ds.len() >= m
        &&& lowering_reports(ss.drop_last(), n, ds.take(ds.len() - m))
        &&& ds.subrange(ds.len() - m, ds.len() - m + t.reports.len()) == t.reports
        &&& (t.failure matches Some(f) ==> failure_report(f, ds.last()))
    }
}

/// Lowering can run on `ctx`: its code is a syntax tree, no statement of which reaches a loop,
/// an import or a class declaration.
#[verifier::opaque]
pub open spec fn lowering_ready(ctx: AnalyzerContext) -> bool {
    &&& ctx.input.code is Ast
    &&& forall|i: int|
        0 <= i < ast_statements(ctx.input.code).len() ==> lowerable(
            stmt_trace(#[trigger] ast_statements(ctx.input.code)[i], values(ctx.symbol_table)),
        )
}

/// `after` is `before` with its syntax tree lowered (see `lowered_program`), its reporter
/// having filed `ds` (see `lowering_reports`).
#[verifier::opaque]
pub open spec fn lowering_done(before: AnalyzerContext, after: AnalyzerContext, ds: Seq<DiagnosticReport>) -> bool {
    &&& after.input.source == before.input.source
    &&& after.symbol_table == before.symbol_table
    &&& after.input.code matches ParsedCodeKind::Hir(h) && lowered_program(
        ast_statements(before.input.code),
        values(before.symbol_table),
        h.statements@,
    )
    &&& lowering_reports(ast_statements(before.input.code), values(before.symbol_table), ds)
    &&& appended(before.reporter, after.reporter, ds)
}

/// The stage that lowers the syntax tree to HIR.
#[derive(Debug)]
pub struct AstLoweringStage;

impl AstLoweringStage {
    pub fn name(&self) -> (r: &'static str)
        ensures
            r@ == "AstLowering"@,
    {
        "AstLowering"
    }

    /// Lowers each statement of the source's syntax tree; a statement that cannot be lowered
    /// is reported and left out. The code becomes the HIR.
    #[verifier::spinoff_prover]
    #[verifier::rlimit(40)]
    pub fn run(&mut self, ctx: &mut AnalyzerContext) -> (r: bool)
        requires
            lowering_ready(*old(ctx)),
        ensures
            r,
            exists|ds: Seq<DiagnosticReport>| lowering_done(*old(ctx), *final(ctx), ds),
    {
        proof {
            reveal(lowering_ready);
        }
        let ghost n = values(ctx.symbol_table);
        let ghost r0 = ctx.reporter;
        let mut code = ParsedCodeKind::Hir(Hir::new());
        std::mem::swap(&mut code, &mut ctx.input.code);
        let statements = match code {
            ParsedCodeKind::Ast(ast) => ast.statements,
            _ => {
                proof {
                    assert(false);
                }
                Vec::new()
            },
        };
        let ghost orig = statements@;
        let total = statements.len();
        let mut hir = Hir::with_capacity(total);
        let mut rest = statements;
        let mut i: usize = 0;
        let ghost mut ds: Seq<DiagnosticReport> = Seq::empty();
        proof {
            lemma_appended_empty(r0);
            assert(orig.take(0) =~= Seq::<Statement>::empty());
        }
        while rest.len() > 0
            invariant
                i + rest@.len() == orig.len(),
                orig.len() == total,
                rest@ == orig.skip(i as int),
                forall|j: int| 0 <= j < orig.len() ==> lowerable(stmt_trace(#[trigger] orig[j], n)),
                n == values(ctx.symbol_table),
                lowered_program(orig.take(i as int), n, hir.statements@),
                appended(r0, ctx.reporter, ds),
                lowering_reports(orig.take(i as int), n, ds),
                ctx.input.source == old(ctx).input.source,
                ctx.symbol_table == old(ctx).symbol_table,
                r0 == old(ctx).reporter,
            decreases rest.len(),
        {
            let s = rest.remove(0);
            assert(s == orig[i as int]);
            assert(orig.take(i + 1).drop_last() =~= orig.take(i as int));
            assert(orig.take(i + 1).last() == orig[i as int]);
            let ghost t = stmt_trace(orig[i as int], n);
            let ghost r1 = ctx.reporter;
            let ghost prev = hir.statements@;
            match ast_to_hir_stmt(&ctx.symbol_table, &mut ctx.reporter, s) {
                Ok(Some(h)) => {
                    hir.statements.push(h);
                    assert(hir.statements@.drop_last() =~= prev);
                },
                Ok(None) => {},
                Err(d) => {
                    let ghost r2 = ctx.reporter;
                    ctx.reporter.report(d);
                    proof {
                        lemma_appended_trans(r1, r2, ctx.reporter, t.reports, seq![d]);
                    }
                },
            }
            proof {
                let added = if t.failure is Some {
                    t.reports + seq![ctx.reporter.spec_entries().last().diagnostic]
                } else {
                    t.reports
                };
                if t.failure is None {
                    assert(appended(r1, ctx.reporter, added));
                }
                lemma_appended_trans(r0, r1, ctx.reporter, ds, added);
                let nds = ds + added;
                let m = added.len();
                assert(nds.take(nds.len() - m) =~= ds);
                assert(nds.subrange(nds.len() - m, nds.len() - m + t.reports.len()) =~= t.reports);
                ds = nds;
            }
            i = i + 1;
        }
        proof {
            assert(orig.take(i as int) =~= orig);
            assert(ast_statements(old(ctx).input.code) == orig);
        }
        ctx.input.code = ParsedCodeKind::Hir(hir);
        proof {
            reveal(lowering_done);
            assert(appended(old(ctx).reporter, ctx.reporter, ds) && lowering_reports(orig, n, ds));
            assert(lowering_done(*old(ctx), *ctx, ds));
        }
        true
    }
}

/// Whether lowering can run does not depend on the reporter of the context.
pub proof fn lemma_lowering_ready_frame(a: AnalyzerContext, a2: AnalyzerContext)
    requires
        a.input == a2.input,
        a.symbol_table == a2.symbol_table,
    ensures
        lowering_ready(a) == lowering_ready(a2),
{
    reveal(lowering_ready);
}

} // verus!
