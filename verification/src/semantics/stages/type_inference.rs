use vstd::prelude::*;

use crate::ast::operators::UnaryOperator;
use crate::ast::types::{
    lemma_same_type_refl, lemma_same_type_symm, lemma_same_type_trans, same_type, same_types, spec_promote_distinct,
    Type, TypeKind,
};
use crate::semantics::hir::expressions::{literal_type, HirExpression, HirExpressionKind};
use crate::semantics::hir::statements::{HirFuncDecl, HirParameter, HirStatement, HirStatementKind, HirVarDecl};
use crate::semantics::hir::{Hir, HirConditionalBranch};
use crate::semantics::ctx::AnalyzerContext;
use crate::semantics::source::ParsedCodeKind;
use crate::semantics::stages::name_resolution::lemma_enter_leave;
use crate::semantics::symbol::{SymbolTable, SymbolsTable, TableView, ValueSymbol};

verus! {

/// The value types as type inference sees them, the number of open scopes, and whether
/// inference can go no further (a class declaration, which it does not handle, a symbol index
/// the table does not hold, or too many nested scopes).
pub struct TiState {
    pub types: Seq<TypeKind>,
    pub depth: nat,
    pub stuck: bool,
}

/// A state after inferring something, and the type found.
pub struct TiResult {
    pub state: TiState,
    pub ty: TypeKind,
}

pub open spec fn ti_stuck(st: TiState) -> TiState {
    TiState { types: st.types, depth: st.depth, stuck: true }
}

pub open spec fn ti_enter(st: TiState) -> TiState {
    if st.stuck {
        st
    } else if st.depth >= u16::MAX {
        ti_stuck(st)
    } else {
        TiState { types: st.types, depth: st.depth + 1, stuck: false }
    }
}

pub open spec fn ti_leave(st: TiState) -> TiState {
    if st.stuck {
        st
    } else {
        TiState { types: st.types, depth: (st.depth - 1) as nat, stuck: false }
    }
}

/// The symbol `id` is given the type `ty`.
pub open spec fn ti_set(st: TiState, id: usize, ty: TypeKind) -> TiState {
    if st.stuck {
        st
    } else if id >= st.types.len() {
        ti_stuck(st)
    } else {
        TiState { types: st.types.update(id as int, ty), depth: st.depth, stuck: false }
    }
}

/// The type of a binary operation on `l` and `r`: the type itself where they are the same,
/// else their promotion, or unknown.
pub open spec fn spec_from_tuple(l: TypeKind, r: TypeKind) -> TypeKind {
    if same_type(l, r) {
        l
    } else {
        match spec_promote_distinct(l, r) {
            Some(t) => t,
            None => TypeKind::Unknown,
        }
    }
}

/// A function type with parameters of the types `params` returning `ret`.
pub open spec fn is_fn_type(t: TypeKind, params: Seq<TypeKind>, ret: TypeKind) -> bool {
    t matches TypeKind::Function { param_types, return_type } && same_types(param_types@, params) && same_type(
        *return_type,
        ret,
    )
}

pub open spec fn fn_type_of(params: Seq<TypeKind>, ret: TypeKind) -> TypeKind {
    choose|t: TypeKind| is_fn_type(t, params, ret)
}

/// The types of the symbols of `ps`; stuck if one of them is not in the table.
pub open spec fn param_types(st: TiState, ps: Seq<HirParameter>) -> Seq<TypeKind> {
    Seq::new(ps.len(), |i: int| st.types[ps[i].symbol_id as int])
}

pub open spec fn params_known(st: TiState, ps: Seq<HirParameter>) -> bool {
    forall|i: int| 0 <= i < ps.len() ==> (#[trigger] ps[i]).symbol_id < st.types.len()
}

/// The type of an expression, as inference finds it: a literal's, the operand's for a unary
/// operator (made signed by negation; `bool` for `not`), the operands' promotion for a binary
/// operator, the element type of an indexed array, the first branch's for an `if`, the
/// return type of a called function, the symbol's for a variable, that of the first
/// `return` for a scope; otherwise the type the expression already has.
pub open spec fn ti_expr(st: TiState, e: HirExpression) -> TiResult
    decreases e, 2nat,
{
    if st.stuck {
        TiResult { state: st, ty: e.ty }
    } else {
        match e.kind {
            HirExpressionKind::Literal { kind } => TiResult { state: st, ty: literal_type(kind) },
            HirExpressionKind::Unary { operator, value } => {
                let a = ti_expr(st, *value);
                TiResult {
                    state: a.state,
                    ty: match operator {
                        UnaryOperator::Negative => a.ty.spec_as_signed(),
                        UnaryOperator::Not => TypeKind::Bool,
                        _ => a.ty,
                    },
                }
            },
            HirExpressionKind::Binary { left, right, .. } => {
                let a = ti_expr(st, *left);
                let b = ti_expr(a.state, *right);
                TiResult { state: b.state, ty: spec_from_tuple(a.ty, b.ty) }
            },
            HirExpressionKind::ArrayGet { array, .. } => {
                let a = ti_expr(st, *array);
                TiResult {
                    state: a.state,
                    ty: match a.ty {
                        TypeKind::Array(el) => *el,
                        _ => TypeKind::Unknown,
                    },
                }
            },
            HirExpressionKind::Get { object, .. } => {
                let a = ti_expr(st, *object);
                TiResult { state: a.state, ty: TypeKind::Unknown }
            },
            HirExpressionKind::Group { inner } => ti_expr(st, *inner),
            HirExpressionKind::If { main_expr, branches, else_expr } => {
                let c = ti_expr(st, main_expr.condition);
                let b = ti_expr(c.state, main_expr.body);
                let bs = ti_branches(b.state, branches@);
                let el = match else_expr {
                    Some(x) => ti_expr(bs, *x).state,
                    None => bs,
                };
                TiResult { state: el, ty: b.ty }
            },
            HirExpressionKind::Invoke { callee, .. } => {
                let a = ti_expr(st, *callee);
                TiResult {
                    state: a.state,
                    ty: match a.ty {
                        TypeKind::Function { return_type, .. } => *return_type,
                        _ => TypeKind::Unknown,
                    },
                }
            },
            HirExpressionKind::Variable { symbol_id } => TiResult {
                state: st,
                ty: if symbol_id < st.types.len() {
                    st.types[symbol_id as int]
                } else {
                    TypeKind::Unknown
                },
            },
            HirExpressionKind::Scope { statements, .. } => {
                let inner = ti_statements(ti_enter(st), statements@);
                TiResult { state: ti_leave(inner.state), ty: inner.ty }
            },
            _ => TiResult { state: st, ty: e.ty },
        }
    }
}

/// Negation gives a signed type: negating a value of an unsigned integer type gives the
/// signed integer type of the same width, negating anything else keeps its type, and so the
/// type of a negation is never an unsigned integer type.
pub proof fn lemma_negation_is_signed(st: TiState, e: HirExpression)
    requires
        !st.stuck,
        e.kind matches HirExpressionKind::Unary { operator, .. } && operator == UnaryOperator::Negative,
    ensures
        match e.kind {
            HirExpressionKind::Unary { value, .. } => {
                let v = ti_expr(st, *value).ty;
                let r = ti_expr(st, e).ty;
                &&& !r.spec_is_uint()
                &&& v == TypeKind::UInt8 ==> r == TypeKind::Int8
                &&& v == TypeKind::UInt16 ==> r == TypeKind::Int16
                &&& v == TypeKind::UInt32 ==> r == TypeKind::Int32
                &&& v == TypeKind::UInt64 ==> r == TypeKind::Int64
                &&& !v.spec_is_uint() ==> r == v
                &&& ti_expr(st, e).state == ti_expr(st, *value).state
            },
            _ => false,
        },
{
}

pub open spec fn ti_branches(st: TiState, bs: Seq<HirConditionalBranch>) -> TiState
    decreases bs, 0nat,
{
    if st.stuck || bs.len() == 0 {
        st
    } else {
        let a = ti_branches(st, bs.drop_last());
        ti_expr(ti_expr(a, bs.last().condition).state, bs.last().body).state
    }
}

/// Inference over a scope's statements: each is analysed in turn, up to the first `return`
/// with a value, whose value gives the type; without one, the type is the unit type.
pub open spec fn ti_statements(st: TiState, ss: Seq<HirStatement>) -> TiResult
    decreases ss, 0nat,
{
    if st.stuck {
        TiResult { state: st, ty: TypeKind::Unit }
    } else if ss.len() == 0 {
        TiResult { state: st, ty: TypeKind::Unit }
    } else {
        let a = ti_stmt(st, ss[0]);
        match ss[0].kind {
            HirStatementKind::Return { value: Some(v) } => ti_expr(a, *v),
            _ => ti_statements(a, ss.drop_first()),
        }
    }
}

/// Where `e` is a scope, its statements are analysed inside a scope of the tables.
pub open spec fn ti_scope(st: TiState, e: Option<Box<HirExpression>>) -> TiState
    decreases e, 3nat,
{
    match e {
        Some(x) => match x.kind {
            HirExpressionKind::Scope { statements, .. } => ti_leave(ti_statements(ti_enter(st), statements@).state),
            _ => st,
        },
        None => st,
    }
}

/// Inference over a statement: a variable without a type annotation gets the type of its
/// value (unknown without one); a function without a return type gets its parameters' types
/// and the type of its body (the unit type without one) as its type, and that return type.
/// Where the type is annotated, only a scope given as the value or body is analysed.
pub open spec fn ti_stmt(st: TiState, s: HirStatement) -> TiState
    decreases s, 1nat,
{
    if st.stuck {
        st
    } else {
        match s.kind {
            HirStatementKind::VarDecl(d) => if !(d.ty.kind is Unknown) {
                ti_scope(st, d.value)
            } else {
                let t = match d.value {
                    Some(v) => ti_expr(st, *v),
                    None => TiResult { state: st, ty: TypeKind::Unknown },
                };
                ti_set(t.state, d.symbol_id, t.ty)
            },
            HirStatementKind::FuncDecl(d) => if !(d.return_type.kind is Unknown) {
                ti_scope(st, d.body)
            } else {
                let inner = ti_enter(st);
                if !params_known(inner, d.parameters@) {
                    ti_stuck(inner)
                } else {
                    let rt = ti_body(inner, d.body);
                    ti_set(ti_leave(rt.state), d.symbol_id, fn_type_of(param_types(inner, d.parameters@), rt.ty))
                }
            },
            HirStatementKind::ClassDecl(_) => ti_stuck(st),
            _ => st,
        }
    }
}

/// The return type of a function body: that of its first `return` where the body is a
/// scope (analysed without a scope of its own), else that of the body.
pub open spec fn ti_body(st: TiState, body: Option<Box<HirExpression>>) -> TiResult
    decreases body, 3nat,
{
    match body {
        Some(b) => match b.kind {
            HirExpressionKind::Scope { statements, .. } => ti_statements(st, statements@),
            _ => ti_expr(st, *b),
        },
        None => TiResult { state: st, ty: TypeKind::Unit },
    }
}


/// `e2` is `e` with the types that inference finds set (see `ti_expr`): those of `e` and of
/// the sub-expressions inference visits.
pub open spec fn inferred_expr(st: TiState, e: HirExpression, e2: HirExpression) -> bool
    decreases e, 2nat,
{
    &&& e2.span == e.span
    &&& e2.cursor == e.cursor
    &&& same_type(e2.ty, ti_expr(st, e).ty)
    &&& match e.kind {
        HirExpressionKind::Unary { operator, value } => e2.kind matches HirExpressionKind::Unary {
            operator: o2,
            value: v2,
        } && o2 == operator && inferred_expr(st, *value, *v2),
        HirExpressionKind::Binary { left, operator, right } => e2.kind matches HirExpressionKind::Binary {
            left: l2,
            operator: o2,
            right: r2,
        } && o2 == operator && inferred_expr(st, *left, *l2) && inferred_expr(ti_expr(st, *left).state, *right, *r2),
        HirExpressionKind::ArrayGet { array, index } => e2.kind matches HirExpressionKind::ArrayGet {
            array: a2,
            index: i2,
        } && inferred_expr(st, *array, *a2) && i2 == index,
        HirExpressionKind::Get { object, property_symbol_id } => e2.kind matches HirExpressionKind::Get {
            object: o2,
            property_symbol_id: p2,
        } && p2 == property_symbol_id && inferred_expr(st, *object, *o2),
        HirExpressionKind::Group { inner } => e2.kind matches HirExpressionKind::Group { inner: i2 } && inferred_expr(
            st,
            *inner,
            *i2,
        ),
        HirExpressionKind::If { main_expr, branches, else_expr } => e2.kind matches HirExpressionKind::If {
            main_expr: m2,
            branches: b2,
            else_expr: x2,
        } && inferred_expr(st, main_expr.condition, m2.condition) && inferred_expr(
            ti_expr(st, main_expr.condition).state,
            main_expr.body,
            m2.body,
        ) && inferred_branches(
            ti_expr(ti_expr(st, main_expr.condition).state, main_expr.body).state,
            branches@,
            b2@,
        ) && match else_expr {
            Some(x) => x2 matches Some(y) && inferred_expr(
                ti_branches(ti_expr(ti_expr(st, main_expr.condition).state, main_expr.body).state, branches@),
                *x,
                *y,
            ),
            None => x2 is None,
        },
        HirExpressionKind::Invoke { callee, arguments } => e2.kind matches HirExpressionKind::Invoke {
            callee: c2,
            arguments: a2,
        } && a2 == arguments && inferred_expr(st, *callee, *c2),
        HirExpressionKind::Scope { statements, value } => e2.kind matches HirExpressionKind::Scope {
            statements: s2,
            value: v2,
        } && v2 == value && inferred_statements(ti_enter(st), statements@, s2@),
        _ => e2.kind == e.kind,
    }
}

pub open spec fn inferred_branches(st: TiState, bs: Seq<HirConditionalBranch>, bs2: Seq<HirConditionalBranch>) -> bool
    decreases bs, 0nat,
{
    &&& bs2.len() == bs.len()
    &&& forall|i: int|
        0 <= i < bs.len() ==> inferred_expr(ti_branches(st, bs.take(i)), #[trigger] bs[i].condition, bs2[i].condition)
            && inferred_expr(ti_expr(ti_branches(st, bs.take(i)), bs[i].condition).state, bs[i].body, bs2[i].body)
}

/// `ss2` is `ss` after inference over a scope's statements (see `ti_statements`): the
/// statements up to the first `return` with a value are analysed, that value is inferred, and
/// the statements after it are left as they are.
pub open spec fn inferred_statements(st: TiState, ss: Seq<HirStatement>, ss2: Seq<HirStatement>) -> bool
    decreases ss, 0nat,
{
    if ss.len() == 0 {
        ss2.len() == 0
    } else {
        &&& ss2.len() == ss.len()
        &&& match ss[0].kind {
            HirStatementKind::Return { value: Some(v) } => {
                &&& ss2[0].span == ss[0].span
                &&& ss2[0].cursor == ss[0].cursor
                &&& ss2[0].kind matches HirStatementKind::Return { value: Some(v2) } && inferred_expr(st, *v, *v2)
                &&& ss2.drop_first() == ss.drop_first()
            },
            _ => {
                &&& inferred_stmt(st, ss[0], ss2[0])
                &&& inferred_statements(ti_stmt(st, ss[0]), ss.drop_first(), ss2.drop_first())
            },
        }
    }
}

/// Where `e` is a scope, `e2` is it with its statements analysed and its type set.
pub open spec fn scope_inferred(st: TiState, e: Option<Box<HirExpression>>, e2: Option<Box<HirExpression>>) -> bool
    decreases e, 3nat,
{
    match e {
        Some(x) => match x.kind {
            HirExpressionKind::Scope { statements, value } => e2 matches Some(y) && y.span == x.span && y.cursor
                == x.cursor && (y.kind matches HirExpressionKind::Scope { statements: s2, value: v2 } && v2 == value
                && inferred_statements(ti_enter(st), statements@, s2@)) && same_type(
                y.ty,
                ti_statements(ti_enter(st), statements@).ty,
            ),
            _ => e2 == e,
        },
        None => e2 == e,
    }
}

/// The body of a function whose return type is inferred (see `ti_body`).
pub open spec fn body_inferred(st: TiState, e: Option<Box<HirExpression>>, e2: Option<Box<HirExpression>>) -> bool
    decreases e, 3nat,
{
    match e {
        Some(x) => match x.kind {
            HirExpressionKind::Scope { statements, value } => e2 matches Some(y) && y.span == x.span && y.cursor
                == x.cursor && (y.kind matches HirExpressionKind::Scope { statements: s2, value: v2 } && v2 == value
                && inferred_statements(st, statements@, s2@)) && same_type(y.ty, ti_statements(st, statements@).ty),
            _ => e2 matches Some(y) && inferred_expr(st, *x, *y),
        },
        None => e2 is None,
    }
}

/// `s2` is `s` after inference over it (see `ti_stmt`).
#[verifier::opaque]
pub open spec fn inferred_stmt(st: TiState, s: HirStatement, s2: HirStatement) -> bool
    decreases s, 1nat,
{
    &&& s2.span == s.span
    &&& s2.cursor == s.cursor
    &&& match s.kind {
        HirStatementKind::VarDecl(d) => s2.kind matches HirStatementKind::VarDecl(d2) && d2.visibility == d.visibility
            && d2.symbol_id == d.symbol_id && d2.mutable == d.mutable && d2.ty == d.ty && if !(d.ty.kind is Unknown) {
            scope_inferred(st, d.value, d2.value)
        } else {
            match d.value {
                Some(v) => d2.value matches Some(v2) && inferred_expr(st, *v, *v2),
                None => d2.value is None,
            }
        },
        HirStatementKind::FuncDecl(d) => s2.kind matches HirStatementKind::FuncDecl(d2) && d2.visibility == d.visibility
            && d2.symbol_id == d.symbol_id && d2.parameters == d.parameters && if !(d.return_type.kind is Unknown) {
            d2.return_type == d.return_type && scope_inferred(st, d.body, d2.body)
        } else {
            d2.return_type.span == d.return_type.span && d2.return_type.cursor == d.return_type.cursor && same_type(
                d2.return_type.kind,
                ti_body(ti_enter(st), d.body).ty,
            ) && body_inferred(ti_enter(st), d.body, d2.body)
        },
        _ => s2 == s,
    }
}

/// `st` describes the value types of the tables `t`.
pub open spec fn ti_agrees(st: TiState, t: SymbolsTable) -> bool {
    &&& t.wf()
    &&& !st.stuck
    &&& st.depth == t.depth
    &&& st.types.len() == t.value_table.spec_symbols().len()
    &&& forall|i: int| 0 <= i < st.types.len() ==> same_type(#[trigger] t.value_table.spec_symbols()[i].ty, st.types[i])
}

/// Inference changes nothing of the tables but the types of values.
pub open spec fn ti_frame(a: SymbolsTable, b: SymbolsTable) -> bool {
    &&& a.value_table.view() == b.value_table.view()
    &&& a.type_table.view() == b.type_table.view()
    &&& a.type_table.spec_symbols() == b.type_table.spec_symbols()
    &&& a.control_flow_table.view() == b.control_flow_table.view()
    &&& a.control_flow_table.spec_symbols() == b.control_flow_table.spec_symbols()
    &&& a.depth == b.depth
}

pub broadcast proof fn lemma_ti_stuck_expr(st: TiState, e: HirExpression)
    requires
        st.stuck,
    ensures
        #[trigger] ti_expr(st, e) == (TiResult { state: st, ty: e.ty }),
{
}

pub broadcast proof fn lemma_ti_stuck_branches(st: TiState, bs: Seq<HirConditionalBranch>)
    requires
        st.stuck,
    ensures
        #[trigger] ti_branches(st, bs) == st,
{
}

pub broadcast proof fn lemma_ti_stuck_statements(st: TiState, ss: Seq<HirStatement>)
    requires
        st.stuck,
    ensures
        #[trigger] ti_statements(st, ss) == (TiResult { state: st, ty: TypeKind::Unit }),
{
}

pub broadcast proof fn lemma_ti_stuck_stmt(st: TiState, s: HirStatement)
    requires
        st.stuck,
    ensures
        #[trigger] ti_stmt(st, s) == st,
{
}

pub broadcast proof fn lemma_ti_stuck_body(st: TiState, b: Option<Box<HirExpression>>)
    requires
        st.stuck,
    ensures
        (#[trigger] ti_body(st, b)).state == st,
{
}

pub broadcast group group_ti_stuck {
    lemma_ti_stuck_expr,
    lemma_ti_stuck_branches,
    lemma_ti_stuck_statements,
    lemma_ti_stuck_stmt,
    lemma_ti_stuck_body,
}

/// Negation's signed type respects `same_type`.
proof fn lemma_as_signed_congruent(a: TypeKind, b: TypeKind)
    requires
        same_type(a, b),
    ensures
        same_type(a.spec_as_signed(), b.spec_as_signed()),
{
    if !a.is_plain() {
        assert(!b.is_plain());
    }
}

/// Same-typed operands give same-typed results.
proof fn lemma_from_tuple_congruent(l: TypeKind, l2: TypeKind, r: TypeKind, r2: TypeKind)
    requires
        same_type(l, l2),
        same_type(r, r2),
    ensures
        same_type(spec_from_tuple(l, r), spec_from_tuple(l2, r2)),
{
    lemma_same_type_symm(l, l2);
    lemma_same_type_symm(r, r2);
    if same_type(l, r) {
        lemma_same_type_trans(l2, l, r);
        lemma_same_type_trans(l2, r, r2);
    } else {
        if same_type(l2, r2) {
            lemma_same_type_trans(l, l2, r2);
            lemma_same_type_trans(l, r2, r);
        }
        let p = spec_promote_distinct(l, r);
        assert(p == spec_promote_distinct(l2, r2));
        lemma_same_type_refl(spec_from_tuple(l, r));
    }
}

/// What `from_tuple` computes is the operation's type.
proof fn lemma_from_tuple_exec(l: TypeKind, r: TypeKind, out: TypeKind)
    requires
        same_type(l, r) ==> same_type(out, l),
        !same_type(l, r) ==> out == match spec_promote_distinct(l, r) {
            Some(t) => t,
            None => TypeKind::Unknown,
        },
    ensures
        same_type(out, spec_from_tuple(l, r)),
{
    if !same_type(l, r) {
        lemma_same_type_refl(out);
    }
}

/// Gives the symbol `id` the type `ty`.
fn set_symbol_type(table: &mut SymbolsTable, id: usize, ty: TypeKind, Ghost(st): Ghost<TiState>, Ghost(spec_ty): Ghost<TypeKind>)
    requires
        ti_agrees(st, *old(table)),
        !ti_set(st, id, spec_ty).stuck,
        same_type(ty, spec_ty),
    ensures
        ti_agrees(ti_set(st, id, spec_ty), *final(table)),
        ti_frame(*old(table), *final(table)),
{
    let ghost before = table.value_table.spec_symbols();
    table.value_table.set_type(id, ty);
    proof {
        let after = ti_set(st, id, spec_ty);
        assert forall|i: int| 0 <= i < after.types.len() implies same_type(
            #[trigger] table.value_table.spec_symbols()[i].ty,
            after.types[i],
        ) by {
            if i != id {
                assert(table.value_table.spec_symbols()[i] == before[i]);
            }
        }
    }
}

fn ti_enter_exec(table: &mut SymbolsTable, Ghost(st): Ghost<TiState>)
    requires
        ti_agrees(st, *old(table)),
        !ti_enter(st).stuck,
    ensures
        ti_agrees(ti_enter(st), *final(table)),
        final(table).depth == old(table).depth + 1,
        final(table).value_table.view() == old(table).value_table.view().enter(),
        final(table).type_table.view() == old(table).type_table.view().enter(),
        final(table).control_flow_table.view() == old(table).control_flow_table.view().enter(),
        final(table).type_table.spec_symbols() == old(table).type_table.spec_symbols(),
        final(table).control_flow_table.spec_symbols() == old(table).control_flow_table.spec_symbols(),
{
    table.enter_scope();
}

fn ti_leave_exec(table: &mut SymbolsTable, Ghost(st): Ghost<TiState>)
    requires
        ti_agrees(st, *old(table)),
        old(table).depth > 0,
    ensures
        ti_agrees(ti_leave(st), *final(table)),
        final(table).depth == old(table).depth - 1,
        final(table).value_table.view() == old(table).value_table.view().leave(),
        final(table).type_table.view() == old(table).type_table.view().leave(),
        final(table).control_flow_table.view() == old(table).control_flow_table.view().leave(),
        final(table).type_table.spec_symbols() == old(table).type_table.spec_symbols(),
        final(table).control_flow_table.spec_symbols() == old(table).control_flow_table.spec_symbols(),
{
    table.leave_scope();
}

/// Entering a scope, doing what keeps the views, and leaving it gives back the frame.
proof fn lemma_frame_scope(a: SymbolsTable, b: SymbolsTable, c: SymbolsTable, d: SymbolsTable)
    requires
        b.value_table.view() == a.value_table.view().enter(),
        b.type_table.view() == a.type_table.view().enter(),
        b.control_flow_table.view() == a.control_flow_table.view().enter(),
        b.type_table.spec_symbols() == a.type_table.spec_symbols(),
        b.control_flow_table.spec_symbols() == a.control_flow_table.spec_symbols(),
        b.depth == a.depth + 1,
        ti_frame(b, c),
        d.value_table.view() == c.value_table.view().leave(),
        d.type_table.view() == c.type_table.view().leave(),
        d.control_flow_table.view() == c.control_flow_table.view().leave(),
        d.type_table.spec_symbols() == c.type_table.spec_symbols(),
        d.control_flow_table.spec_symbols() == c.control_flow_table.spec_symbols(),
        d.depth == c.depth - 1,
    ensures
        ti_frame(a, d),
{
    lemma_enter_leave(a.value_table.view());
    lemma_enter_leave(a.type_table.view());
    lemma_enter_leave(a.control_flow_table.view());
}

/// The state after inferring an `else` branch, if there is one.
pub open spec fn ti_else(st: TiState, x: Option<Box<HirExpression>>) -> TiState {
    match x {
        Some(e) => ti_expr(st, *e).state,
        None => st,
    }
}

/// The type of a variable's value (unknown without one).
pub open spec fn var_value_type(st: TiState, value: Option<Box<HirExpression>>) -> TiResult {
    match value {
        Some(v) => ti_expr(st, *v),
        None => TiResult { state: st, ty: TypeKind::Unknown },
    }
}

/// The state after analysing the first `j` statements of `ss`.
pub open spec fn ti_prefix(st: TiState, ss: Seq<HirStatement>, j: nat) -> TiState
    decreases j,
{
    if j == 0 {
        st
    } else {
        ti_stmt(ti_prefix(st, ss, (j - 1) as nat), ss[j - 1])
    }
}

pub open spec fn returns_value(s: HirStatement) -> bool {
    s.kind matches HirStatementKind::Return { value: Some(_) }
}

/// The value of a `return` statement.
pub open spec fn return_value(s: HirStatement) -> HirExpression {
    match s.kind {
        HirStatementKind::Return { value: Some(v) } => *v,
        _ => *s.kind->Return_value->0,
    }
}

/// Statements before the first `return` with a value only pass the state along.
proof fn lemma_statements_skip(st: TiState, ss: Seq<HirStatement>, i: nat)
    requires
        i <= ss.len(),
        forall|j: int| 0 <= j < i ==> !returns_value(#[trigger] ss[j]),
    ensures
        ti_statements(st, ss) == ti_statements(ti_prefix(st, ss, i), ss.skip(i as int)),
    decreases i,
{
    broadcast use group_ti_stuck;

    if i == 0 {
        assert(ss.skip(0) =~= ss);
    } else {
        let k = (i - 1) as nat;
        lemma_statements_skip(st, ss, k);
        let p = ti_prefix(st, ss, k);
        let t = ss.skip(k as int);
        assert(t[0] == ss[k as int]);
        assert(t.drop_first() =~= ss.skip(i as int));
        assert(!returns_value(ss[k as int]));
        assert(ti_prefix(st, ss, i) == ti_stmt(p, ss[k as int]));
        if !p.stuck {
            assert(t.len() > 0);
            assert(ti_statements(p, t) == ti_statements(ti_stmt(p, t[0]), t.drop_first()));
        }
    }
}

/// The statements relation, built up from its last part.
#[verifier::spinoff_prover]
proof fn lemma_statements_build(st: TiState, ss: Seq<HirStatement>, out: Seq<HirStatement>, i: nat, k: nat)
    requires
        k <= i <= ss.len(),
        out.len() == ss.len(),
        forall|j: int|
            0 <= j < i ==> !returns_value(#[trigger] ss[j]) && inferred_stmt(ti_prefix(st, ss, j as nat), ss[j], out[j]),
        inferred_statements(ti_prefix(st, ss, i), ss.skip(i as int), out.skip(i as int)),
    ensures
        inferred_statements(ti_prefix(st, ss, k), ss.skip(k as int), out.skip(k as int)),
    decreases i - k,
{
    if k < i {
        lemma_statements_build(st, ss, out, i, k + 1);
        lemma_statements_step(st, ss, out, k);
    }
}

/// One step of the statements relation: a statement that is no `return` with a value,
/// analysed, followed by the rest.
#[verifier::spinoff_prover]
proof fn lemma_statements_step(st: TiState, ss: Seq<HirStatement>, out: Seq<HirStatement>, k: nat)
    requires
        k < ss.len(),
        out.len() == ss.len(),
        !returns_value(ss[k as int]),
        inferred_stmt(ti_prefix(st, ss, k), ss[k as int], out[k as int]),
        inferred_statements(ti_prefix(st, ss, k + 1), ss.skip((k + 1) as int), out.skip((k + 1) as int)),
    ensures
        inferred_statements(ti_prefix(st, ss, k), ss.skip(k as int), out.skip(k as int)),
{
    let a = ss.skip(k as int);
    let b = out.skip(k as int);
    assert(a[0] == ss[k as int]);
    assert(b[0] == out[k as int]);
    assert(a.drop_first() =~= ss.skip((k + 1) as int));
    assert(b.drop_first() =~= out.skip((k + 1) as int));
    assert(ti_prefix(st, ss, k + 1) == ti_stmt(ti_prefix(st, ss, k), ss[k as int]));
}

/// The statements relation where the statement at `k` is a `return` with a value.
#[verifier::spinoff_prover]
proof fn lemma_statements_return(st: TiState, ss: Seq<HirStatement>, out: Seq<HirStatement>, k: nat)
    requires
        k < ss.len(),
        out.len() == ss.len(),
        returns_value(ss[k as int]),
        out[k as int].kind matches HirStatementKind::Return { value: Some(v2) } && inferred_expr(
            ti_prefix(st, ss, k),
            return_value(ss[k as int]),
            *v2,
        ),
        out[k as int].span == ss[k as int].span,
        out[k as int].cursor == ss[k as int].cursor,
        out.skip((k + 1) as int) == ss.skip((k + 1) as int),
    ensures
        inferred_statements(ti_prefix(st, ss, k), ss.skip(k as int), out.skip(k as int)),
{
    let a = ss.skip(k as int);
    let b = out.skip(k as int);
    assert(a[0] == ss[k as int]);
    assert(b[0] == out[k as int]);
    assert(a.drop_first() =~= ss.skip((k + 1) as int));
    assert(b.drop_first() =~= out.skip((k + 1) as int));
}

/// Infers the type of an expression (see `ti_expr`), setting it on the expression and on
/// the sub-expressions inference visits.
#[verifier::spinoff_prover]
#[verifier::rlimit(40)]
fn infer_expr_type(table: &mut SymbolsTable, expression: HirExpression, Ghost(st): Ghost<TiState>) -> (r: (HirExpression, TypeKind))
    requires
        ti_agrees(st, *old(table)),
        !ti_expr(st, expression).state.stuck,
    ensures
        ti_agrees(ti_expr(st, expression).state, *final(table)),
        ti_frame(*old(table), *final(table)),
        inferred_expr(st, expression, r.0),
        same_type(r.1, ti_expr(st, expression).ty),
    decreases expression,
{
    broadcast use group_ti_stuck;

    let ghost t0 = *table;
    let ghost e = expression;
    let HirExpression { kind, ty, span, cursor } = expression;
    match kind {
        HirExpressionKind::Literal { kind: lit } => {
            let t = lit.type_kind();
            let t2 = lit.type_kind();
            proof {
                lemma_same_type_refl(t);
            }
            (HirExpression { kind: HirExpressionKind::Literal { kind: lit }, ty: t, span, cursor }, t2)
        },
        HirExpressionKind::Unary { operator, value } => {
            let ghost a = ti_expr(st, *value);
            let (v2, vt) = infer_expr_type(table, *value, Ghost(st));
            let t = match operator {
                UnaryOperator::Negative => {
                    proof {
                        lemma_as_signed_congruent(vt, a.ty);
                    }
                    vt.as_signed()
                },
                UnaryOperator::Not => {
                    proof {
                        lemma_same_type_refl(TypeKind::Bool);
                    }
                    TypeKind::Bool
                },
                _ => vt,
            };
            let t2 = t.duplicate();
            proof {
                lemma_same_type_trans(t2, t, ti_expr(st, e).ty);
            }
            (HirExpression { kind: HirExpressionKind::Unary { operator, value: Box::new(v2) }, ty: t, span, cursor }, t2)
        },
        HirExpressionKind::Binary { left, operator, right } => {
            let ghost a = ti_expr(st, *left);
            let ghost b = ti_expr(a.state, *right);
            let (l2, lt) = infer_expr_type(table, *left, Ghost(st));
            let (r2, rt) = infer_expr_type(table, *right, Ghost(a.state));
            let ghost lt0 = lt;
            let ghost rt0 = rt;
            let t = TypeKind::from_tuple(lt, rt);
            proof {
                lemma_from_tuple_exec(lt0, rt0, t);
                lemma_from_tuple_congruent(lt0, a.ty, rt0, b.ty);
                lemma_same_type_trans(t, spec_from_tuple(lt0, rt0), spec_from_tuple(a.ty, b.ty));
            }
            let t2 = t.duplicate();
            proof {
                lemma_same_type_trans(t2, t, ti_expr(st, e).ty);
            }
            (
                HirExpression {
                    kind: HirExpressionKind::Binary { left: Box::new(l2), operator, right: Box::new(r2) },
                    ty: t,
                    span,
                    cursor,
                },
                t2,
            )
        },
        HirExpressionKind::ArrayGet { array, index } => {
            let ghost a = ti_expr(st, *array);
            let (a2, at) = infer_expr_type(table, *array, Ghost(st));
            let t = match at {
                TypeKind::Array(el) => *el,
                _ => {
                    proof {
                        lemma_same_type_refl(TypeKind::Unknown);
                    }
                    TypeKind::Unknown
                },
            };
            let t2 = t.duplicate();
            proof {
                lemma_same_type_trans(t2, t, ti_expr(st, e).ty);
            }
            (HirExpression { kind: HirExpressionKind::ArrayGet { array: Box::new(a2), index }, ty: t, span, cursor }, t2)
        },
        HirExpressionKind::Get { object, property_symbol_id } => {
            let (o2, _ot) = infer_expr_type(table, *object, Ghost(st));
            proof {
                lemma_same_type_refl(TypeKind::Unknown);
            }
            (
                HirExpression {
                    kind: HirExpressionKind::Get { object: Box::new(o2), property_symbol_id },
                    ty: TypeKind::Unknown,
                    span,
                    cursor,
                },
                TypeKind::Unknown,
            )
        },
        HirExpressionKind::Group { inner } => {
            let (i2, it) = infer_expr_type(table, *inner, Ghost(st));
            let t2 = it.duplicate();
            proof {
                lemma_same_type_trans(t2, it, ti_expr(st, e).ty);
            }
            (HirExpression { kind: HirExpressionKind::Group { inner: Box::new(i2) }, ty: it, span, cursor }, t2)
        },
        HirExpressionKind::If { main_expr, branches, else_expr } => {
            let HirConditionalBranch { condition, body } = *main_expr;
            let ghost c = ti_expr(st, condition);
            let ghost b = ti_expr(c.state, body);
            let ghost bs = ti_branches(b.state, branches@);
            proof {
                assert(c.state.stuck ==> b.state == c.state);
                assert(b.state.stuck ==> bs == b.state);
                assert(bs.stuck ==> ti_else(bs, else_expr) == bs);
            }
            let (c2, _ct) = infer_expr_type(table, condition, Ghost(st));
            let (b2, bt) = infer_expr_type(table, body, Ghost(c.state));
            let branches2 = infer_branches(table, branches, Ghost(b.state));
            let else2 = match else_expr {
                Some(x) => {
                    let (x2, _xt) = infer_expr_type(table, *x, Ghost(bs));
                    Some(Box::new(x2))
                },
                None => None,
            };
            let t2 = bt.duplicate();
            proof {
                lemma_same_type_trans(t2, bt, ti_expr(st, e).ty);
            }
            (
                HirExpression {
                    kind: HirExpressionKind::If {
                        main_expr: Box::new(HirConditionalBranch { condition: c2, body: b2 }),
                        branches: branches2,
                        else_expr: else2,
                    },
                    ty: bt,
                    span,
                    cursor,
                },
                t2,
            )
        },
        HirExpressionKind::Invoke { callee, arguments } => {
            let ghost a = ti_expr(st, *callee);
            let (c2, ct) = infer_expr_type(table, *callee, Ghost(st));
            let t = match ct {
                TypeKind::Function { return_type, .. } => *return_type,
                _ => {
                    proof {
                        lemma_same_type_refl(TypeKind::Unknown);
                    }
                    TypeKind::Unknown
                },
            };
            let t2 = t.duplicate();
            proof {
                lemma_same_type_trans(t2, t, ti_expr(st, e).ty);
            }
            (
                HirExpression { kind: HirExpressionKind::Invoke { callee: Box::new(c2), arguments }, ty: t, span, cursor },
                t2,
            )
        },
        HirExpressionKind::Variable { symbol_id } => {
            let t = match table.value_table.lookup_id(symbol_id) {
                Some(symbol) => symbol.ty.duplicate(),
                None => {
                    proof {
                        lemma_same_type_refl(TypeKind::Unknown);
                    }
                    TypeKind::Unknown
                },
            };
            proof {
                if symbol_id < st.types.len() {
                    lemma_same_type_trans(t, table.value_table.spec_symbols()[symbol_id as int].ty, st.types[symbol_id as int]);
                }
            }
            let t2 = t.duplicate();
            proof {
                lemma_same_type_trans(t2, t, ti_expr(st, e).ty);
            }
            (HirExpression { kind: HirExpressionKind::Variable { symbol_id }, ty: t, span, cursor }, t2)
        },
        HirExpressionKind::Scope { statements, value } => {
            let ghost entered = ti_enter(st);
            let ghost inner = ti_statements(entered, statements@);
            ti_enter_exec(table, Ghost(st));
            let ghost t1 = *table;
            let (s2, t) = infer_statements(table, statements, Ghost(entered));
            let ghost t2_ = *table;
            ti_leave_exec(table, Ghost(inner.state));
            proof {
                lemma_frame_scope(t0, t1, t2_, *table);
            }
            let t2 = t.duplicate();
            proof {
                lemma_same_type_trans(t2, t, ti_expr(st, e).ty);
            }
            (HirExpression { kind: HirExpressionKind::Scope { statements: s2, value }, ty: t, span, cursor }, t2)
        },
        _ => {
            let t2 = ty.duplicate();
            proof {
                lemma_same_type_refl(ty);
            }
            (HirExpression { kind, ty, span, cursor }, t2)
        },
    }
}

/// Infers the conditions and bodies of `else if` branches in order.
#[verifier::spinoff_prover]
#[verifier::rlimit(40)]
fn infer_branches(table: &mut SymbolsTable, bs: Vec<HirConditionalBranch>, Ghost(st): Ghost<TiState>) -> (r: Vec<HirConditionalBranch>)
    requires
        ti_agrees(st, *old(table)),
        !ti_branches(st, bs@).stuck,
    ensures
        ti_agrees(ti_branches(st, bs@), *final(table)),
        ti_frame(*old(table), *final(table)),
        inferred_branches(st, bs@, r@),
    decreases bs,
{
    broadcast use group_ti_stuck;

    let ghost orig = bs@;
    let ghost t0 = *table;
    let total = bs.len();
    let mut rest = bs;
    let mut out: Vec<HirConditionalBranch> = Vec::new();
    let mut i: usize = 0;
    assert(orig.take(0) =~= Seq::<HirConditionalBranch>::empty());
    while rest.len() > 0
        invariant
            i + rest@.len() == orig.len(),
            orig.len() == total,
            rest@ == orig.skip(i as int),
            out@.len() == i,
            bs@ == orig,
            forall|j: int|
                0 <= j < i ==> inferred_expr(ti_branches(st, orig.take(j)), #[trigger] orig[j].condition, out@[j].condition)
                    && inferred_expr(ti_expr(ti_branches(st, orig.take(j)), orig[j].condition).state, orig[j].body, out@[j].body),
            ti_agrees(ti_branches(st, orig.take(i as int)), *table),
            ti_frame(t0, *table),
            !ti_branches(st, orig).stuck,
            t0 == *old(table),
        decreases rest.len(),
    {
        let branch = rest.remove(0);
        assert(branch == orig[i as int]);
        assert(orig.take(i + 1).drop_last() =~= orig.take(i as int));
        assert(orig.take(i + 1).last() == orig[i as int]);
        proof {
            lemma_branches_stuck_prefix(st, orig, i + 1);
            assert(decreases_to!(bs => bs@[i as int].condition));
            assert(decreases_to!(bs => bs@[i as int].body));
        }
        let ghost cur = ti_branches(st, orig.take(i as int));
        proof {
            let c = ti_expr(cur, orig[i as int].condition);
            assert(ti_branches(st, orig.take(i + 1)) == ti_expr(c.state, orig[i as int].body).state);
            assert(c.state.stuck ==> ti_expr(c.state, orig[i as int].body).state == c.state);
        }
        let HirConditionalBranch { condition, body } = branch;
        let (c2, _ct) = infer_expr_type(table, condition, Ghost(cur));
        let (b2, _bt) = infer_expr_type(table, body, Ghost(ti_expr(cur, orig[i as int].condition).state));
        out.push(HirConditionalBranch { condition: c2, body: b2 });
        i = i + 1;
    }
    assert(orig.take(i as int) =~= orig);
    out
}

/// Once a prefix of the branches gets stuck, so does the whole.
proof fn lemma_branches_stuck_prefix(st: TiState, s: Seq<HirConditionalBranch>, k: int)
    requires
        0 <= k <= s.len(),
    ensures
        ti_branches(st, s.take(k)).stuck ==> ti_branches(st, s).stuck,
    decreases s.len() - k,
{
    broadcast use group_ti_stuck;

    if k < s.len() {
        lemma_branches_stuck_prefix(st, s, k + 1);
        assert(s.take(k + 1).drop_last() =~= s.take(k));
        let a = ti_branches(st, s.take(k));
        if a.stuck && !st.stuck {
            let last = s.take(k + 1).last();
            assert(ti_expr(a, last.condition).state == a);
            assert(ti_expr(ti_expr(a, last.condition).state, last.body).state == a);
        }
    } else {
        assert(s.take(k) =~= s);
    }
}

/// Analyses a scope's statements in order up to the first `return` with a value, and gives
/// the type of that value (the unit type without one).
#[verifier::spinoff_prover]
#[verifier::rlimit(40)]
fn infer_statements(table: &mut SymbolsTable, ss: Vec<HirStatement>, Ghost(st): Ghost<TiState>) -> (r: (Vec<HirStatement>, TypeKind))
    requires
        ti_agrees(st, *old(table)),
        !ti_statements(st, ss@).state.stuck,
    ensures
        ti_agrees(ti_statements(st, ss@).state, *final(table)),
        ti_frame(*old(table), *final(table)),
        inferred_statements(st, ss@, r.0@),
        same_type(r.1, ti_statements(st, ss@).ty),
    decreases ss,
{
    broadcast use group_ti_stuck;

    let ghost orig = ss@;
    let ghost t0 = *table;
    let total = ss.len();
    let mut rest = ss;
    let mut out: Vec<HirStatement> = Vec::new();
    let mut i: usize = 0;
    proof {
        lemma_statements_skip(st, orig, 0);
    }
    while rest.len() > 0
        invariant
            i + rest@.len() == orig.len(),
            orig.len() == total,
            rest@ == orig.skip(i as int),
            out@.len() == i,
            ss@ == orig,
            forall|j: int|
                0 <= j < i ==> !returns_value(#[trigger] orig[j]) && inferred_stmt(ti_prefix(st, orig, j as nat), orig[j], out@[j]),
            ti_statements(st, orig) == ti_statements(ti_prefix(st, orig, i as nat), orig.skip(i as int)),
            ti_agrees(ti_prefix(st, orig, i as nat), *table),
            ti_frame(t0, *table),
            !ti_statements(st, orig).state.stuck,
            t0 == *old(table),
        decreases rest.len(),
    {
        let ghost cur = ti_prefix(st, orig, i as nat);
        let x = rest.remove(0);
        proof {
            assert(x == orig[i as int]);
            assert(orig.skip(i as int)[0] == orig[i as int]);
            assert(orig.skip(i as int).drop_first() =~= rest@);
            assert(decreases_to!(ss => ss@[i as int]));
        }
        let is_return = match &x.kind {
            HirStatementKind::Return { value: Some(_) } => true,
            _ => false,
        };
        if is_return {
            proof {
                assert(ti_stmt(cur, orig[i as int]) == cur);
                assert(ti_statements(cur, orig.skip(i as int)) == ti_expr(cur, return_value(orig[i as int])));
            }
            let (y, t) = infer_return(table, x, Ghost(cur));
            let ghost prev = out@;
            out.push(y);
            let ghost pushed = out@;
            let ghost tail = rest@;
            out.append(&mut rest);
            proof {
                assert(out@ =~= pushed + tail);
                assert(out@[i as int] == y);
                assert(out@.skip(i + 1) =~= tail);
                assert(orig.skip(i + 1) =~= tail);
                assert forall|j: int| 0 <= j < i implies #[trigger] out@[j] == prev[j] by {}
                lemma_statements_return(st, orig, out@, i as nat);
                lemma_statements_build(st, orig, out@, i as nat, 0);
                assert(orig.skip(0) =~= orig);
                assert(out@.skip(0) =~= out@);
            }
            return (out, t);
        }
        proof {
            assert(!returns_value(orig[i as int]));
            let t = orig.skip(i as int);
            assert(t.len() > 0);
            assert(ti_statements(cur, t) == ti_statements(ti_stmt(cur, t[0]), t.drop_first()));
            assert(ti_statements(cur, orig.skip(i as int)) == ti_statements(ti_stmt(cur, orig[i as int]), rest@));
            assert(ti_stmt(cur, orig[i as int]).stuck ==> ti_statements(ti_stmt(cur, orig[i as int]), rest@).state.stuck);
        }
        let y = analyze_stmt(table, x, Ghost(cur));
        out.push(y);
        proof {
            lemma_statements_skip(st, orig, (i + 1) as nat);
        }
        i = i + 1;
    }
    proof {
        assert(orig.skip(i as int) =~= Seq::<HirStatement>::empty());
        assert(out@.skip(i as int) =~= Seq::<HirStatement>::empty());
        lemma_statements_build(st, orig, out@, i as nat, 0);
        assert(orig.skip(0) =~= orig);
        assert(out@.skip(0) =~= out@);
        lemma_same_type_refl(TypeKind::Unit);
    }
    (out, TypeKind::Unit)
}

/// Infers the value of a `return` statement.
#[verifier::spinoff_prover]
fn infer_return(table: &mut SymbolsTable, s: HirStatement, Ghost(st): Ghost<TiState>) -> (r: (HirStatement, TypeKind))
    requires
        ti_agrees(st, *old(table)),
        returns_value(s),
        !ti_expr(st, return_value(s)).state.stuck,
    ensures
        ti_agrees(ti_expr(st, return_value(s)).state, *final(table)),
        same_type(r.1, ti_expr(st, return_value(s)).ty),
        r.0.kind matches HirStatementKind::Return { value: Some(v2) } && inferred_expr(st, return_value(s), *v2),
        r.0.span == s.span,
        r.0.cursor == s.cursor,
        ti_frame(*old(table), *final(table)),
    decreases s, 0nat,
{
    let HirStatement { kind, span, cursor } = s;
    match kind {
        HirStatementKind::Return { value: Some(v) } => {
            let (v2, t) = infer_expr_type(table, *v, Ghost(st));
            (HirStatement { kind: HirStatementKind::Return { value: Some(Box::new(v2)) }, span, cursor }, t)
        },
        _ => {
            proof {
                assert(false);
            }
            (HirStatement { kind, span, cursor }, TypeKind::Unit)
        },
    }
}

/// Where `e` is a scope, analyses its statements inside a scope of the tables and sets its type.
#[verifier::spinoff_prover]
fn infer_scope(table: &mut SymbolsTable, e: Option<Box<HirExpression>>, Ghost(st): Ghost<TiState>) -> (r: Option<Box<HirExpression>>)
    requires
        ti_agrees(st, *old(table)),
        !ti_scope(st, e).stuck,
    ensures
        ti_agrees(ti_scope(st, e), *final(table)),
        ti_frame(*old(table), *final(table)),
        scope_inferred(st, e, r),
    decreases e,
{
    broadcast use group_ti_stuck;

    let ghost t0 = *table;
    match e {
        Some(x) => {
            let is_scope = match &x.kind {
                HirExpressionKind::Scope { .. } => true,
                _ => false,
            };
            if !is_scope {
                return Some(x);
            }
            let HirExpression { kind, ty, span, cursor } = *x;
            match kind {
                HirExpressionKind::Scope { statements, value } => {
                    let ghost entered = ti_enter(st);
                    let ghost inner = ti_statements(entered, statements@);
                    ti_enter_exec(table, Ghost(st));
                    let ghost t1 = *table;
                    let (s2, t) = infer_statements(table, statements, Ghost(entered));
                    let ghost t2 = *table;
                    ti_leave_exec(table, Ghost(inner.state));
                    proof {
                        lemma_frame_scope(t0, t1, t2, *table);
                    }
                    Some(Box::new(HirExpression { kind: HirExpressionKind::Scope { statements: s2, value }, ty: t, span, cursor }))
                },
                _ => {
                    proof {
                        assert(false);
                    }
                    None
                },
            }
        },
        None => None,
    }
}

/// The types of the parameters `ps`, from the tables.
fn parameter_types(table: &SymbolsTable, ps: &Vec<HirParameter>, Ghost(st): Ghost<TiState>) -> (r: Vec<TypeKind>)
    requires
        ti_agrees(st, *table),
        params_known(st, ps@),
    ensures
        r@.len() == ps@.len(),
        same_types(r@, param_types(st, ps@)),
{
    let mut out: Vec<TypeKind> = Vec::new();
    let mut i: usize = 0;
    while i < ps.len()
        invariant
            ti_agrees(st, *table),
            params_known(st, ps@),
            i <= ps@.len(),
            out@.len() == i,
            forall|j: int| 0 <= j < i ==> same_type(#[trigger] out@[j], param_types(st, ps@)[j]),
        decreases ps.len() - i,
    {
        let id = ps[i].symbol_id;
        assert(ps@[i as int].symbol_id < st.types.len());
        let t = match table.value_table.lookup_id(id) {
            Some(symbol) => symbol.ty.duplicate(),
            None => {
                proof {
                    assert(false);
                }
                TypeKind::Unknown
            },
        };
        proof {
            lemma_same_type_trans(t, table.value_table.spec_symbols()[id as int].ty, st.types[id as int]);
        }
        out.push(t);
        i = i + 1;
    }
    proof {
        crate::ast::types::lemma_pointwise_same_types(out@, param_types(st, ps@));
    }
    out
}

/// A function type built from same-typed parts is the function type of those parts.
proof fn lemma_fn_type(t: TypeKind, params: Seq<TypeKind>, ret: TypeKind)
    requires
        is_fn_type(t, params, ret),
    ensures
        same_type(t, fn_type_of(params, ret)),
{
    let c = fn_type_of(params, ret);
    assert(is_fn_type(c, params, ret));
    match (t, c) {
        (TypeKind::Function { param_types: p1, return_type: r1 }, TypeKind::Function { param_types: p2, return_type: r2 }) => {
            crate::ast::types::lemma_same_types_symm(p2@, params);
            crate::ast::types::lemma_same_types_trans(p1@, params, p2@);
            lemma_same_type_symm(*r2, ret);
            lemma_same_type_trans(*r1, ret, *r2);
        },
        _ => {},
    }
}

/// Analyses a statement (see `ti_stmt`).
#[verifier::spinoff_prover]
#[verifier::rlimit(40)]
fn analyze_stmt(table: &mut SymbolsTable, stmt: HirStatement, Ghost(st): Ghost<TiState>) -> (r: HirStatement)
    requires
        ti_agrees(st, *old(table)),
        !ti_stmt(st, stmt).stuck,
    ensures
        ti_agrees(ti_stmt(st, stmt), *final(table)),
        ti_frame(*old(table), *final(table)),
        inferred_stmt(st, stmt, r),
    decreases stmt,
{
    reveal(inferred_stmt);
    broadcast use group_ti_stuck;

    let ghost t0 = *table;
    let HirStatement { kind, span, cursor } = stmt;
    match kind {
        HirStatementKind::VarDecl(decl) => {
            let HirVarDecl { visibility, symbol_id, mutable, ty, value } = decl;
            if !ty.kind.is_unknown() {
                let value2 = infer_scope(table, value, Ghost(st));
                return HirStatement {
                    kind: HirStatementKind::VarDecl(HirVarDecl { visibility, symbol_id, mutable, ty, value: value2 }),
                    span,
                    cursor,
                };
            }
            let ghost tr = var_value_type(st, value);
            let (value2, inferred) = match value {
                Some(v) => {
                    let (v2, t) = infer_expr_type(table, *v, Ghost(st));
                    (Some(Box::new(v2)), t)
                },
                None => {
                    proof {
                        lemma_same_type_refl(TypeKind::Unknown);
                    }
                    (None, TypeKind::Unknown)
                },
            };
            set_symbol_type(table, symbol_id, inferred, Ghost(tr.state), Ghost(tr.ty));
            HirStatement {
                kind: HirStatementKind::VarDecl(HirVarDecl { visibility, symbol_id, mutable, ty, value: value2 }),
                span,
                cursor,
            }
        },
        HirStatementKind::FuncDecl(decl) => {
            let HirFuncDecl { visibility, symbol_id, parameters, return_type, body } = decl;
            if !return_type.kind.is_unknown() {
                let body2 = infer_scope(table, body, Ghost(st));
                return HirStatement {
                    kind: HirStatementKind::FuncDecl(HirFuncDecl { visibility, symbol_id, parameters, return_type, body: body2 }),
                    span,
                    cursor,
                };
            }
            let ghost inner = ti_enter(st);
            let ghost rt = ti_body(inner, body);
            ti_enter_exec(table, Ghost(st));
            let ghost t1 = *table;
            let params = parameter_types(table, &parameters, Ghost(inner));
            let (body2, found) = match body {
                Some(b) => {
                    let is_scope = match &b.kind {
                        HirExpressionKind::Scope { .. } => true,
                        _ => false,
                    };
                    if is_scope {
                        let HirExpression { kind: bkind, ty: bty, span: bspan, cursor: bcursor } = *b;
                        match bkind {
                            HirExpressionKind::Scope { statements, value } => {
                                let (s2, t) = infer_statements(table, statements, Ghost(inner));
                                let t2 = t.duplicate();
                                proof {
                                    lemma_same_type_trans(t2, t, rt.ty);
                                }
                                (
                                    Some(Box::new(HirExpression {
                                        kind: HirExpressionKind::Scope { statements: s2, value },
                                        ty: t,
                                        span: bspan,
                                        cursor: bcursor,
                                    })),
                                    t2,
                                )
                            },
                            _ => {
                                proof {
                                    assert(false);
                                }
                                (None, TypeKind::Unknown)
                            },
                        }
                    } else {
                        let (b2, t) = infer_expr_type(table, *b, Ghost(inner));
                        (Some(Box::new(b2)), t)
                    }
                },
                None => {
                    proof {
                        lemma_same_type_refl(TypeKind::Unit);
                    }
                    (None, TypeKind::Unit)
                },
            };
            let ghost t2 = *table;
            ti_leave_exec(table, Ghost(rt.state));
            proof {
                lemma_frame_scope(t0, t1, t2, *table);
            }
            let ghost params_spec = param_types(inner, parameters@);
            let ghost params_exec = params@;
            let ret = found.duplicate();
            proof {
                lemma_same_type_trans(ret, found, rt.ty);
            }
            let fn_type = TypeKind::Function { param_types: params, return_type: Box::new(ret) };
            proof {
                assert(is_fn_type(fn_type, params_spec, rt.ty));
                lemma_fn_type(fn_type, params_spec, rt.ty);
            }
            set_symbol_type(table, symbol_id, fn_type, Ghost(ti_leave(rt.state)), Ghost(fn_type_of(params_spec, rt.ty)));
            let return_type2 = Type { kind: found, span: return_type.span, cursor: return_type.cursor };
            HirStatement {
                kind: HirStatementKind::FuncDecl(
                    HirFuncDecl { visibility, symbol_id, parameters, return_type: return_type2, body: body2 },
                ),
                span,
                cursor,
            }
        },
        HirStatementKind::ClassDecl(decl) => {
            proof {
                assert(false);
            }
            HirStatement { kind: HirStatementKind::ClassDecl(decl), span, cursor }
        },
        _ => HirStatement { kind, span, cursor },
    }
}

/// The statements of the HIR `code` holds (none before it is lowered).
pub open spec fn hir_statements(code: ParsedCodeKind) -> Seq<HirStatement> {
    match code {
        ParsedCodeKind::Hir(h) => h.statements@,
        _ => Seq::empty(),
    }
}

/// Inference starts from the value types as the tables hold them.
pub open spec fn ti_start(t: SymbolsTable) -> TiState {
    TiState { types: t.value_table.spec_symbols().map_values(|s: ValueSymbol| s.ty), depth: t.depth as nat, stuck: false }
}

/// Inference over the top-level statements of a source, each in turn.
pub open spec fn ti_program(st: TiState, hs: Seq<HirStatement>) -> TiState
    decreases hs.len(),
{
    if hs.len() == 0 {
        st
    } else {
        ti_stmt(ti_program(st, hs.drop_last()), hs.last())
    }
}

/// Inference can run on `ctx`: its code is HIR, and inferring it neither meets a class
/// declaration or a symbol the tables do not hold, nor nests scopes beyond what they count.
#[verifier::opaque]
pub open spec fn type_inference_ready(ctx: AnalyzerContext) -> bool {
    &&& ctx.input.code is Hir
    &&& ctx.symbol_table.wf()
    &&& !ti_program(ti_start(ctx.symbol_table), hir_statements(ctx.input.code)).stuck
}

/// `after` is `before` with the types of its HIR inferred (see `ti_stmt` and `inferred_stmt`).
#[verifier::opaque]
pub open spec fn types_inferred(before: AnalyzerContext, after: AnalyzerContext) -> bool {
    let hs = hir_statements(before.input.code);
    let st = ti_start(before.symbol_table);
    &&& after.input.source == before.input.source
    &&& after.input.code matches ParsedCodeKind::Hir(h2) && h2.statements@.len() == hs.len() && forall|i: int|
        0 <= i < hs.len() ==> inferred_stmt(ti_program(st, hs.take(i)), #[trigger] hs[i], h2.statements@[i])
    &&& ti_agrees(ti_program(st, hs), after.symbol_table)
    &&& ti_frame(before.symbol_table, after.symbol_table)
}

/// The stage that infers the types of expressions and values.
#[derive(Debug)]
pub struct TypeInferenceStage;

impl TypeInferenceStage {
    pub fn name(&self) -> (r: &'static str)
        ensures
            r@ == "TypeInference"@,
    {
        "TypeInference"
    }

    /// Infers the types of the source's HIR, statement by statement.
    #[verifier::spinoff_prover]
    #[verifier::rlimit(40)]
    pub fn run(&mut self, ctx: &mut AnalyzerContext) -> (r: bool)
        requires
            type_inference_ready(*old(ctx)),
        ensures
            r,
            types_inferred(*old(ctx), *final(ctx)),
            final(ctx).reporter == old(ctx).reporter,
    {
        proof {
            reveal(types_inferred);
            reveal(type_inference_ready);
        }
        broadcast use group_ti_stuck;

        let ghost st = ti_start(ctx.symbol_table);
        proof {
            assert forall|i: int| 0 <= i < st.types.len() implies same_type(
                #[trigger] ctx.symbol_table.value_table.spec_symbols()[i].ty,
                st.types[i],
            ) by {
                lemma_same_type_refl(ctx.symbol_table.value_table.spec_symbols()[i].ty);
            }
        }
        let mut code = ParsedCodeKind::Ast(crate::ast::Ast::new(crate::span::Span::void(), Vec::new()));
        std::mem::swap(&mut code, &mut ctx.input.code);
        let statements = match code {
            ParsedCodeKind::Hir(h) => h.statements,
            _ => {
                proof {
                    assert(false);
                }
                Vec::new()
            },
        };
        let ghost orig = statements@;
        let ghost t0 = ctx.symbol_table;
        let total = statements.len();
        let mut rest = statements;
        let mut out: Vec<HirStatement> = Vec::new();
        let mut i: usize = 0;
        assert(orig.take(0) =~= Seq::<HirStatement>::empty());
        while rest.len() > 0
            invariant
                i + rest@.len() == orig.len(),
                orig.len() == total,
                rest@ == orig.skip(i as int),
                out@.len() == i,
                forall|j: int| 0 <= j < i ==> inferred_stmt(ti_program(st, orig.take(j)), #[trigger] orig[j], out@[j]),
                ti_agrees(ti_program(st, orig.take(i as int)), ctx.symbol_table),
                ti_frame(t0, ctx.symbol_table),
                !ti_program(st, orig).stuck,
                ctx.input.source == old(ctx).input.source,
                ctx.reporter == old(ctx).reporter,
                t0 == old(ctx).symbol_table,
            decreases rest.len(),
        {
            let s = rest.remove(0);
            assert(s == orig[i as int]);
            assert(orig.take(i + 1).drop_last() =~= orig.take(i as int));
            assert(orig.take(i + 1).last() == orig[i as int]);
            proof {
                lemma_program_stuck_prefix(st, orig, i + 1);
            }
            let ghost cur = ti_program(st, orig.take(i as int));
            let y = analyze_stmt(&mut ctx.symbol_table, s, Ghost(cur));
            out.push(y);
            i = i + 1;
        }
        proof {
            assert(orig.take(i as int) =~= orig);
        }
        ctx.input.code = ParsedCodeKind::Hir(Hir { statements: out });
        true
    }
}

/// Once a prefix of the program gets stuck, so does the whole.
proof fn lemma_program_stuck_prefix(st: TiState, s: Seq<HirStatement>, k: int)
    requires
        0 <= k <= s.len(),
    ensures
        ti_program(st, s.take(k)).stuck ==> ti_program(st, s).stuck,
    decreases s.len() - k,
{
    broadcast use group_ti_stuck;

    if k < s.len() {
        lemma_program_stuck_prefix(st, s, k + 1);
        assert(s.take(k + 1).drop_last() =~= s.take(k));
    } else {
        assert(s.take(k) =~= s);
    }
}

/// Type inference does not look at the reporter of the context.
pub proof fn lemma_types_inferred_frame(a: AnalyzerContext, a2: AnalyzerContext, b: AnalyzerContext, b2: AnalyzerContext)
    requires
        a.input == a2.input,
        a.symbol_table == a2.symbol_table,
        b.input == b2.input,
        b.symbol_table == b2.symbol_table,
    ensures
        types_inferred(a, b) == types_inferred(a2, b2),
        type_inference_ready(a) == type_inference_ready(a2),
{
    reveal(types_inferred);
    reveal(type_inference_ready);
}

} // verus!
