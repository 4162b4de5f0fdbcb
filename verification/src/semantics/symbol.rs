use vstd::prelude::*;

use crate::ast::symbol::SymbolId;
use crate::ast::types::TypeKind;
use crate::text::str_eq;

verus! {

/// A symbol of a symbol table: its index in the table, its name, and the symbol of the same
/// name that it hides, if any.
pub trait Symbol: Sized {
    spec fn spec_id(&self) -> SymbolId;

    spec fn spec_name(&self) -> Seq<char>;

    spec fn spec_shadow_id(&self) -> Option<SymbolId>;

    fn name(&self) -> (r: &str)
        ensures
            r@ == self.spec_name(),
    ;

    fn shadow_id(&self) -> (r: Option<SymbolId>)
        ensures
            r == self.spec_shadow_id(),
    ;

    fn new(id: SymbolId, name: String, shadow_id: Option<SymbolId>) -> (r: Self)
        ensures
            r.spec_id() == id,
            r.spec_name() == name@,
            r.spec_shadow_id() == shadow_id,
    ;
}

/// A value: a variable, a parameter or a function, with its type as far as it is known.
#[derive(Debug)]
pub struct ValueSymbol {
    pub id: SymbolId,
    pub name: String,
    pub shadow_id: Option<SymbolId>,
    pub ty: TypeKind,
}

/// A named type.
#[derive(Debug, Clone)]
pub struct TypeSymbol {
    pub id: SymbolId,
    pub name: String,
    pub shadow_id: Option<SymbolId>,
}

/// A loop label.
#[derive(Debug, Clone)]
pub struct ControlFlowSymbol {
    pub id: SymbolId,
    pub name: String,
    pub shadow_id: Option<SymbolId>,
}

impl Symbol for ValueSymbol {
    open spec fn spec_id(&self) -> SymbolId {
        self.id
    }

    open spec fn spec_name(&self) -> Seq<char> {
        self.name@
    }

    open spec fn spec_shadow_id(&self) -> Option<SymbolId> {
        self.shadow_id
    }

    fn name(&self) -> (r: &str) {
        self.name.as_str()
    }

    fn shadow_id(&self) -> (r: Option<SymbolId>) {
        self.shadow_id
    }

    /// A value symbol whose type is not known yet.
    fn new(id: SymbolId, name: String, shadow_id: Option<SymbolId>) -> (r: Self) {
        ValueSymbol { id, name, shadow_id, ty: TypeKind::Unknown }
    }
}

impl Symbol for TypeSymbol {
    open spec fn spec_id(&self) -> SymbolId {
        self.id
    }

    open spec fn spec_name(&self) -> Seq<char> {
        self.name@
    }

    open spec fn spec_shadow_id(&self) -> Option<SymbolId> {
        self.shadow_id
    }

    fn name(&self) -> (r: &str) {
        self.name.as_str()
    }

    fn shadow_id(&self) -> (r: Option<SymbolId>) {
        self.shadow_id
    }

    fn new(id: SymbolId, name: String, shadow_id: Option<SymbolId>) -> (r: Self) {
        TypeSymbol { id, name, shadow_id }
    }
}

impl Symbol for ControlFlowSymbol {
    open spec fn spec_id(&self) -> SymbolId {
        self.id
    }

    open spec fn spec_name(&self) -> Seq<char> {
        self.name@
    }

    open spec fn spec_shadow_id(&self) -> Option<SymbolId> {
        self.shadow_id
    }

    fn name(&self) -> (r: &str) {
        self.name.as_str()
    }

    fn shadow_id(&self) -> (r: Option<SymbolId>) {
        self.shadow_id
    }

    fn new(id: SymbolId, name: String, shadow_id: Option<SymbolId>) -> (r: Self) {
        ControlFlowSymbol { id, name, shadow_id }
    }
}

/// What a symbol table is, for its contracts: the names of its symbols by index, the
/// indices of the symbols that names can reach (oldest first), and where each open scope
/// began in that list.
pub struct TableView {
    pub names: Seq<Seq<char>>,
    pub visible: Seq<SymbolId>,
    pub scopes: Seq<nat>,
}

/// The symbol that `name` reaches: the most recent visible symbol of that name.
pub open spec fn lookup_in(names: Seq<Seq<char>>, visible: Seq<SymbolId>, name: Seq<char>) -> Option<SymbolId>
    decreases visible.len(),
{
    if visible.len() == 0 {
        None
    } else if names[visible.last() as int] == name {
        Some(visible.last())
    } else {
        lookup_in(names, visible.drop_last(), name)
    }
}

impl TableView {
    pub open spec fn lookup(self, name: Seq<char>) -> Option<SymbolId> {
        lookup_in(self.names, self.visible, name)
    }

    /// A new scope begins at the current end of the visible symbols.
    pub open spec fn enter(self) -> TableView {
        TableView { names: self.names, visible: self.visible, scopes: self.scopes.push(self.visible.len()) }
    }

    /// A new symbol named `name` at the next index, visible from now on.
    pub open spec fn declare(self, name: Seq<char>) -> TableView {
        TableView {
            names: self.names.push(name),
            visible: self.visible.push(self.names.len() as SymbolId),
            scopes: self.scopes,
        }
    }

    /// The innermost scope ends: the symbols declared in it are no longer visible, though
    /// they keep their indices.
    pub open spec fn leave(self) -> TableView {
        TableView {
            names: self.names,
            visible: self.visible.take(self.scopes.last() as int),
            scopes: self.scopes.drop_last(),
        }
    }

    /// Declares each of `names`, in order.
    pub open spec fn declare_all(self, names: Seq<Seq<char>>) -> TableView
        decreases names.len(),
    {
        if names.len() == 0 {
            self
        } else {
            self.declare(names[0]).declare_all(names.drop_first())
        }
    }

    /// Visible symbols exist and are listed oldest first; scopes begin in order, within the list.
    pub open spec fn wf(self) -> bool {
        &&& forall|i: int| 0 <= i < self.visible.len() ==> #[trigger] self.visible[i] < self.names.len()
        &&& forall|i: int, j: int| 0 <= i < j < self.visible.len() ==> self.visible[i] < self.visible[j]
        &&& forall|i: int| 0 <= i < self.scopes.len() ==> #[trigger] self.scopes[i] <= self.visible.len()
        &&& forall|i: int, j: int| 0 <= i < j < self.scopes.len() ==> self.scopes[i] <= self.scopes[j]
    }
}

/// Declaring a name makes it reach the new symbol.
pub proof fn lemma_declare_then_lookup(v: TableView, name: Seq<char>)
    requires
        v.names.len() < usize::MAX,
    ensures
        v.declare(name).lookup(name) == Some(v.names.len() as SymbolId),
{
    let d = v.declare(name);
    assert(d.visible.drop_last() =~= v.visible);
}

/// Declaring a name leaves every other name reaching what it reached.
pub proof fn lemma_declare_keeps_other_names(v: TableView, name: Seq<char>, other: Seq<char>)
    requires
        v.wf(),
        v.names.len() < usize::MAX,
        other != name,
    ensures
        v.declare(name).lookup(other) == v.lookup(other),
{
    let d = v.declare(name);
    assert(d.visible.drop_last() =~= v.visible);
    lemma_lookup_names_prefix(v.names, name, v.visible, other);
}

/// Looking up over visible symbols that all come before the end of `names` is unaffected by
/// symbols appended to `names`.
proof fn lemma_lookup_names_prefix(names: Seq<Seq<char>>, extra: Seq<char>, visible: Seq<SymbolId>, name: Seq<char>)
    requires
        forall|i: int| 0 <= i < visible.len() ==> #[trigger] visible[i] < names.len(),
    ensures
        lookup_in(names.push(extra), visible, name) == lookup_in(names, visible, name),
    decreases visible.len(),
{
    if visible.len() > 0 {
        assert(visible.last() == visible[visible.len() - 1]);
        let rest = visible.drop_last();
        assert forall|i: int| 0 <= i < rest.len() implies #[trigger] rest[i] < names.len() by {
            assert(rest[i] == visible[i]);
        }
        lemma_lookup_names_prefix(names, extra, rest, name);
    }
}

/// What a name reaches is one of the visible symbols.
pub proof fn lemma_lookup_in_visible(names: Seq<Seq<char>>, visible: Seq<SymbolId>, name: Seq<char>)
    ensures
        lookup_in(names, visible, name) matches Some(id) ==> visible.contains(id),
    decreases visible.len(),
{
    if visible.len() > 0 {
        lemma_lookup_in_visible(names, visible.drop_last(), name);
        match lookup_in(names, visible, name) {
            Some(id) => {
                if names[visible.last() as int] == name {
                    assert(visible[visible.len() - 1] == id);
                } else {
                    let k = choose|k: int| 0 <= k < visible.drop_last().len() && visible.drop_last()[k] == id;
                    assert(visible[k] == id);
                }
            },
            None => {},
        }
    }
}

/// Declaring keeps a table well formed.
pub proof fn lemma_declare_wf(v: TableView, name: Seq<char>)
    requires
        v.wf(),
        v.names.len() < usize::MAX,
    ensures
        v.declare(name).wf(),
{
    let d = v.declare(name);
    assert forall|i: int| 0 <= i < d.visible.len() implies #[trigger] d.visible[i] < d.names.len() by {
        if i < v.visible.len() {
            assert(d.visible[i] == v.visible[i]);
        }
    }
    assert forall|i: int, j: int| 0 <= i < j < d.visible.len() implies d.visible[i] < d.visible[j] by {
        if j < v.visible.len() {
            assert(d.visible[i] == v.visible[i]);
            assert(d.visible[j] == v.visible[j]);
        } else {
            assert(d.visible[i] == v.visible[i]);
            assert(v.visible[i] < v.names.len());
        }
    }
    assert forall|i: int| 0 <= i < d.scopes.len() implies #[trigger] d.scopes[i] <= d.visible.len() by {
        assert(d.scopes[i] == v.scopes[i]);
    }
}

/// Entering a scope keeps a table well formed.
pub proof fn lemma_enter_wf(v: TableView)
    requires
        v.wf(),
    ensures
        v.enter().wf(),
{
    let e = v.enter();
    assert forall|i: int| 0 <= i < e.scopes.len() implies #[trigger] e.scopes[i] <= e.visible.len() by {
        if i < v.scopes.len() {
            assert(e.scopes[i] == v.scopes[i]);
        }
    }
    assert forall|i: int, j: int| 0 <= i < j < e.scopes.len() implies e.scopes[i] <= e.scopes[j] by {
        assert(e.scopes[i] == v.scopes[i]);
        if j < v.scopes.len() {
            assert(e.scopes[j] == v.scopes[j]);
        }
    }
}

/// Leaving a scope keeps a table well formed.
pub proof fn lemma_leave_wf(v: TableView)
    requires
        v.wf(),
        v.scopes.len() > 0,
    ensures
        v.leave().wf(),
{
    let l = v.leave();
    let last = v.scopes.last();
    assert(v.scopes[v.scopes.len() - 1] <= v.visible.len());
    assert forall|i: int| 0 <= i < l.visible.len() implies #[trigger] l.visible[i] < l.names.len() by {
        assert(l.visible[i] == v.visible[i]);
    }
    assert forall|i: int, j: int| 0 <= i < j < l.visible.len() implies l.visible[i] < l.visible[j] by {
        assert(l.visible[i] == v.visible[i]);
        assert(l.visible[j] == v.visible[j]);
    }
    assert forall|i: int| 0 <= i < l.scopes.len() implies #[trigger] l.scopes[i] <= l.visible.len() by {
        assert(l.scopes[i] == v.scopes[i]);
        assert(v.scopes[i] <= v.scopes[v.scopes.len() - 1]);
    }
    assert forall|i: int, j: int| 0 <= i < j < l.scopes.len() implies l.scopes[i] <= l.scopes[j] by {
        assert(l.scopes[i] == v.scopes[i]);
        assert(l.scopes[j] == v.scopes[j]);
    }
}

/// Declarations extend the visible list and keep the scopes and the names already there.
proof fn lemma_declare_all_extends(v: TableView, names: Seq<Seq<char>>)
    ensures
        v.declare_all(names).scopes == v.scopes,
        v.declare_all(names).visible.len() >= v.visible.len(),
        v.declare_all(names).visible.take(v.visible.len() as int) == v.visible,
        v.declare_all(names).names.len() == v.names.len() + names.len(),
        v.declare_all(names).names.take(v.names.len() as int) == v.names,
    decreases names.len(),
{
    if names.len() > 0 {
        let d = v.declare(names[0]);
        lemma_declare_all_extends(d, names.drop_first());
        let r = d.declare_all(names.drop_first());
        assert(r.visible.take(v.visible.len() as int) =~= r.visible.take(d.visible.len() as int).take(
            v.visible.len() as int,
        ));
        assert(d.visible.take(v.visible.len() as int) =~= v.visible);
        assert(r.names.take(v.names.len() as int) =~= r.names.take(d.names.len() as int).take(
            v.names.len() as int,
        ));
        assert(d.names.take(v.names.len() as int) =~= v.names);
    }
}

/// Looking up over visible symbols below the end of `names` only depends on that part of names.
proof fn lemma_lookup_names_take(names: Seq<Seq<char>>, n: int, visible: Seq<SymbolId>, name: Seq<char>)
    requires
        0 <= n <= names.len(),
        forall|i: int| 0 <= i < visible.len() ==> #[trigger] visible[i] < n,
    ensures
        lookup_in(names, visible, name) == lookup_in(names.take(n), visible, name),
    decreases visible.len(),
{
    if visible.len() > 0 {
        assert(visible.last() == visible[visible.len() - 1]);
        let rest = visible.drop_last();
        assert forall|i: int| 0 <= i < rest.len() implies #[trigger] rest[i] < n by {
            assert(rest[i] == visible[i]);
        }
        lemma_lookup_names_take(names, n, rest, name);
    }
}

/// Leaving a scope forgets what was declared in it: after entering a scope, declaring any
/// names and leaving it again, every name reaches what it reached before, and the visible
/// symbols and open scopes are those from before.
pub proof fn lemma_scope_restores(v: TableView, names: Seq<Seq<char>>, name: Seq<char>)
    requires
        v.wf(),
    ensures
        v.enter().declare_all(names).leave().visible == v.visible,
        v.enter().declare_all(names).leave().scopes == v.scopes,
        v.enter().declare_all(names).leave().lookup(name) == v.lookup(name),
{
    let e = v.enter();
    lemma_declare_all_extends(e, names);
    let d = e.declare_all(names);
    let l = d.leave();
    assert(d.scopes.last() == v.visible.len());
    assert(l.visible =~= v.visible);
    assert(l.scopes =~= v.scopes);
    assert forall|i: int| 0 <= i < v.visible.len() implies #[trigger] v.visible[i] < v.names.len() by {}
    lemma_lookup_names_take(d.names, v.names.len() as int, v.visible, name);
    assert(d.names.take(v.names.len() as int) == v.names);
}

/// A name reaches the latest of the visible symbols with that name: it shadows the earlier
/// ones, and a name that no visible symbol has reaches nothing.
pub proof fn lemma_lookup_latest(names: Seq<Seq<char>>, visible: Seq<SymbolId>, name: Seq<char>)
    ensures
        lookup_in(names, visible, name) matches Some(id) ==> exists|i: int|
            0 <= i < visible.len() && #[trigger] visible[i] == id && names[id as int] == name && forall|j: int|
                i < j < visible.len() ==> names[#[trigger] visible[j] as int] != name,
        lookup_in(names, visible, name) is None ==> forall|i: int|
            0 <= i < visible.len() ==> names[#[trigger] visible[i] as int] != name,
    decreases visible.len(),
{
    if visible.len() > 0 {
        let rest = visible.drop_last();
        lemma_lookup_latest(names, rest, name);
        let k = visible.len() - 1;
        assert(visible.last() == visible[k]);
        if names[visible.last() as int] != name {
            assert forall|i: int| 0 <= i < rest.len() implies #[trigger] visible[i] == rest[i] by {}
            if let Some(id) = lookup_in(names, visible, name) {
                let i = choose|i: int|
                    0 <= i < rest.len() && #[trigger] rest[i] == id && names[id as int] == name && forall|j: int|
                        i < j < rest.len() ==> names[#[trigger] rest[j] as int] != name;
                assert(visible[i] == id);
                assert forall|j: int| i < j < visible.len() implies names[#[trigger] visible[j] as int] != name by {
                    if j < k {
                        assert(visible[j] == rest[j]);
                    }
                }
            } else {
                assert forall|i: int| 0 <= i < visible.len() implies names[#[trigger] visible[i] as int] != name by {
                    if i < k {
                        assert(visible[i] == rest[i]);
                    }
                }
            }
        }
    }
}

/// One change to a table: declaring a name, entering a scope, or leaving one.
pub enum TableOp {
    Declare(Seq<char>),
    Enter,
    Leave,
}

impl TableView {
    /// The table after `op`.
    pub open spec fn step(self, op: TableOp) -> TableView {
        match op {
            TableOp::Declare(name) => self.declare(name),
            TableOp::Enter => self.enter(),
            TableOp::Leave => self.leave(),
        }
    }

    /// The table after each of `ops`, in order.
    pub open spec fn apply(self, ops: Seq<TableOp>) -> TableView
        decreases ops.len(),
    {
        if ops.len() == 0 {
            self
        } else {
            self.step(ops[0]).apply(ops.drop_first())
        }
    }
}

/// `ops`, begun `d` scopes deep, never leaves more scopes than it entered and ends with
/// as many left as entered.
pub open spec fn balanced_from(ops: Seq<TableOp>, d: nat) -> bool
    decreases ops.len(),
{
    if ops.len() == 0 {
        d == 0
    } else {
        match ops[0] {
            TableOp::Enter => balanced_from(ops.drop_first(), d + 1),
            TableOp::Leave => d > 0 && balanced_from(ops.drop_first(), (d - 1) as nat),
            TableOp::Declare(_) => balanced_from(ops.drop_first(), d),
        }
    }
}

/// `w` is `v` with a scope entered, and anything done inside it.
spec fn inside_scope_of(v: TableView, w: TableView) -> bool {
    &&& w.wf()
    &&& w.names.len() >= v.names.len()
    &&& w.names.take(v.names.len() as int) == v.names
    &&& w.visible.len() >= v.visible.len()
    &&& w.visible.take(v.visible.len() as int) == v.visible
    &&& w.scopes.len() >= v.scopes.len() + 1
    &&& w.scopes.take(v.scopes.len() + 1int) == v.scopes.push(v.visible.len())
    &&& forall|i: int| v.scopes.len() <= i < w.scopes.len() ==> #[trigger] w.scopes[i] >= v.visible.len()
}

proof fn lemma_step_inside(v: TableView, w: TableView, op: TableOp)
    requires
        inside_scope_of(v, w),
        w.names.len() < usize::MAX,
        op is Leave ==> w.scopes.len() > v.scopes.len() + 1,
    ensures
        inside_scope_of(v, w.step(op)),
{
    let m = v.scopes.len() + 1;
    let n = w.step(op);
    match op {
        TableOp::Declare(name) => {
            lemma_declare_wf(w, name);
            assert(n.names.take(v.names.len() as int) =~= w.names.take(v.names.len() as int));
            assert(n.visible.take(v.visible.len() as int) =~= w.visible.take(v.visible.len() as int));
        },
        TableOp::Enter => {
            lemma_enter_wf(w);
            assert(n.scopes.take(m as int) =~= w.scopes.take(m as int));
            assert forall|i: int| v.scopes.len() <= i < n.scopes.len() implies #[trigger] n.scopes[i]
                >= v.visible.len() by {
                if i < w.scopes.len() {
                    assert(n.scopes[i] == w.scopes[i]);
                }
            }
        },
        TableOp::Leave => {
            lemma_leave_wf(w);
            let k = w.scopes.last();
            assert(w.scopes[w.scopes.len() - 1] >= v.visible.len());
            assert(n.visible.take(v.visible.len() as int) =~= w.visible.take(v.visible.len() as int));
            assert(n.scopes.take(m as int) =~= w.scopes.take(m as int));
            assert forall|i: int| v.scopes.len() <= i < n.scopes.len() implies #[trigger] n.scopes[i]
                >= v.visible.len() by {
                assert(n.scopes[i] == w.scopes[i]);
            }
        },
    }
}

proof fn lemma_apply_inside(v: TableView, w: TableView, ops: Seq<TableOp>, d: nat)
    requires
        inside_scope_of(v, w),
        w.scopes.len() == v.scopes.len() + 1 + d,
        balanced_from(ops, d),
        w.names.len() + ops.len() < usize::MAX,
    ensures
        inside_scope_of(v, w.apply(ops)),
        w.apply(ops).scopes.len() == v.scopes.len() + 1,
    decreases ops.len(),
{
    if ops.len() > 0 {
        let op = ops[0];
        lemma_step_inside(v, w, op);
        let n = w.step(op);
        let e: nat = match op {
            TableOp::Enter => d + 1,
            TableOp::Leave => (d - 1) as nat,
            TableOp::Declare(_) => d,
        };
        assert(n.names.len() <= w.names.len() + 1);
        lemma_apply_inside(v, n, ops.drop_first(), e);
    }
}

/// Leaving a scope undoes everything done in it, however deeply scopes nest inside it:
/// after entering a scope, any declarations and balanced pairs of entered and left scopes,
/// and leaving the scope again, the visible symbols and open scopes are those from before,
/// and every name reaches what it reached before.
pub proof fn lemma_nested_scopes_restore(v: TableView, ops: Seq<TableOp>, name: Seq<char>)
    requires
        v.wf(),
        balanced_from(ops, 0),
        v.names.len() + ops.len() < usize::MAX,
    ensures
        v.enter().apply(ops).leave().visible == v.visible,
        v.enter().apply(ops).leave().scopes == v.scopes,
        v.enter().apply(ops).leave().lookup(name) == v.lookup(name),
{
    let e = v.enter();
    lemma_enter_wf(v);
    assert(e.names.take(v.names.len() as int) =~= v.names);
    assert(e.visible.take(v.visible.len() as int) =~= v.visible);
    assert(e.scopes.take(v.scopes.len() + 1int) =~= v.scopes.push(v.visible.len()));
    lemma_apply_inside(v, e, ops, 0);
    let w = e.apply(ops);
    let m = v.scopes.len() + 1;
    assert(w.scopes.last() == w.scopes.take(m as int)[m - 1]);
    assert(w.scopes.last() == v.visible.len());
    let l = w.leave();
    assert(l.visible =~= v.visible);
    assert(l.scopes =~= w.scopes.take(m as int).drop_last());
    assert(l.scopes =~= v.scopes);
    assert forall|i: int| 0 <= i < v.visible.len() implies #[trigger] v.visible[i] < v.names.len() by {}
    lemma_lookup_names_take(l.names, v.names.len() as int, v.visible, name);
}

/// A table of symbols of one kind, with nested scopes.
#[derive(Debug)]
pub struct SymbolTable<T: Symbol> {
    symbols: Vec<T>,
    visible: Vec<SymbolId>,
    scope_stack: Vec<usize>,
}

impl<T: Symbol> SymbolTable<T> {
    pub closed spec fn spec_symbols(&self) -> Seq<T> {
        self.symbols@
    }

    pub closed spec fn view(&self) -> TableView {
        TableView {
            names: self.symbols@.map_values(|s: T| s.spec_name()),
            visible: self.visible@,
            scopes: self.scope_stack@.map_values(|k: usize| k as nat),
        }
    }

    /// Well formed: each symbol carries its own index, and the view is well formed.
    pub closed spec fn wf(&self) -> bool {
        &&& forall|i: int| 0 <= i < self.symbols@.len() ==> (#[trigger] self.symbols@[i]).spec_id() == i
        &&& self.view().wf()
    }

    pub open spec fn spec_len(&self) -> nat {
        self.spec_symbols().len()
    }

    pub open spec fn spec_depth(&self) -> nat {
        self.view().scopes.len()
    }

    /// Each symbol of a well-formed table carries its own index.
    pub proof fn lemma_ids(&self)
        requires
            self.wf(),
        ensures
            forall|i: int| 0 <= i < self.spec_symbols().len() ==> (#[trigger] self.spec_symbols()[i]).spec_id() == i,
    {
    }

    pub proof fn lemma_view_names(&self)
        ensures
            self.view().names.len() == self.spec_symbols().len(),
            forall|i: int| 0 <= i < self.spec_symbols().len() ==> #[trigger] self.view().names[i] == self.spec_symbols()[i].spec_name(),
    {
    }

    /// Replacing a symbol by one of the same index and name keeps the table well formed and
    /// its view unchanged.
    pub proof fn lemma_set_keeps_view(&self, before: Seq<T>, i: int)
        requires
            0 <= i < before.len(),
            self.spec_symbols().len() == before.len(),
            forall|j: int| 0 <= j < before.len() && j != i ==> #[trigger] self.spec_symbols()[j] == before[j],
            self.spec_symbols()[i].spec_id() == before[i].spec_id(),
            self.spec_symbols()[i].spec_name() == before[i].spec_name(),
            forall|j: int| 0 <= j < before.len() ==> (#[trigger] before[j]).spec_id() == j,
        ensures
            self.view().names == before.map_values(|s: T| s.spec_name()),
            forall|j: int| 0 <= j < self.spec_symbols().len() ==> (#[trigger] self.spec_symbols()[j]).spec_id() == j,
    {
        assert(self.view().names =~= before.map_values(|s: T| s.spec_name()));
        assert forall|j: int| 0 <= j < self.spec_symbols().len() implies (#[trigger] self.spec_symbols()[j]).spec_id() == j by {
            if j != i {
                assert(self.spec_symbols()[j] == before[j]);
            }
        }
    }

    /// An empty table with no open scope.
    pub fn new() -> (r: Self)
        ensures
            r.wf(),
            r.spec_symbols().len() == 0,
            r.view().visible.len() == 0,
            r.view().scopes.len() == 0,
    {
        let r = SymbolTable { symbols: Vec::new(), visible: Vec::new(), scope_stack: Vec::new() };
        assert(r.view().names =~= Seq::<Seq<char>>::empty());
        r
    }

    /// An empty table with room for `capacity` symbols.
    pub fn with_capacity(capacity: usize) -> (r: Self)
        ensures
            r.wf(),
            r.spec_symbols().len() == 0,
            r.view().visible.len() == 0,
            r.view().scopes.len() == 0,
    {
        let r = SymbolTable { symbols: Vec::with_capacity(capacity), visible: Vec::new(), scope_stack: Vec::new() };
        assert(r.view().names =~= Seq::<Seq<char>>::empty());
        r
    }

    /// Adds a symbol named `name` at the next index; it hides any visible symbol of that name,
    /// whose index it records.
    pub fn declare(&mut self, name: String) -> (r: SymbolId)
        requires
            old(self).wf(),
            old(self).spec_symbols().len() < usize::MAX,
        ensures
            final(self).wf(),
            r == old(self).spec_symbols().len(),
            final(self).view() == old(self).view().declare(name@),
            final(self).spec_symbols().len() == old(self).spec_symbols().len() + 1,
            forall|i: int| 0 <= i < old(self).spec_symbols().len() ==> #[trigger] final(self).spec_symbols()[i] == old(self).spec_symbols()[i],
            final(self).spec_symbols().last().spec_id() == r,
            final(self).spec_symbols().last().spec_name() == name@,
            final(self).spec_symbols().last().spec_shadow_id() == old(self).view().lookup(name@),
    {
        let symbol_id = self.symbols.len();
        let shadow_id = self.lookup_name_id(name.as_str());
        let ghost old_view = self.view();
        let ghost n = name@;
        let symbol = T::new(symbol_id, name, shadow_id);
        self.symbols.push(symbol);
        self.visible.push(symbol_id);
        proof {
            lemma_declare_wf(old_view, n);
            assert(self.view().names =~= old_view.names.push(n));
            assert(self.view().visible =~= old_view.visible.push(symbol_id));
            assert(self.view().scopes =~= old_view.scopes);
        }
        symbol_id
    }

    /// The index of the symbol `name` reaches, if any.
    fn lookup_name_id(&self, name: &str) -> (r: Option<SymbolId>)
        requires
            self.wf(),
        ensures
            r == self.view().lookup(name@),
    {
        let ghost v = self.view();
        let mut k = self.visible.len();
        assert(v.visible.take(k as int) =~= v.visible);
        while k > 0
            invariant
                self.wf(),
                v == self.view(),
                k <= self.visible@.len(),
                v.lookup(name@) == lookup_in(v.names, v.visible.take(k as int), name@),
            decreases k,
        {
            let id = self.visible[k - 1];
            assert(v.visible.take(k as int).drop_last() =~= v.visible.take(k - 1));
            assert(v.visible.take(k as int).last() == id);
            assert(id < v.names.len());
            assert(v.names[id as int] == self.spec_symbols()[id as int].spec_name());
            if str_eq(self.symbols[id].name(), name) {
                return Some(id);
            }
            k = k - 1;
        }
        None
    }

    /// The symbol that `name` reaches: the most recent visible symbol of that name.
    pub fn lookup_name(&self, name: &str) -> (r: Option<&T>)
        requires
            self.wf(),
        ensures
            match self.view().lookup(name@) {
                Some(id) => r == Some(&self.spec_symbols()[id as int]),
                None => r is None,
            },
    {
        proof {
            self.lemma_lookup_bounded(name@);
        }
        match self.lookup_name_id(name) {
            Some(id) => Some(&self.symbols[id]),
            None => None,
        }
    }

    /// A name reaches a symbol of the table.
    pub proof fn lemma_lookup_bounded(&self, name: Seq<char>)
        requires
            self.wf(),
        ensures
            self.view().lookup(name) matches Some(id) ==> id < self.spec_symbols().len(),
    {
        lemma_lookup_in_visible(self.view().names, self.view().visible, name);
    }

    /// The symbol at index `id`, if there is one.
    pub fn lookup_id(&self, id: SymbolId) -> (r: Option<&T>)
        ensures
            id < self.spec_symbols().len() ==> r == Some(&self.spec_symbols()[id as int]),
            id >= self.spec_symbols().len() ==> r is None,
    {
        if id < self.symbols.len() {
            Some(&self.symbols[id])
        } else {
            None
        }
    }

    /// The symbol at index `id`, to change it, if there is one.
    pub fn lookup_id_mut(&mut self, id: SymbolId) -> (r: Option<&mut T>)
        ensures
            id < old(self).spec_symbols().len() ==> {
                &&& r is Some
                &&& *r->0 == old(self).spec_symbols()[id as int]
                &&& final(self).spec_symbols() == old(self).spec_symbols().update(id as int, *final(r->0))
                &&& final(self).view().visible == old(self).view().visible
                &&& final(self).view().scopes == old(self).view().scopes
            },
            id >= old(self).spec_symbols().len() ==> r is None && *final(self) == *old(self),
    {
        if id < self.symbols.len() {
            Some(&mut self.symbols[id])
        } else {
            None
        }
    }

    /// Opens a scope: what is declared from now on is forgotten when it is left.
    pub fn enter_scope(&mut self)
        requires
            old(self).wf(),
        ensures
            final(self).wf(),
            final(self).view() == old(self).view().enter(),
            final(self).spec_symbols() == old(self).spec_symbols(),
    {
        let ghost old_view = self.view();
        let k = self.visible.len();
        self.scope_stack.push(k);
        proof {
            lemma_enter_wf(old_view);
            assert(self.view().scopes =~= old_view.scopes.push(k as nat));
            assert(self.view().names =~= old_view.names);
        }
    }

    /// Closes the innermost scope: the symbols declared in it stop being visible, and each
    /// name reaches again what it reached before.
    pub fn leave_scope(&mut self)
        requires
            old(self).wf(),
            old(self).view().scopes.len() > 0,
        ensures
            final(self).wf(),
            final(self).view() == old(self).view().leave(),
            final(self).spec_symbols() == old(self).spec_symbols(),
    {
        let ghost old_view = self.view();
        let start = self.scope_stack.pop().unwrap();
        assert(old_view.scopes.last() == start as nat);
        assert(old_view.scopes[old_view.scopes.len() - 1] <= old_view.visible.len());
        self.visible.truncate(start);
        proof {
            lemma_leave_wf(old_view);
            assert(self.view().scopes =~= old_view.scopes.drop_last());
            assert(self.view().visible =~= old_view.visible.take(start as int));
            assert(self.view().names =~= old_view.names);
        }
    }
}

impl SymbolTable<ValueSymbol> {
    /// Gives the value `id` the type `ty`.
    pub fn set_type(&mut self, id: SymbolId, ty: TypeKind)
        requires
            old(self).wf(),
            id < old(self).spec_symbols().len(),
        ensures
            final(self).wf(),
            final(self).view() == old(self).view(),
            final(self).spec_symbols().len() == old(self).spec_symbols().len(),
            final(self).spec_symbols()[id as int].ty == ty,
            forall|i: int| 0 <= i < old(self).spec_symbols().len() && i != id ==> #[trigger] final(self).spec_symbols()[i] == old(self).spec_symbols()[i],
    {
        let ghost before = self.spec_symbols();
        match self.lookup_id_mut(id) {
            Some(symbol) => {
                symbol.ty = ty;
            },
            None => {},
        }
        proof {
            self.lemma_set_keeps_view(before, id as int);
            assert(self.view().names =~= old(self).view().names);
        }
    }
}

/// The symbol tables of one source (values, types and loop labels) and the number of scopes
/// open in them.
#[derive(Debug)]
pub struct SymbolsTable {
    pub value_table: SymbolTable<ValueSymbol>,
    pub type_table: SymbolTable<TypeSymbol>,
    pub control_flow_table: SymbolTable<ControlFlowSymbol>,
    pub depth: u16,
}

impl SymbolsTable {
    /// Each table is well formed and has `depth` scopes open.
    pub open spec fn wf(&self) -> bool {
        &&& self.value_table.wf()
        &&& self.type_table.wf()
        &&& self.control_flow_table.wf()
        &&& self.value_table.spec_depth() == self.depth
        &&& self.type_table.spec_depth() == self.depth
        &&& self.control_flow_table.spec_depth() == self.depth
    }

    /// Empty tables with no scope open.
    pub fn new() -> (r: Self)
        ensures
            r.wf(),
            r.depth == 0,
            r.value_table.spec_symbols().len() == 0,
            r.value_table.view().visible.len() == 0,
            r.type_table.spec_symbols().len() == 0,
            r.control_flow_table.spec_symbols().len() == 0,
    {
        SymbolsTable {
            control_flow_table: SymbolTable::with_capacity(0),
            type_table: SymbolTable::with_capacity(0),
            value_table: SymbolTable::new(),
            depth: 0,
        }
    }

    /// Opens a scope in every table.
    pub fn enter_scope(&mut self)
        requires
            old(self).wf(),
            old(self).depth < u16::MAX,
        ensures
            final(self).wf(),
            final(self).depth == old(self).depth + 1,
            final(self).value_table.view() == old(self).value_table.view().enter(),
            final(self).type_table.view() == old(self).type_table.view().enter(),
            final(self).control_flow_table.view() == old(self).control_flow_table.view().enter(),
            final(self).value_table.spec_symbols() == old(self).value_table.spec_symbols(),
            final(self).type_table.spec_symbols() == old(self).type_table.spec_symbols(),
            final(self).control_flow_table.spec_symbols() == old(self).control_flow_table.spec_symbols(),
    {
        self.depth = self.depth + 1;
        self.control_flow_table.enter_scope();
        self.type_table.enter_scope();
        self.value_table.enter_scope();
    }

    /// Closes the innermost scope of every table.
    pub fn leave_scope(&mut self)
        requires
            old(self).wf(),
            old(self).depth > 0,
        ensures
            final(self).wf(),
            final(self).depth == old(self).depth - 1,
            final(self).value_table.view() == old(self).value_table.view().leave(),
            final(self).type_table.view() == old(self).type_table.view().leave(),
            final(self).control_flow_table.view() == old(self).control_flow_table.view().leave(),
            final(self).value_table.spec_symbols() == old(self).value_table.spec_symbols(),
            final(self).type_table.spec_symbols() == old(self).type_table.spec_symbols(),
            final(self).control_flow_table.spec_symbols() == old(self).control_flow_table.spec_symbols(),
    {
        self.depth = self.depth - 1;
        self.control_flow_table.leave_scope();
        self.type_table.leave_scope();
        self.value_table.leave_scope();
    }

    /// Declares a value named `name` of type `ty`.
    pub fn declare_value(&mut self, name: String, ty: TypeKind) -> (r: SymbolId)
        requires
            old(self).wf(),
            old(self).value_table.spec_symbols().len() < usize::MAX,
        ensures
            final(self).wf(),
            final(self).depth == old(self).depth,
            r == old(self).value_table.spec_symbols().len(),
            final(self).value_table.view() == old(self).value_table.view().declare(name@),
            final(self).value_table.spec_symbols().drop_last() == old(self).value_table.spec_symbols(),
            final(self).value_table.spec_symbols().len() == r + 1,
            final(self).value_table.spec_symbols().last().id == r,
            final(self).value_table.spec_symbols().last().name@ == name@,
            final(self).value_table.spec_symbols().last().shadow_id == old(self).value_table.view().lookup(name@),
            final(self).value_table.spec_symbols().last().ty == ty,
            final(self).type_table == old(self).type_table,
            final(self).control_flow_table == old(self).control_flow_table,
    {
        let ghost n = name;
        let symbol_id = self.value_table.declare(name);
        let ghost mid = self.value_table.spec_symbols();
        match self.value_table.lookup_id_mut(symbol_id) {
            Some(symbol) => {
                symbol.ty = ty;
            },
            None => {},
        }
        proof {
            let s = self.value_table.spec_symbols();
            assert(s.len() == mid.len());
            assert(s[symbol_id as int].id == symbol_id);
            assert(s.drop_last() =~= old(self).value_table.spec_symbols());
            self.value_table.lemma_set_keeps_view(mid, symbol_id as int);
        }
        symbol_id
    }

    /// Declares a type named `name`.
    pub fn declare_type(&mut self, name: String) -> (r: SymbolId)
        requires
            old(self).wf(),
            old(self).type_table.spec_symbols().len() < usize::MAX,
        ensures
            final(self).wf(),
            final(self).depth == old(self).depth,
            r == old(self).type_table.spec_symbols().len(),
            final(self).type_table.view() == old(self).type_table.view().declare(name@),
            final(self).value_table == old(self).value_table,
            final(self).control_flow_table == old(self).control_flow_table,
    {
        self.type_table.declare(name)
    }

    /// Declares a loop label named `name`.
    pub fn declare_control_flow(&mut self, name: String) -> (r: SymbolId)
        requires
            old(self).wf(),
            old(self).control_flow_table.spec_symbols().len() < usize::MAX,
        ensures
            final(self).wf(),
            final(self).depth == old(self).depth,
            r == old(self).control_flow_table.spec_symbols().len(),
            final(self).control_flow_table.view() == old(self).control_flow_table.view().declare(name@),
            final(self).value_table == old(self).value_table,
            final(self).type_table == old(self).type_table,
    {
        self.control_flow_table.declare(name)
    }
}

} // verus!
