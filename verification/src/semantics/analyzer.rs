use vstd::prelude::*;

use crate::diagnostic::reporter::{appended, Reporter};
use crate::diagnostic::store::{count_kind, lemma_count_concat, lemma_count_zero, DiagnosticEntry};
use crate::diagnostic::{DiagnosticKind, DiagnosticReport};
use crate::semantics::ctx::AnalyzerContext;
use crate::semantics::source::{ParsedCodeKind, ParsedCodeSource};
use crate::semantics::stages::ast_lowering::{lemma_lowering_ready_frame, lowering_done, lowered_program, lowering_ready, lowering_reports, values, AstLoweringStage};
use crate::semantics::stages::name_resolution::{
    ast_statements, lemma_names_resolved_frame, name_resolution_ready, names_resolved, ns_start, ns_stmts, NameResolutionStage,
};
use crate::semantics::stages::type_inference::{lemma_types_inferred_frame, type_inference_ready, types_inferred, TypeInferenceStage};

use crate::semantics::stages::type_checking::{reported_as, type_checking_ready, type_checking_reports, TypeCheckingStage};

verus! {

/// Whether one of `ds` is an error.
pub open spec fn has_error(ds: Seq<DiagnosticReport>) -> bool {
    exists|i: int| 0 <= i < ds.len() && (#[trigger] ds[i]).message.spec_kind() == DiagnosticKind::Error
}

/// `after` is `before` with its syntax tree lowered (see `lowered_program`), and `ds` what
/// lowering reported.
#[verifier::opaque]
pub open spec fn lowered(before: AnalyzerContext, after: AnalyzerContext, ds: Seq<DiagnosticReport>) -> bool {
    &&& after.input.source == before.input.source
    &&& after.symbol_table == before.symbol_table
    &&& after.input.code matches ParsedCodeKind::Hir(h) && lowered_program(
        ast_statements(before.input.code),
        values(before.symbol_table),
        h.statements@,
    )
    &&& lowering_reports(ast_statements(before.input.code), values(before.symbol_table), ds)
}

/// The default stages can run on `ctx`: name resolution can, and whatever it gives, lowering
/// can, and whatever lowering gives, type inference can.
#[verifier::opaque]
pub open spec fn entry_ready(ctx: AnalyzerContext) -> bool {
    &&& name_resolution_ready(ctx)
    &&& forall|m: AnalyzerContext, d: Seq<DiagnosticReport>| #[trigger] names_resolved(ctx, m, d) ==> lowering_ready(m)
    &&& forall|m: AnalyzerContext, m2: AnalyzerContext, d: Seq<DiagnosticReport>, d2: Seq<DiagnosticReport>|
        #![trigger names_resolved(ctx, m, d), lowered(m, m2, d2)]
        names_resolved(ctx, m, d) && lowered(m, m2, d2) ==> type_inference_ready(m2)
}

proof fn lemma_entry_ready_stages(ctx: AnalyzerContext, m: AnalyzerContext, m2: AnalyzerContext, d: Seq<DiagnosticReport>, d2: Seq<DiagnosticReport>)
    requires
        entry_ready(ctx),
    ensures
        name_resolution_ready(ctx),
        names_resolved(ctx, m, d) ==> lowering_ready(m),
        names_resolved(ctx, m, d) && lowered(m, m2, d2) ==> type_inference_ready(m2),
{
    reveal(entry_ready);
}

/// One source taken through the default stages: the context before, after name resolution,
/// and after lowering, with what lowering reported.
pub struct EntryTrace {
    pub before: AnalyzerContext,
    pub resolved: AnalyzerContext,
    pub lowered: AnalyzerContext,
    pub lowering: Seq<DiagnosticReport>,
}

/// What name resolution reports on the context `ctx`.
pub open spec fn resolution_reports(ctx: AnalyzerContext) -> Seq<DiagnosticReport> {
    ns_stmts(ns_start(ctx.symbol_table), ast_statements(ctx.input.code)).reports
}

/// The stages went as `t` says and left `after`: name resolution, then, where it reported no
/// error, lowering and type inference.
pub open spec fn traced(t: EntryTrace, after: AnalyzerContext) -> bool {
    &&& names_resolved(t.before, t.resolved, resolution_reports(t.before))
    &&& if !has_error(resolution_reports(t.before)) {
        lowered(t.resolved, t.lowered, t.lowering) && types_inferred(t.lowered, after)
    } else {
        after.input == t.resolved.input && after.symbol_table == t.resolved.symbol_table
    }
}

/// What the stages reported on one source.
pub open spec fn trace_reports(t: EntryTrace) -> Seq<DiagnosticReport> {
    if has_error(resolution_reports(t.before)) {
        resolution_reports(t.before)
    } else {
        resolution_reports(t.before) + t.lowering
    }
}

/// What the stages reported on the sources of `ts`, in order.
pub open spec fn traces_reports(ts: Seq<EntryTrace>) -> Seq<DiagnosticReport>
    decreases ts.len(),
{
    if ts.len() == 0 {
        Seq::empty()
    } else {
        traces_reports(ts.drop_last()) + trace_reports(ts.last())
    }
}

/// The diagnostics of `entries`.
pub open spec fn diagnostics_of(entries: Seq<DiagnosticEntry>) -> Seq<DiagnosticReport> {
    entries.map_values(|e: DiagnosticEntry| e.diagnostic)
}

/// A stage of analysis.
pub trait AnalyzerStage {
    /// The stage can run on `ctx`.
    spec fn ready(&self, ctx: AnalyzerContext) -> bool;

    /// Running the stage on `before` gave `after` and `ok`.
    spec fn done(&self, before: AnalyzerContext, after: AnalyzerContext, ok: bool) -> bool;

    fn name(&self) -> (r: &'static str);

    fn run(&mut self, ctx: &mut AnalyzerContext) -> (r: bool)
        requires
            old(self).ready(*old(ctx)),
        ensures
            old(self).done(*old(ctx), *final(ctx), r),
    ;
}

impl AnalyzerStage for NameResolutionStage {
    open spec fn ready(&self, ctx: AnalyzerContext) -> bool {
        name_resolution_ready(ctx)
    }

    open spec fn done(&self, before: AnalyzerContext, after: AnalyzerContext, ok: bool) -> bool {
        let d = ns_stmts(ns_start(before.symbol_table), ast_statements(before.input.code)).reports;
        &&& names_resolved(before, after, d)
        &&& appended(before.reporter, after.reporter, d)
        &&& ok == (count_kind(after.reporter.spec_entries(), DiagnosticKind::Error) <= count_kind(
            before.reporter.spec_entries(),
            DiagnosticKind::Error,
        ))
    }

    fn name(&self) -> (r: &'static str) {
        NameResolutionStage::name(self)
    }

    fn run(&mut self, ctx: &mut AnalyzerContext) -> (r: bool) {
        NameResolutionStage::run(self, ctx)
    }
}

impl AnalyzerStage for AstLoweringStage {
    open spec fn ready(&self, ctx: AnalyzerContext) -> bool {
        lowering_ready(ctx)
    }

    open spec fn done(&self, before: AnalyzerContext, after: AnalyzerContext, ok: bool) -> bool {
        &&& ok
        &&& exists|ds: Seq<DiagnosticReport>| lowering_done(before, after, ds)
    }

    fn name(&self) -> (r: &'static str) {
        AstLoweringStage::name(self)
    }

    fn run(&mut self, ctx: &mut AnalyzerContext) -> (r: bool) {
        AstLoweringStage::run(self, ctx)
    }
}

impl AnalyzerStage for TypeInferenceStage {
    open spec fn ready(&self, ctx: AnalyzerContext) -> bool {
        type_inference_ready(ctx)
    }

    open spec fn done(&self, before: AnalyzerContext, after: AnalyzerContext, ok: bool) -> bool {
        &&& ok
        &&& types_inferred(before, after)
        &&& after.reporter == before.reporter
    }

    fn name(&self) -> (r: &'static str) {
        TypeInferenceStage::name(self)
    }

    fn run(&mut self, ctx: &mut AnalyzerContext) -> (r: bool) {
        TypeInferenceStage::run(self, ctx)
    }
}

impl AnalyzerStage for TypeCheckingStage {
    open spec fn ready(&self, ctx: AnalyzerContext) -> bool {
        type_checking_ready(ctx)
    }

    open spec fn done(&self, before: AnalyzerContext, after: AnalyzerContext, ok: bool) -> bool {
        &&& ok
        &&& after.input == before.input
        &&& after.symbol_table == before.symbol_table
        &&& reported_as(before.reporter, after.reporter, type_checking_reports(before))
    }

    fn name(&self) -> (r: &'static str) {
        TypeCheckingStage::name(self)
    }

    fn run(&mut self, ctx: &mut AnalyzerContext) -> (r: bool) {
        TypeCheckingStage::run(self, ctx)
    }
}

/// The default stages.
#[derive(Debug)]
pub enum DefaultStage {
    NameResolution(NameResolutionStage),
    AstLowering(AstLoweringStage),
    TypeInference(TypeInferenceStage),
}

impl DefaultStage {
    pub open spec fn spec_name(self) -> Seq<char> {
        match self {
            DefaultStage::NameResolution(_) => "NameResolution"@,
            DefaultStage::AstLowering(_) => "AstLowering"@,
            DefaultStage::TypeInference(_) => "TypeInference"@,
        }
    }

    /// The name of the stage.
    pub fn name(&self) -> (r: &'static str)
        ensures
            r@ == self.spec_name(),
    {
        match self {
            DefaultStage::NameResolution(s) => s.name(),
            DefaultStage::AstLowering(s) => s.name(),
            DefaultStage::TypeInference(s) => s.name(),
        }
    }
}

/// The stages an analyzer runs, in order: name resolution, lowering, type inference.
pub fn get_default_stages() -> (r: Vec<DefaultStage>)
    ensures
        default_stages(r@),
{
    let mut stages: Vec<DefaultStage> = Vec::new();
    stages.push(DefaultStage::NameResolution(NameResolutionStage));
    stages.push(DefaultStage::AstLowering(AstLoweringStage));
    stages.push(DefaultStage::TypeInference(TypeInferenceStage));
    stages
}

pub open spec fn default_stages(s: Seq<DefaultStage>) -> bool {
    &&& s.len() == 3
    &&& s[0] is NameResolution
    &&& s[1] is AstLowering
    &&& s[2] is TypeInference
}

/// Runs the stages of analysis over sources, reporting under `parent:analyzer`.
pub struct LumaAnalyzer {
    reporter: Reporter,
    entries: Vec<AnalyzerContext>,
    stages: Vec<DefaultStage>,
    traces: Ghost<Seq<EntryTrace>>,
}

/// `after` is `before` with the diagnostics `ds` taken over, in order, under whatever names.
pub open spec fn took_over(before: Reporter, after: Reporter, ds: Seq<DiagnosticReport>) -> bool {
    &&& after.spec_source() == before.spec_source()
    &&& after.spec_name() == before.spec_name()
    &&& after.spec_entries().take(before.spec_entries().len() as int) == before.spec_entries()
    &&& diagnostics_of(after.spec_entries()).skip(before.spec_entries().len() as int) == ds
    &&& after.spec_entries().len() >= before.spec_entries().len()
}

/// The entries that `after` holds beyond those of `before` are filed under `names`, in order.
pub open spec fn filed_under(before: Reporter, after: Reporter, names: Seq<Seq<char>>) -> bool {
    &&& after.spec_entries().len() == before.spec_entries().len() + names.len()
    &&& forall|i: int|
        0 <= i < names.len() ==> (#[trigger] after.spec_entries()[before.spec_entries().len() + i]).reporter_name@
            == names[i]
}

/// `n` times the name `name`.
pub open spec fn named(n: nat, name: Seq<char>) -> Seq<Seq<char>> {
    Seq::new(n, |i: int| name)
}

/// The reporter names under which the stages file on one source, for an analyzer that
/// reports as `analyzer`: `analyzer:NameResolution` for what name resolution reported,
/// then `analyzer:AstLowering` for what lowering reported.
pub open spec fn trace_names(t: EntryTrace, analyzer: Seq<char>) -> Seq<Seq<char>> {
    let first = named(resolution_reports(t.before).len(), analyzer + ":"@ + "NameResolution"@);
    if has_error(resolution_reports(t.before)) {
        first
    } else {
        first + named(t.lowering.len(), analyzer + ":"@ + "AstLowering"@)
    }
}

/// The reporter names under which the stages file on the sources of `ts`, in order.
pub open spec fn traces_names(ts: Seq<EntryTrace>, analyzer: Seq<char>) -> Seq<Seq<char>>
    decreases ts.len(),
{
    if ts.len() == 0 {
        Seq::empty()
    } else {
        traces_names(ts.drop_last(), analyzer) + trace_names(ts.last(), analyzer)
    }
}

proof fn lemma_filed_under_empty(r: Reporter)
    ensures
        filed_under(r, r, Seq::empty()),
{
}

proof fn lemma_filed_under_trans(a: Reporter, b: Reporter, c: Reporter, x: Seq<Seq<char>>, y: Seq<Seq<char>>)
    requires
        filed_under(a, b, x),
        filed_under(b, c, y),
        c.spec_entries().take(b.spec_entries().len() as int) == b.spec_entries(),
    ensures
        filed_under(a, c, x + y),
{
    let na = a.spec_entries().len() as int;
    let nb = b.spec_entries().len() as int;
    assert forall|i: int| 0 <= i < (x + y).len() implies (#[trigger] c.spec_entries()[na + i]).reporter_name@ == (x
        + y)[i] by {
        if i < x.len() {
            assert(c.spec_entries()[na + i] == c.spec_entries().take(nb)[na + i]);
        } else {
            let j = i - x.len();
            assert(c.spec_entries()[nb + j].reporter_name@ == y[j]);
        }
    }
}

/// Absorbing a child that filed from nothing files its entries under the child's name.
proof fn lemma_absorb_names(before: Reporter, after: Reporter, c0: Reporter, c1: Reporter, ds: Seq<DiagnosticReport>)
    requires
        c0.spec_entries().len() == 0,
        appended(c0, c1, ds),
        after.spec_entries() == before.spec_entries() + c1.spec_entries(),
    ensures
        filed_under(before, after, named(ds.len(), c0.spec_name())),
{
    let n = before.spec_entries().len() as int;
    assert forall|i: int| 0 <= i < ds.len() implies (#[trigger] after.spec_entries()[n + i]).reporter_name@ == named(
        ds.len(),
        c0.spec_name(),
    )[i] by {
        assert(after.spec_entries()[n + i] == c1.spec_entries()[0 + i]);
    }
}

proof fn lemma_took_over_empty(r: Reporter)
    ensures
        took_over(r, r, Seq::empty()),
{
    assert(r.spec_entries().take(r.spec_entries().len() as int) =~= r.spec_entries());
    assert(diagnostics_of(r.spec_entries()).skip(r.spec_entries().len() as int) =~= Seq::<DiagnosticReport>::empty());
}

proof fn lemma_took_over_trans(a: Reporter, b: Reporter, c: Reporter, x: Seq<DiagnosticReport>, y: Seq<DiagnosticReport>)
    requires
        took_over(a, b, x),
        took_over(b, c, y),
    ensures
        took_over(a, c, x + y),
{
    let na = a.spec_entries().len() as int;
    let nb = b.spec_entries().len() as int;
    assert(c.spec_entries().take(na) =~= c.spec_entries().take(nb).take(na));
    let dc = diagnostics_of(c.spec_entries());
    let db = diagnostics_of(b.spec_entries());
    assert(dc.take(nb) =~= db) by {
        assert(c.spec_entries().take(nb) == b.spec_entries());
    }
    assert(dc.skip(na) =~= db.skip(na) + dc.skip(nb));
}

/// Absorbing a child that reported `ds` from nothing takes `ds` over.
proof fn lemma_absorb_child(before: Reporter, after: Reporter, c0: Reporter, c1: Reporter, ds: Seq<DiagnosticReport>)
    requires
        c0.spec_entries().len() == 0,
        appended(c0, c1, ds),
        after.spec_source() == before.spec_source(),
        after.spec_name() == before.spec_name(),
        after.spec_entries() == before.spec_entries() + c1.spec_entries(),
    ensures
        took_over(before, after, ds),
{
    let n = before.spec_entries().len() as int;
    assert(after.spec_entries().take(n) =~= before.spec_entries());
    assert(diagnostics_of(after.spec_entries()).skip(n) =~= ds) by {
        assert forall|i: int| 0 <= i < ds.len() implies diagnostics_of(after.spec_entries()).skip(n)[i] == ds[i] by {
            assert(c1.spec_entries()[0 + i].diagnostic == ds[i]);
        }
    }
}

impl LumaAnalyzer {
    pub closed spec fn spec_reporter(&self) -> Reporter {
        self.reporter
    }

    pub closed spec fn spec_entries(&self) -> Seq<AnalyzerContext> {
        self.entries@
    }

    /// How the stages went on each source the last analysis took through them.
    pub closed spec fn spec_traces(&self) -> Seq<EntryTrace> {
        self.traces@
    }

    pub closed spec fn wf(&self) -> bool {
        default_stages(self.stages@)
    }

    /// An analyzer with no sources, reporting as `parent:analyzer`.
    pub fn new(parent_reporter: &Reporter) -> (r: Self)
        ensures
            r.wf(),
            r.spec_entries().len() == 0,
            r.spec_reporter().spec_name() == parent_reporter.spec_name() + ":"@ + "analyzer"@,
            r.spec_reporter().spec_source().spec_source_name() == parent_reporter.spec_source().spec_source_name(),
            r.spec_reporter().spec_entries().len() == 0,
    {
        LumaAnalyzer {
            reporter: parent_reporter.collector("analyzer"),
            entries: Vec::new(),
            stages: get_default_stages(),
            traces: Ghost(Seq::empty()),
        }
    }

    /// Adds a source to analyze, with empty symbol tables.
    pub fn add_entry(&mut self, source: ParsedCodeSource)
        requires
            old(self).wf(),
        ensures
            final(self).wf(),
            final(self).spec_reporter() == old(self).spec_reporter(),
            final(self).spec_entries().len() == old(self).spec_entries().len() + 1,
            final(self).spec_entries().drop_last() == old(self).spec_entries(),
            final(self).spec_entries().last().input == source,
            final(self).spec_entries().last().symbol_table.wf(),
            final(self).spec_entries().last().symbol_table.depth == 0,
            final(self).spec_entries().last().symbol_table.value_table.spec_symbols().len() == 0,
            final(self).spec_entries().last().symbol_table.value_table.view().visible.len() == 0,
    {
        let ctx = AnalyzerContext::new(&self.reporter, source);
        self.entries.push(ctx);
        assert(self.entries@.drop_last() =~= old(self).entries@);
    }

    /// Adds each of `sources`, in order.
    pub fn add_entries(&mut self, sources: Vec<ParsedCodeSource>)
        requires
            old(self).wf(),
        ensures
            final(self).wf(),
            final(self).spec_reporter() == old(self).spec_reporter(),
            final(self).spec_entries().len() == old(self).spec_entries().len() + sources@.len(),
            final(self).spec_entries().take(old(self).spec_entries().len() as int) == old(self).spec_entries(),
            forall|i: int|
                0 <= i < sources@.len() ==> (#[trigger] final(self).spec_entries()[old(self).spec_entries().len() + i]).input
                    == sources@[i],
            forall|i: int|
                0 <= i < sources@.len() ==> (#[trigger] final(self).spec_entries()[old(self).spec_entries().len()
                    + i]).symbol_table.depth == 0,
    {
        let ghost orig = sources@;
        let ghost start = self.entries@;
        let total = sources.len();
        let mut rest = sources;
        let mut i: usize = 0;
        while rest.len() > 0
            invariant
                self.wf(),
                self.reporter == old(self).reporter,
                i + rest@.len() == orig.len(),
                orig.len() == total,
                rest@ == orig.skip(i as int),
                self.entries@.len() == start.len() + i,
                self.entries@.take(start.len() as int) == start,
                start == old(self).entries@,
                forall|j: int| 0 <= j < i ==> (#[trigger] self.entries@[start.len() + j]).input == orig[j],
                forall|j: int| 0 <= j < i ==> (#[trigger] self.entries@[start.len() + j]).symbol_table.depth == 0,
            decreases rest.len(),
        {
            let source = rest.remove(0);
            assert(source == orig[i as int]);
            let ghost before = self.entries@;
            self.add_entry(source);
            assert(self.entries@.take(start.len() as int) =~= before.take(start.len() as int));
            assert forall|j: int| 0 <= j < i + 1 implies (#[trigger] self.entries@[start.len() + j]).input == orig[j]
                && self.entries@[start.len() + j].symbol_table.depth == 0 by {
                if j < i {
                    assert(self.entries@[start.len() + j] == before[start.len() + j]);
                }
            }
            i = i + 1;
        }
    }

    /// Forgets every source.
    pub fn reset(&mut self)
        ensures
            final(self).wf() == old(self).wf(),
            final(self).spec_reporter() == old(self).spec_reporter(),
            final(self).spec_entries().len() == 0,
    {
        self.entries.clear();
    }

    /// The reporter that collected the diagnostics of analysis.
    pub fn into_reporter(self) -> (r: Reporter)
        ensures
            r == self.spec_reporter(),
    {
        self.reporter
    }

    /// Takes every source through the default stages in order: name resolution, then, where
    /// it reported no error, lowering and type inference. Stops at the first source whose
    /// names could not all be resolved, and then gives `false`.
    pub fn analyze(&mut self) -> (r: bool)
        requires
            old(self).wf(),
            forall|i: int| 0 <= i < old(self).spec_entries().len() ==> entry_ready(#[trigger] old(self).spec_entries()[i]),
        ensures
            final(self).wf(),
            final(self).spec_entries().len() == old(self).spec_entries().len(),
            r == forall|i: int|
                0 <= i < old(self).spec_entries().len() ==> !has_error(resolution_reports(#[trigger] old(self).spec_entries()[i])),
            final(self).spec_traces().len() <= old(self).spec_entries().len(),
            r ==> final(self).spec_traces().len() == old(self).spec_entries().len(),
            !r ==> final(self).spec_traces().len() > 0 && has_error(
                resolution_reports(old(self).spec_entries()[final(self).spec_traces().len() - 1]),
            ),
            forall|i: int|
                0 <= i < final(self).spec_traces().len() ==> (#[trigger] final(self).spec_traces()[i]).before == old(self).spec_entries()[i]
                    && traced(final(self).spec_traces()[i], final(self).spec_entries()[i]),
            forall|i: int|
                final(self).spec_traces().len() <= i < old(self).spec_entries().len() ==> #[trigger] final(self).spec_entries()[i]
                    == old(self).spec_entries()[i],
            took_over(old(self).spec_reporter(), final(self).spec_reporter(), traces_reports(final(self).spec_traces())),
            filed_under(
                old(self).spec_reporter(),
                final(self).spec_reporter(),
                traces_names(final(self).spec_traces(), old(self).spec_reporter().spec_name()),
            ),
    {
        let ghost olds = self.entries@;
        let ghost r0 = self.reporter;
        proof {
            lemma_took_over_empty(r0);
            lemma_filed_under_empty(r0);
        }
        self.traces = Ghost(Seq::empty());
        let n = self.entries.len();
        let mut i: usize = 0;
        while i < n
            invariant
                self.wf(),
                n == olds.len(),
                self.entries@.len() == n,
                i <= n,
                self.traces@.len() == i,
                forall|j: int| 0 <= j < n ==> entry_ready(#[trigger] olds[j]),
                forall|j: int| 0 <= j < i ==> !has_error(resolution_reports(#[trigger] olds[j])),
                forall|j: int| i <= j < n ==> #[trigger] self.entries@[j] == olds[j],
                forall|j: int|
                    0 <= j < i ==> (#[trigger] self.traces@[j]).before == olds[j] && traced(self.traces@[j], self.entries@[j]),
                took_over(r0, self.reporter, traces_reports(self.traces@)),
                filed_under(r0, self.reporter, traces_names(self.traces@, r0.spec_name())),
                olds == old(self).entries@,
                r0 == old(self).reporter,
            decreases n - i,
        {
            let ghost before_entries = self.entries@;
            let ghost before_traces = self.traces@;
            let ghost rep_before = self.reporter;
            let mut ctx = self.entries.remove(i);
            assert(ctx == olds[i as int]);
            let (ok, Ghost(t)) = analyze_entry(&mut self.reporter, &mut ctx);
            self.entries.insert(i, ctx);
            self.traces = Ghost(self.traces@.push(t));
            proof {
                assert(self.traces@.drop_last() =~= before_traces);
                lemma_took_over_trans(r0, rep_before, self.reporter, traces_reports(before_traces), trace_reports(t));
                lemma_filed_under_trans(
                    r0,
                    rep_before,
                    self.reporter,
                    traces_names(before_traces, r0.spec_name()),
                    trace_names(t, r0.spec_name()),
                );
                assert forall|j: int| 0 <= j < n && j != i implies #[trigger] self.entries@[j] == before_entries[j] by {
                    if j < i {
                        assert(self.entries@[j] == before_entries[j]);
                    } else {
                        assert(self.entries@[j] == before_entries[j]);
                    }
                }
                assert forall|j: int| 0 <= j < i + 1 implies (#[trigger] self.traces@[j]).before == olds[j] && traced(
                    self.traces@[j],
                    self.entries@[j],
                ) by {
                    if j < i {
                        assert(self.traces@[j] == before_traces[j]);
                    }
                }
            }
            if !ok {
                return false;
            }
            i = i + 1;
        }
        true
    }
}


/// Takes one source through the default stages, each reporting under `analyzer:stage`; the
/// analyzer's reporter takes over what they report.
#[verifier::spinoff_prover]
#[verifier::rlimit(40)]
fn analyze_entry(reporter: &mut Reporter, ctx: &mut AnalyzerContext) -> (r: (bool, Ghost<EntryTrace>))
    requires
        entry_ready(*old(ctx)),
    ensures
        r.1@.before == *old(ctx),
        traced(r.1@, *final(ctx)),
        r.0 == !has_error(resolution_reports(*old(ctx))),
        took_over(*old(reporter), *final(reporter), trace_reports(r.1@)),
        filed_under(*old(reporter), *final(reporter), trace_names(r.1@, old(reporter).spec_name())),
{
    let ghost c0 = *ctx;
    let ghost rep0 = *reporter;
    let ghost d1 = resolution_reports(c0);
    let mut nr = NameResolutionStage;
    ctx.reporter = reporter.collector(nr.name());
    let ghost child0 = ctx.reporter;
    let ghost c0b = *ctx;
    proof {
        lemma_entry_ready_stages(c0, c0, c0, d1, d1);
        lemma_names_resolved_frame(c0, c0b, c0, c0, d1);
    }
    let ok = nr.run(ctx);
    let ghost m = *ctx;
    let mut child = reporter.branch();
    std::mem::swap(&mut child, &mut ctx.reporter);
    let ghost m_ = *ctx;
    let ghost child1 = child;
    reporter.absorb(child);
    proof {
        lemma_names_resolved_frame(c0b, c0, m, m_, d1);
        lemma_absorb_child(rep0, *reporter, child0, child1, d1);
        lemma_absorb_names(rep0, *reporter, child0, child1, d1);
        lemma_ok_iff_no_error(child0, child1, d1, ok);
    }
    if !ok {
        let ghost t = EntryTrace { before: c0, resolved: m_, lowered: m_, lowering: Seq::empty() };
        return (false, Ghost(t));
    }
    let ghost rep1 = *reporter;
    let mut al = AstLoweringStage;
    ctx.reporter = reporter.collector(al.name());
    let ghost child2 = ctx.reporter;
    let ghost before_al = *ctx;
    proof {
        lemma_entry_ready_stages(c0, m_, m_, d1, d1);
        lemma_lowering_ready_frame(m_, before_al);
    }
    let _ = al.run(ctx);
    let ghost m2 = *ctx;
    let ghost d2 = choose|ds: Seq<DiagnosticReport>| lowering_done(before_al, m2, ds);
    let mut child = reporter.branch();
    std::mem::swap(&mut child, &mut ctx.reporter);
    let ghost m2_ = *ctx;
    let ghost child3 = child;
    reporter.absorb(child);
    proof {
        lemma_lowering_done(before_al, m2, d2);
        lemma_absorb_child(rep1, *reporter, child2, child3, d2);
        lemma_absorb_names(rep1, *reporter, child2, child3, d2);
        lemma_took_over_trans(rep0, rep1, *reporter, d1, d2);
        lemma_filed_under_trans(
            rep0,
            rep1,
            *reporter,
            named(d1.len(), rep0.spec_name() + ":"@ + "NameResolution"@),
            named(d2.len(), rep0.spec_name() + ":"@ + "AstLowering"@),
        );
        lemma_lowered_frame(before_al, m_, m2, m2_, d2);
    }
    let mut ti = TypeInferenceStage;
    ctx.reporter = reporter.collector(ti.name());
    let ghost before_ti = *ctx;
    proof {
        lemma_entry_ready_stages(c0, m_, m2_, d1, d2);
        lemma_types_inferred_frame(m2_, before_ti, m2_, m2_);
    }
    let _ = ti.run(ctx);
    let ghost m3 = *ctx;
    let ghost rep2 = *reporter;
    let mut child = reporter.branch();
    std::mem::swap(&mut child, &mut ctx.reporter);
    reporter.absorb(child);
    proof {
        lemma_types_inferred_frame(before_ti, m2_, m3, *ctx);
        assert(reporter.spec_entries() =~= rep2.spec_entries());
        lemma_took_over_empty(rep2);
        lemma_took_over_trans(rep0, rep2, *reporter, d1 + d2, Seq::empty());
        assert(d1 + d2 + Seq::<DiagnosticReport>::empty() =~= d1 + d2);
        assert(reporter.spec_entries() =~= rep2.spec_entries());
    }
    let ghost t = EntryTrace { before: c0, resolved: m_, lowered: m2_, lowering: d2 };
    (true, Ghost(t))
}

/// What lowering did, without the reporter.
proof fn lemma_lowering_done(before: AnalyzerContext, after: AnalyzerContext, ds: Seq<DiagnosticReport>)
    requires
        lowering_done(before, after, ds),
    ensures
        lowered(before, after, ds),
        appended(before.reporter, after.reporter, ds),
{
    reveal(lowering_done);
    reveal(lowered);
}

/// Lowering does not look at the reporter of the context.
proof fn lemma_lowered_frame(a: AnalyzerContext, a2: AnalyzerContext, b: AnalyzerContext, b2: AnalyzerContext, d: Seq<DiagnosticReport>)
    requires
        a.input == a2.input,
        a.symbol_table == a2.symbol_table,
        b.input == b2.input,
        b.symbol_table == b2.symbol_table,
    ensures
        lowered(a, b, d) == lowered(a2, b2, d),
{
    reveal(lowered);
}

/// A stage's reporter that started empty gained no error exactly when `ds` holds none.
proof fn lemma_ok_iff_no_error(c0: Reporter, c1: Reporter, ds: Seq<DiagnosticReport>, ok: bool)
    requires
        c0.spec_entries().len() == 0,
        appended(c0, c1, ds),
        ok == (count_kind(c1.spec_entries(), DiagnosticKind::Error) <= count_kind(c0.spec_entries(), DiagnosticKind::Error)),
    ensures
        ok == !has_error(ds),
{
    lemma_count_zero(c0.spec_entries(), DiagnosticKind::Error);
    lemma_count_zero(c1.spec_entries(), DiagnosticKind::Error);
    if has_error(ds) {
        let j = choose|j: int| 0 <= j < ds.len() && (#[trigger] ds[j]).message.spec_kind() == DiagnosticKind::Error;
        assert(c1.spec_entries()[0 + j].diagnostic == ds[j]);
    }
    if !ok {
        let j = choose|j: int|
            0 <= j < c1.spec_entries().len() && (#[trigger] c1.spec_entries()[j]).diagnostic.message.spec_kind()
                == DiagnosticKind::Error;
        assert(c1.spec_entries()[0 + j].diagnostic == ds[j]);
    }
}

} // verus!
