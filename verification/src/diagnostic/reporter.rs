use vstd::prelude::*;

use crate::diagnostic::store::{count_kind, has_source, lemma_count_concat, DiagnosticEntry, DiagnosticStore};
use crate::diagnostic::{DiagnosticKind, DiagnosticReport};
use crate::source::CodeSourceKind;
use crate::text::push_str;

verus! {

/// Collects the diagnostics of one source under a reporter name.
///
/// A reporter made with [`Reporter::with_name`] files into the same store under a longer
/// name; one made with [`Reporter::collector`] collects its own diagnostics, which its
/// parent takes over with [`Reporter::absorb`].
#[derive(Debug)]
pub struct Reporter {
    source: CodeSourceKind,
    reporter_name: String,
    store: DiagnosticStore,
}

impl Reporter {
    pub closed spec fn spec_source(self) -> CodeSourceKind {
        self.source
    }

    pub closed spec fn spec_name(self) -> Seq<char> {
        self.reporter_name@
    }

    pub closed spec fn spec_entries(self) -> Seq<DiagnosticEntry> {
        self.store.spec_entries()
    }

    /// A reporter for a virtual source, named after the main thread (`Tmain`).
    pub fn new() -> (r: Self)
        ensures
            r.spec_source() is Virtual,
            r.spec_name() == "Tmain"@,
            r.spec_entries().len() == 0,
    {
        let r = Reporter::for_thread("main");
        proof {
            reveal_strlit("T");
            reveal_strlit("main");
            reveal_strlit("Tmain");
            assert("T"@ + "main"@ =~= "Tmain"@);
        }
        r
    }

    /// A reporter for a virtual source, named after the thread `thread_name` (`T` and the name).
    pub fn for_thread(thread_name: &str) -> (r: Self)
        ensures
            r.spec_source() is Virtual,
            r.spec_name() == "T"@ + thread_name@,
            r.spec_entries().len() == 0,
    {
        let mut name = "T".to_owned();
        push_str(&mut name, thread_name);
        Reporter { source: CodeSourceKind::Virtual, reporter_name: name, store: DiagnosticStore::new() }
    }

    pub fn source(&self) -> (r: &CodeSourceKind)
        ensures
            *r == self.spec_source(),
    {
        &self.source
    }

    pub fn name(&self) -> (r: String)
        ensures
            r@ == self.spec_name(),
    {
        self.reporter_name.clone()
    }

    /// A reporter for the same source, named `parent:name`, with a store of its own that
    /// starts empty; the parent takes over what it collects with [`Reporter::absorb`].
    pub fn collector(&self, name: &str) -> (r: Self)
        ensures
            r.spec_source().spec_source_name() == self.spec_source().spec_source_name(),
            r.spec_name() == self.spec_name() + ":"@ + name@,
            r.spec_entries().len() == 0,
    {
        let mut full = self.reporter_name.clone();
        push_str(&mut full, ":");
        push_str(&mut full, name);
        Reporter { source: self.source.duplicate(), reporter_name: full, store: DiagnosticStore::new() }
    }

    /// A reporter for the same source and under the same name, with no diagnostics yet; what
    /// it collects is meant to be taken over by this one (see `absorb`).
    pub fn branch(&self) -> (r: Self)
        ensures
            r.spec_source().spec_source_name() == self.spec_source().spec_source_name(),
            r.spec_name() == self.spec_name(),
            r.spec_entries().len() == 0,
    {
        Reporter { source: self.source.duplicate(), reporter_name: self.reporter_name.clone(), store: DiagnosticStore::new() }
    }

    /// Files `diagnostic` under this reporter's source and name.
    pub fn report(&mut self, diagnostic: DiagnosticReport)
        ensures
            final(self).spec_source() == old(self).spec_source(),
            final(self).spec_name() == old(self).spec_name(),
            final(self).spec_entries().len() == old(self).spec_entries().len() + 1,
            final(self).spec_entries().drop_last() == old(self).spec_entries(),
            final(self).spec_entries().last().source_name@ == old(self).spec_source().spec_source_name(),
            final(self).spec_entries().last().reporter_name@ == old(self).spec_name(),
            final(self).spec_entries().last().diagnostic == diagnostic,
            appended(*old(self), *final(self), seq![diagnostic]),
    {
        let ghost d = diagnostic;
        let name = self.reporter_name.clone();
        self.store.report(&self.source, name, diagnostic);
        proof {
            assert(self.spec_entries().take(old(self).spec_entries().len() as int) =~= self.spec_entries().drop_last());
            assert(seq![d][0] == d);
        }
    }

    /// Files every diagnostic of `diagnostics`, in order.
    pub fn report_all(&mut self, diagnostics: Vec<DiagnosticReport>)
        ensures
            final(self).spec_source() == old(self).spec_source(),
            final(self).spec_name() == old(self).spec_name(),
            final(self).spec_entries().len() == old(self).spec_entries().len() + diagnostics@.len(),
            final(self).spec_entries().take(old(self).spec_entries().len() as int) == old(self).spec_entries(),
            forall|i: int|
                0 <= i < diagnostics@.len() ==> {
                    let e = #[trigger] final(self).spec_entries()[old(self).spec_entries().len() + i];
                    &&& e.diagnostic == diagnostics@[i]
                    &&& e.source_name@ == old(self).spec_source().spec_source_name()
                    &&& e.reporter_name@ == old(self).spec_name()
                },
            forall|k: DiagnosticKind|
                count_kind(#[trigger] final(self).spec_entries(), k) == count_kind(old(self).spec_entries(), k)
                    + reports_of_kind(diagnostics@, k),
    {
        let ghost start = self.spec_entries();
        let ghost first = *self;
        let ghost all = diagnostics@;
        let _n = diagnostics.len();
        let mut rest = diagnostics;
        let mut pending: Vec<DiagnosticReport> = Vec::new();
        while rest.len() > 0
            invariant
                pending@.len() + rest@.len() == all.len(),
                forall|j: int| 0 <= j < rest@.len() ==> rest@[j] == all[j],
                forall|j: int| 0 <= j < pending@.len() ==> pending@[j] == all[all.len() - 1 - j],
            decreases rest.len(),
        {
            let d = rest.pop().unwrap();
            pending.push(d);
        }
        let mut done: usize = 0;
        while pending.len() > 0
            invariant
                done + pending@.len() == all.len(),
                all.len() <= usize::MAX,
                forall|j: int| 0 <= j < pending@.len() ==> pending@[j] == all[all.len() - 1 - j],
                self.spec_source() == old(self).spec_source(),
                self.spec_name() == old(self).spec_name(),
                self.spec_entries().len() == start.len() + done,
                self.spec_entries().take(start.len() as int) == start,
                forall|i: int|
                    0 <= i < done ==> {
                        let e = #[trigger] self.spec_entries()[start.len() + i];
                        &&& e.diagnostic == all[i]
                        &&& e.source_name@ == old(self).spec_source().spec_source_name()
                        &&& e.reporter_name@ == old(self).spec_name()
                    },
            decreases pending.len(),
        {
            let d = pending.pop().unwrap();
            let ghost before = self.spec_entries();
            self.report(d);
            proof {
                assert(self.spec_entries().take(start.len() as int) =~= before.take(start.len() as int));
                assert forall|i: int| 0 <= i < done + 1 implies {
                    let e = #[trigger] self.spec_entries()[start.len() + i];
                    &&& e.diagnostic == all[i]
                    &&& e.source_name@ == old(self).spec_source().spec_source_name()
                    &&& e.reporter_name@ == old(self).spec_name()
                } by {
                    if i < done {
                        assert(self.spec_entries()[start.len() + i] == before[start.len() + i]);
                    }
                }
            }
            done = done + 1;
        }
        proof {
            assert forall|k: DiagnosticKind|
                count_kind(#[trigger] self.spec_entries(), k) == count_kind(start, k) + reports_of_kind(all, k) by {
                lemma_appended_counts(first, *self, all, k);
            }
        }
    }

    /// Whether nothing has been filed under a source named like this reporter.
    pub fn is_clean(&self) -> (r: bool)
        ensures
            r == !has_source(self.spec_entries(), self.spec_name()),
    {
        self.store.is_clean(self.reporter_name.as_str())
    }

    /// The diagnostics this reporter holds, in the order they were reported.
    pub fn entries(&self) -> (r: &Vec<DiagnosticEntry>)
        ensures
            r@ == self.spec_entries(),
    {
        self.store.entries()
    }

    /// The number of diagnostics of kind `kind` this reporter holds.
    pub fn diagnostic_count(&self, kind: DiagnosticKind) -> (r: usize)
        ensures
            r == count_kind(self.spec_entries(), kind),
    {
        self.store.diagnostic_count(kind)
    }

    /// Takes over the diagnostics that `child` collected, after those already here.
    pub fn absorb(&mut self, child: Reporter)
        ensures
            final(self).spec_source() == old(self).spec_source(),
            final(self).spec_name() == old(self).spec_name(),
            final(self).spec_entries() == old(self).spec_entries() + child.spec_entries(),
    {
        self.store.absorb(child.store);
    }
}


/// A reporter named `parent:name` that files into the store of the reporter it was made
/// from: what it reports is in that reporter's entries and counts, and it sees what was
/// reported there before.
pub struct NamedReporter<'a> {
    pub parent: &'a mut Reporter,
    pub name: String,
}

impl Reporter {
    /// A reporter for the same source, named `parent:name`, sharing this reporter's store.
    pub fn with_name(&mut self, name: &str) -> (r: NamedReporter<'_>)
        ensures
            *r.parent == *old(self),
            r.name@ == old(self).spec_name() + ":"@ + name@,
            *final(self) == *final(r.parent),
    {
        let mut full = self.reporter_name.clone();
        push_str(&mut full, ":");
        push_str(&mut full, name);
        NamedReporter { parent: self, name: full }
    }
}

impl<'a> NamedReporter<'a> {
    pub open spec fn spec_name(&self) -> Seq<char> {
        self.name@
    }

    /// The shared store's diagnostics, in the order they were reported.
    pub open spec fn spec_entries(&self) -> Seq<DiagnosticEntry> {
        self.parent.spec_entries()
    }

    pub open spec fn spec_source(&self) -> CodeSourceKind {
        self.parent.spec_source()
    }

    /// The name of the reporter the store belongs to.
    pub open spec fn spec_parent_name(&self) -> Seq<char> {
        self.parent.spec_name()
    }

    pub fn name(&self) -> (r: String)
        ensures
            r@ == self.spec_name(),
    {
        self.name.clone()
    }

    pub fn source(&self) -> (r: &CodeSourceKind)
        ensures
            *r == self.spec_source(),
    {
        self.parent.source()
    }

    /// Files `diagnostic` in the shared store, under this reporter's name.
    pub fn report(&mut self, diagnostic: DiagnosticReport)
        ensures
            final(self).name == old(self).name,
            final(self).spec_source() == old(self).spec_source(),
            final(self).spec_parent_name() == old(self).spec_parent_name(),
            final(self).spec_entries().len() == old(self).spec_entries().len() + 1,
            final(self).spec_entries().drop_last() == old(self).spec_entries(),
            final(self).spec_entries().last().source_name@ == old(self).spec_source().spec_source_name(),
            final(self).spec_entries().last().reporter_name@ == old(self).name@,
            final(self).spec_entries().last().diagnostic == diagnostic,
    {
        self.parent.store.report(&self.parent.source, self.name.clone(), diagnostic);
    }

    /// The number of diagnostics of kind `kind` in the shared store.
    pub fn diagnostic_count(&self, kind: DiagnosticKind) -> (r: usize)
        ensures
            r == count_kind(self.spec_entries(), kind),
    {
        self.parent.diagnostic_count(kind)
    }

    /// The shared store's diagnostics.
    pub fn entries(&self) -> (r: &Vec<DiagnosticEntry>)
        ensures
            r@ == self.spec_entries(),
    {
        self.parent.entries()
    }
}

/// `after` is `before` with `reports` filed, in order, and nothing else changed.
pub open spec fn appended(before: Reporter, after: Reporter, reports: Seq<DiagnosticReport>) -> bool {
    &&& after.spec_source() == before.spec_source()
    &&& after.spec_name() == before.spec_name()
    &&& after.spec_entries().len() == before.spec_entries().len() + reports.len()
    &&& after.spec_entries().take(before.spec_entries().len() as int) == before.spec_entries()
    &&& forall|i: int|
        0 <= i < reports.len() ==> {
            let e = #[trigger] after.spec_entries()[before.spec_entries().len() + i];
            &&& e.diagnostic == reports[i]
            &&& e.source_name@ == before.spec_source().spec_source_name()
            &&& e.reporter_name@ == before.spec_name()
        }
}

/// Filing nothing is appending nothing; filing more after a first batch appends both.
pub proof fn lemma_appended_empty(r: Reporter)
    ensures
        appended(r, r, Seq::empty()),
{
    assert(r.spec_entries().take(r.spec_entries().len() as int) =~= r.spec_entries());
}

/// The number of reports of kind `kind` in `reports`.
pub open spec fn reports_of_kind(reports: Seq<DiagnosticReport>, kind: DiagnosticKind) -> nat
    decreases reports.len(),
{
    if reports.len() == 0 {
        0
    } else {
        reports_of_kind(reports.drop_last(), kind) + if reports.last().message.spec_kind() == kind {
            1nat
        } else {
            0nat
        }
    }
}

/// Entries that hold `reports`, one for one, count as many of each kind as the reports.
proof fn lemma_count_reports(entries: Seq<DiagnosticEntry>, reports: Seq<DiagnosticReport>, kind: DiagnosticKind)
    requires
        entries.len() == reports.len(),
        forall|i: int| 0 <= i < entries.len() ==> (#[trigger] entries[i]).diagnostic == reports[i],
    ensures
        count_kind(entries, kind) == reports_of_kind(reports, kind),
    decreases reports.len(),
{
    if reports.len() > 0 {
        let e = entries.drop_last();
        let r = reports.drop_last();
        assert forall|i: int| 0 <= i < e.len() implies (#[trigger] e[i]).diagnostic == r[i] by {
            assert(e[i] == entries[i]);
        }
        lemma_count_reports(e, r, kind);
        assert(entries.last() == entries[entries.len() - 1]);
    }
}

/// Filing `reports` adds to the count of each kind of diagnostic the number of those
/// reports of that kind, and leaves the counts otherwise as they were: the same as filing
/// the reports one by one.
pub proof fn lemma_appended_counts(
    before: Reporter,
    after: Reporter,
    reports: Seq<DiagnosticReport>,
    kind: DiagnosticKind,
)
    requires
        appended(before, after, reports),
    ensures
        count_kind(after.spec_entries(), kind) == count_kind(before.spec_entries(), kind) + reports_of_kind(
            reports,
            kind,
        ),
{
    let n = before.spec_entries().len() as int;
    let tail = after.spec_entries().skip(n);
    assert(after.spec_entries() =~= after.spec_entries().take(n) + tail);
    lemma_count_concat(before.spec_entries(), tail, kind);
    assert forall|i: int| 0 <= i < tail.len() implies (#[trigger] tail[i]).diagnostic == reports[i] by {
        assert(tail[i] == after.spec_entries()[n + i]);
    }
    lemma_count_reports(tail, reports, kind);
}

pub proof fn lemma_appended_trans(a: Reporter, b: Reporter, c: Reporter, x: Seq<DiagnosticReport>, y: Seq<DiagnosticReport>)
    requires
        appended(a, b, x),
        appended(b, c, y),
    ensures
        appended(a, c, x + y),
{
    let na = a.spec_entries().len() as int;
    let nb = b.spec_entries().len() as int;
    assert(c.spec_entries().take(na) =~= c.spec_entries().take(nb).take(na));
    assert forall|i: int| 0 <= i < (x + y).len() implies {
        let e = #[trigger] c.spec_entries()[na + i];
        &&& e.diagnostic == (x + y)[i]
        &&& e.source_name@ == a.spec_source().spec_source_name()
        &&& e.reporter_name@ == a.spec_name()
    } by {
        if i < x.len() {
            assert(c.spec_entries()[na + i] == c.spec_entries().take(nb)[na + i]);
            assert(b.spec_entries()[na + i] == c.spec_entries()[na + i]);
        } else {
            let j = i - x.len();
            assert(c.spec_entries()[nb + j] == c.spec_entries()[na + i]);
        }
    }
}

} // verus!
