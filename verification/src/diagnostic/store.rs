use vstd::prelude::*;

use crate::diagnostic::{DiagnosticKind, DiagnosticReport};
use crate::source::CodeSourceKind;
use crate::text::str_eq;

verus! {

/// A reported diagnostic, with the source it applies to and the reporter that reported it.
#[derive(Debug)]
pub struct DiagnosticEntry {
    pub source_name: String,
    pub reporter_name: String,
    pub diagnostic: DiagnosticReport,
}

/// The number of entries of kind `kind`.
pub open spec fn count_kind(entries: Seq<DiagnosticEntry>, kind: DiagnosticKind) -> nat
    decreases entries.len(),
{
    if entries.len() == 0 {
        0
    } else {
        count_kind(entries.drop_last(), kind) + if entries.last().diagnostic.message.spec_kind()
            == kind {
            1nat
        } else {
            0nat
        }
    }
}

/// Whether an entry of the source named `source` has been reported.
pub open spec fn has_source(entries: Seq<DiagnosticEntry>, source: Seq<char>) -> bool {
    exists|i: int| 0 <= i < entries.len() && (#[trigger] entries[i]).source_name@ == source
}

pub proof fn lemma_count_push(entries: Seq<DiagnosticEntry>, e: DiagnosticEntry, kind: DiagnosticKind)
    ensures
        count_kind(entries.push(e), kind) == count_kind(entries, kind) + if e.diagnostic.message.spec_kind() == kind {
            1nat
        } else {
            0nat
        },
{
    assert(entries.push(e).drop_last() =~= entries);
}

/// Counting is additive over concatenation.
pub proof fn lemma_count_concat(a: Seq<DiagnosticEntry>, b: Seq<DiagnosticEntry>, kind: DiagnosticKind)
    ensures
        count_kind(a + b, kind) == count_kind(a, kind) + count_kind(b, kind),
    decreases b.len(),
{
    if b.len() == 0 {
        assert(a + b =~= a);
    } else {
        assert((a + b).drop_last() =~= a + b.drop_last());
        lemma_count_concat(a, b.drop_last(), kind);
    }
}

/// No entry is of kind `kind` exactly when none is counted.
pub proof fn lemma_count_zero(entries: Seq<DiagnosticEntry>, kind: DiagnosticKind)
    ensures
        (count_kind(entries, kind) == 0) <==> forall|i: int|
            0 <= i < entries.len() ==> (#[trigger] entries[i]).diagnostic.message.spec_kind() != kind,
    decreases entries.len(),
{
    if entries.len() > 0 {
        let init = entries.drop_last();
        lemma_count_zero(init, kind);
        assert forall|i: int| 0 <= i < init.len() implies #[trigger] init[i] == entries[i] by {}
        if count_kind(entries, kind) == 0 {
            assert forall|i: int| 0 <= i < entries.len() implies (#[trigger] entries[i]).diagnostic.message.spec_kind() != kind by {
                if i < init.len() {
                    assert(init[i] == entries[i]);
                }
            }
        } else {
            if entries.last().diagnostic.message.spec_kind() != kind {
                assert(count_kind(init, kind) != 0);
                let j = choose|j: int| 0 <= j < init.len() && (#[trigger] init[j]).diagnostic.message.spec_kind() == kind;
                assert(entries[j] == init[j]);
            } else {
                assert(entries[entries.len() - 1] == entries.last());
            }
        }
    }
}

pub proof fn lemma_count_bounded(entries: Seq<DiagnosticEntry>, kind: DiagnosticKind)
    ensures
        count_kind(entries, kind) <= entries.len(),
    decreases entries.len(),
{
    if entries.len() > 0 {
        lemma_count_bounded(entries.drop_last(), kind);
    }
}

/// The diagnostics reported so far, with a running count of each kind.
#[derive(Debug)]
pub struct DiagnosticStore {
    entries: Vec<DiagnosticEntry>,
    error_count: usize,
    warning_count: usize,
}

impl DiagnosticStore {
    /// The counts always equal the number of reported entries of each kind.
    #[verifier::type_invariant]
    spec fn inv(self) -> bool {
        &&& self.error_count == count_kind(self.entries@, DiagnosticKind::Error)
        &&& self.warning_count == count_kind(self.entries@, DiagnosticKind::Warning)
    }

    pub closed spec fn spec_entries(self) -> Seq<DiagnosticEntry> {
        self.entries@
    }

    pub fn new() -> (r: Self)
        ensures
            r.spec_entries().len() == 0,
    {
        DiagnosticStore { entries: Vec::new(), error_count: 0, warning_count: 0 }
    }

    /// Files `diagnostic` under the source `source`, as reported by `reporter_name`.
    pub fn report(&mut self, source: &CodeSourceKind, reporter_name: String, diagnostic: DiagnosticReport)
        ensures
            final(self).spec_entries().len() == old(self).spec_entries().len() + 1,
            final(self).spec_entries().drop_last() == old(self).spec_entries(),
            final(self).spec_entries().last().source_name@ == source.spec_source_name(),
            final(self).spec_entries().last().reporter_name@ == reporter_name@,
            final(self).spec_entries().last().diagnostic == diagnostic,
    {
        let entry = DiagnosticEntry { source_name: source.source_name(), reporter_name, diagnostic };
        self.push_entry(entry);
    }

    fn push_entry(&mut self, entry: DiagnosticEntry)
        ensures
            final(self).spec_entries() == old(self).spec_entries().push(entry),
    {
        let mut current = DiagnosticStore::new();
        std::mem::swap(self, &mut current);
        proof {
            use_type_invariant(&current);
        }
        let kind = entry.diagnostic.message.kind();
        let DiagnosticStore { mut entries, error_count, warning_count } = current;
        let ghost old_entries = entries@;
        entries.push(entry);
        let _len = entries.len();
        proof {
            lemma_count_push(old_entries, entry, DiagnosticKind::Error);
            lemma_count_push(old_entries, entry, DiagnosticKind::Warning);
            lemma_count_bounded(entries@, DiagnosticKind::Error);
            lemma_count_bounded(entries@, DiagnosticKind::Warning);
        }
        let (e, w) = match kind {
            DiagnosticKind::Error => (error_count + 1, warning_count),
            DiagnosticKind::Warning => (error_count, warning_count + 1),
        };
        *self = DiagnosticStore { entries, error_count: e, warning_count: w };
    }

    /// The entries, in the order they were reported.
    pub fn entries(&self) -> (r: &Vec<DiagnosticEntry>)
        ensures
            r@ == self.spec_entries(),
    {
        &self.entries
    }

    /// Whether nothing has been reported under the source `source_file`.
    pub fn is_clean(&self, source_file: &str) -> (r: bool)
        ensures
            r == !has_source(self.spec_entries(), source_file@),
    {
        let mut i: usize = 0;
        while i < self.entries.len()
            invariant
                i <= self.entries@.len(),
                forall|j: int| 0 <= j < i ==> (#[trigger] self.entries@[j]).source_name@ != source_file@,
            decreases self.entries.len() - i,
        {
            if str_eq(self.entries[i].source_name.as_str(), source_file) {
                return false;
            }
            i = i + 1;
        }
        true
    }

    /// The number of reported diagnostics of kind `kind`.
    pub fn diagnostic_count(&self, kind: DiagnosticKind) -> (r: usize)
        ensures
            r == count_kind(self.spec_entries(), kind),
    {
        proof {
            use_type_invariant(self);
        }
        match kind {
            DiagnosticKind::Error => self.error_count,
            DiagnosticKind::Warning => self.warning_count,
        }
    }

    /// Takes over the entries of `other`, after those already here.
    pub fn absorb(&mut self, other: DiagnosticStore)
        ensures
            final(self).spec_entries() == old(self).spec_entries() + other.spec_entries(),
    {
        let mut current = DiagnosticStore::new();
        std::mem::swap(self, &mut current);
        proof {
            use_type_invariant(&current);
            use_type_invariant(&other);
        }
        let DiagnosticStore { mut entries, error_count, warning_count } = current;
        let DiagnosticStore { entries: mut more, error_count: e2, warning_count: w2 } = other;
        let ghost a = entries@;
        let ghost b = more@;
        entries.append(&mut more);
        let _len = entries.len();
        proof {
            lemma_count_concat(a, b, DiagnosticKind::Error);
            lemma_count_concat(a, b, DiagnosticKind::Warning);
            lemma_count_bounded(entries@, DiagnosticKind::Error);
            lemma_count_bounded(entries@, DiagnosticKind::Warning);
        }
        *self = DiagnosticStore { entries, error_count: error_count + e2, warning_count: warning_count + w2 };
    }
}

/// Reporting a diagnostic raises the count of its kind by one and leaves the other count as it was.
pub proof fn lemma_report_counts(before: Seq<DiagnosticEntry>, after: Seq<DiagnosticEntry>, kind: DiagnosticKind)
    requires
        after.len() == before.len() + 1,
        after.drop_last() == before,
    ensures
        after.last().diagnostic.message.spec_kind() == kind ==> count_kind(after, kind) == count_kind(before, kind) + 1,
        after.last().diagnostic.message.spec_kind() != kind ==> count_kind(after, kind) == count_kind(before, kind),
{
}

/// Once a diagnostic is reported under a source, that source is no longer clean.
pub proof fn lemma_report_not_clean(before: Seq<DiagnosticEntry>, after: Seq<DiagnosticEntry>)
    requires
        after.len() == before.len() + 1,
        after.drop_last() == before,
    ensures
        has_source(after, after.last().source_name@),
{
    assert(after[after.len() - 1].source_name@ == after.last().source_name@);
}

} // verus!
