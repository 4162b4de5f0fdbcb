use vstd::prelude::*;

use crate::diagnostic::reporter::Reporter;
use crate::semantics::source::ParsedCodeSource;
use crate::semantics::symbol::SymbolsTable;

verus! {

/// What the stages of analysis work on for one source: its code, its symbol tables, and the
/// reporter of the stage at work.
#[derive(Debug)]
pub struct AnalyzerContext {
    pub reporter: Reporter,
    pub symbol_table: SymbolsTable,
    pub input: ParsedCodeSource,
}

impl AnalyzerContext {
    /// A context for `input` with empty symbol tables, reporting under the name and source of
    /// `parent_reporter`.
    pub fn new(parent_reporter: &Reporter, input: ParsedCodeSource) -> (r: Self)
        ensures
            r.reporter.spec_name() == parent_reporter.spec_name(),
            r.reporter.spec_source().spec_source_name() == parent_reporter.spec_source().spec_source_name(),
            r.reporter.spec_entries().len() == 0,
            r.symbol_table.wf(),
            r.symbol_table.depth == 0,
            r.symbol_table.value_table.spec_symbols().len() == 0,
            r.symbol_table.value_table.view().visible.len() == 0,
            r.input == input,
    {
        AnalyzerContext { reporter: parent_reporter.branch(), symbol_table: SymbolsTable::new(), input }
    }
}

} // verus!
