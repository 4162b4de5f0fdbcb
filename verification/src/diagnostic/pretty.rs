use vstd::prelude::*;

use crate::diagnostic::annotated::{Diagnostic, DiagnosticContext, DiagnosticContextKind, DiagnosticLevel};
use crate::source::{CodeSource, SourceManager};

verus! {

/// The level of a group or a message of a rendered report.
#[derive(Debug, Clone, Copy, PartialEq, Eq, Structural)]
pub enum PlanLevel {
    Error,
    Warning,
    Note,
    Help,
}

/// How an annotated range of a snippet is marked.
#[derive(Debug, Clone, Copy, PartialEq, Eq, Structural)]
pub enum PlanAnnotationKind {
    Primary,
    Context,
    Visible,
}

/// A range `start..end` of a snippet's source, marked and labelled.
#[derive(Debug)]
pub struct PlanAnnotation {
    pub kind: PlanAnnotationKind,
    pub start: usize,
    pub end: usize,
    pub label: Option<String>,
    pub highlight: bool,
}

/// What a group shows under its title.
#[derive(Debug)]
pub enum PlanElement {
    /// Source text from the file at `path`, with marked ranges.
    Snippet { source: String, path: String, annotations: Vec<PlanAnnotation> },
    /// A message at a level of its own.
    Message { level: PlanLevel, text: String },
    /// A place in a file, by line and column.
    Origin { path: String, line: usize, column: usize },
}

/// A titled group of a rendered report: the title is the group's main one (`primary`) or a
/// secondary one, and the level is shown under `name` where there is one.
#[derive(Debug)]
pub struct PlanGroup {
    pub level: PlanLevel,
    pub name: Option<String>,
    pub primary: bool,
    pub title: String,
    pub element: PlanElement,
}

pub open spec fn opt_text(o: Option<String>) -> Option<Seq<char>> {
    match o {
        Some(s) => Some(s@),
        None => None,
    }
}

/// An annotation, with its texts as characters.
pub struct AnnotationView {
    pub kind: PlanAnnotationKind,
    pub start: nat,
    pub end: nat,
    pub label: Option<Seq<char>>,
    pub highlight: bool,
}

pub enum ElementView {
    Snippet { source: Seq<char>, path: Seq<char>, annotations: Seq<AnnotationView> },
    Message { level: PlanLevel, text: Seq<char> },
    Origin { path: Seq<char>, line: nat, column: nat },
}

pub struct GroupView {
    pub level: PlanLevel,
    pub name: Option<Seq<char>>,
    pub primary: bool,
    pub title: Seq<char>,
    pub element: ElementView,
}

impl PlanAnnotation {
    pub open spec fn view(&self) -> AnnotationView {
        AnnotationView {
            kind: self.kind,
            start: self.start as nat,
            end: self.end as nat,
            label: opt_text(self.label),
            highlight: self.highlight,
        }
    }
}

pub open spec fn annotation_views(s: Seq<PlanAnnotation>) -> Seq<AnnotationView> {
    s.map_values(|a: PlanAnnotation| a@)
}

impl PlanElement {
    pub open spec fn view(&self) -> ElementView {
        match self {
            PlanElement::Snippet { source, path, annotations } => ElementView::Snippet {
                source: source@,
                path: path@,
                annotations: annotation_views(annotations@),
            },
            PlanElement::Message { level, text } => ElementView::Message { level: *level, text: text@ },
            PlanElement::Origin { path, line, column } => ElementView::Origin {
                path: path@,
                line: *line as nat,
                column: *column as nat,
            },
        }
    }
}

impl PlanGroup {
    pub open spec fn view(&self) -> GroupView {
        GroupView {
            level: self.level,
            name: opt_text(self.name),
            primary: self.primary,
            title: self.title@,
            element: self.element@,
        }
    }
}

pub open spec fn group_views(s: Seq<PlanGroup>) -> Seq<GroupView> {
    s.map_values(|g: PlanGroup| g@)
}

pub open spec fn level_of(l: DiagnosticLevel) -> PlanLevel {
    match l {
        DiagnosticLevel::Error => PlanLevel::Error,
        DiagnosticLevel::Warning => PlanLevel::Warning,
        DiagnosticLevel::Note => PlanLevel::Note,
    }
}

pub open spec fn annotation_kind_of(k: DiagnosticContextKind) -> PlanAnnotationKind {
    match k {
        DiagnosticContextKind::Primary => PlanAnnotationKind::Primary,
        DiagnosticContextKind::Context => PlanAnnotationKind::Context,
        DiagnosticContextKind::Unannotated => PlanAnnotationKind::Visible,
    }
}

/// The annotations of the contexts that have a place, in order.
pub open spec fn context_annotations(cs: Seq<DiagnosticContext>) -> Seq<AnnotationView>
    decreases cs.len(),
{
    if cs.len() == 0 {
        Seq::empty()
    } else {
        context_annotations(cs.drop_last()) + match cs.last().span {
            Some(s) => seq![
                AnnotationView {
                    kind: annotation_kind_of(cs.last().kind),
                    start: s.start as nat,
                    end: s.end as nat,
                    label: opt_text(cs.last().annotation),
                    highlight: false,
                },
            ],
            None => Seq::empty(),
        }
    }
}

/// The main group of a diagnostic: where it has a place in a known source, that source with
/// the place marked and labelled with the annotation, and the places of its contexts marked
/// after it; else a note with its annotation, or saying that no source was given.
pub open spec fn primary_group(sources: Seq<CodeSource>, d: Diagnostic) -> GroupView {
    let note = ElementView::Message {
        level: PlanLevel::Note,
        text: match d.annotation {
            Some(a) => a@,
            None => "no source provided"@,
        },
    };
    let element = match d.span {
        Some(s) => if s.source_id.spec_value() < sources.len() {
            let src = sources[s.source_id.spec_value() as int];
            ElementView::Snippet {
                source: src.content@,
                path: src.spec_source_file(),
                annotations: seq![
                    AnnotationView {
                        kind: PlanAnnotationKind::Primary,
                        start: s.start as nat,
                        end: s.end as nat,
                        label: opt_text(d.annotation),
                        highlight: true,
                    },
                ] + context_annotations(d.additional_contexts@),
            }
        } else {
            note
        },
        None => note,
    };
    GroupView { level: level_of(d.level), name: None, primary: true, title: d.title@, element }
}

/// The group that shows where in the compiler the diagnostic was raised.
pub open spec fn thrower_group(d: Diagnostic) -> GroupView {
    GroupView {
        level: PlanLevel::Help,
        name: Some("thrower"@),
        primary: false,
        title: Seq::empty(),
        element: ElementView::Origin {
            path: d.thrower.file@,
            line: d.thrower.line as nat,
            column: d.thrower.column as nat,
        },
    }
}

/// The groups of one diagnostic.
pub open spec fn report_plan(sources: Seq<CodeSource>, d: Diagnostic) -> Seq<GroupView> {
    seq![primary_group(sources, d), thrower_group(d)]
}

/// The groups of the diagnostics `ds`, in order.
pub open spec fn print_plan(sources: Seq<CodeSource>, ds: Seq<Diagnostic>) -> Seq<GroupView>
    decreases ds.len(),
{
    if ds.len() == 0 {
        Seq::empty()
    } else {
        print_plan(sources, ds.drop_last()) + report_plan(sources, ds.last())
    }
}

fn plan_level(l: DiagnosticLevel) -> (r: PlanLevel)
    ensures
        r == level_of(l),
{
    match l {
        DiagnosticLevel::Error => PlanLevel::Error,
        DiagnosticLevel::Warning => PlanLevel::Warning,
        DiagnosticLevel::Note => PlanLevel::Note,
    }
}

fn plan_annotation_kind(k: DiagnosticContextKind) -> (r: PlanAnnotationKind)
    ensures
        r == annotation_kind_of(k),
{
    match k {
        DiagnosticContextKind::Primary => PlanAnnotationKind::Primary,
        DiagnosticContextKind::Context => PlanAnnotationKind::Context,
        DiagnosticContextKind::Unannotated => PlanAnnotationKind::Visible,
    }
}

fn copy_text(o: &Option<String>) -> (r: Option<String>)
    ensures
        opt_text(r) == opt_text(*o),
{
    match o {
        Some(s) => Some(s.clone()),
        None => None,
    }
}

/// Lays out diagnostics for rendering against the sources they point into.
pub struct Printer<'a> {
    sources: &'a SourceManager,
}

impl<'a> Printer<'a> {
    pub fn new(sources: &'a SourceManager) -> (r: Self)
        ensures
            r.spec_sources() == sources.spec_sources(),
    {
        Printer { sources }
    }

    pub closed spec fn spec_sources(&self) -> Seq<CodeSource> {
        self.sources.spec_sources()
    }

    /// The groups that show `diagnostic` (see `report_plan`).
    pub fn build_report(&self, diagnostic: &Diagnostic) -> (r: Vec<PlanGroup>)
        ensures
            group_views(r@) == report_plan(self.spec_sources(), *diagnostic),
    {
        let ghost sources = self.spec_sources();
        let title = diagnostic.title.clone();
        let mut located: Option<&CodeSource> = None;
        let mut place: usize = 0;
        let mut place_end: usize = 0;
        if let Some(root_span) = diagnostic.span {
            located = self.sources.get_source(root_span.source_id);
            let range = root_span.as_range();
            place = range.start;
            place_end = range.end;
        }
        let element = match located {
            Some(source) => {
                let mut annotations: Vec<PlanAnnotation> = Vec::new();
                annotations.push(
                    PlanAnnotation {
                        kind: PlanAnnotationKind::Primary,
                        start: place,
                        end: place_end,
                        label: copy_text(&diagnostic.annotation),
                        highlight: true,
                    },
                );
                let contexts = &diagnostic.additional_contexts;
                let mut i: usize = 0;
                let ghost first = annotations@[0]@;
                proof {
                    assert(contexts@.take(0) =~= Seq::<DiagnosticContext>::empty());
                    assert(annotation_views(annotations@) =~= seq![first]);
                }
                while i < contexts.len()
                    invariant
                        i <= contexts@.len(),
                        contexts@ == diagnostic.additional_contexts@,
                        annotation_views(annotations@) == seq![first] + context_annotations(contexts@.take(i as int)),
                    decreases contexts@.len() - i,
                {
                    let ctx = &contexts[i];
                    proof {
                        assert(contexts@.take(i + 1).drop_last() =~= contexts@.take(i as int));
                        assert(contexts@.take(i + 1).last() == *ctx);
                    }
                    let ghost before = annotation_views(annotations@);
                    if let Some(span) = ctx.span {
                        let range = span.as_range();
                        let a = PlanAnnotation {
                            kind: plan_annotation_kind(ctx.kind),
                            start: range.start,
                            end: range.end,
                            label: copy_text(&ctx.annotation),
                            highlight: false,
                        };
                        let ghost av = a@;
                        annotations.push(a);
                        proof {
                            assert(annotation_views(annotations@) =~= before.push(av));
                        }
                    }
                    i = i + 1;
                }
                proof {
                    assert(contexts@.take(contexts@.len() as int) =~= contexts@);
                }
                PlanElement::Snippet {
                    source: source.content.clone(),
                    path: source.source_file().to_owned(),
                    annotations,
                }
            },
            None => {
                let text = match &diagnostic.annotation {
                    Some(a) => a.clone(),
                    None => "no source provided".to_owned(),
                };
                PlanElement::Message { level: PlanLevel::Note, text }
            },
        };
        let primary = PlanGroup { level: plan_level(diagnostic.level), name: None, primary: true, title, element };
        let thrower = PlanGroup {
            level: PlanLevel::Help,
            name: Some("thrower".to_owned()),
            primary: false,
            title: String::new(),
            element: PlanElement::Origin {
                path: diagnostic.thrower.file.to_owned(),
                line: diagnostic.thrower.line as usize,
                column: diagnostic.thrower.column as usize,
            },
        };
        let ghost pv = primary@;
        let ghost tv = thrower@;
        let mut report = Vec::new();
        report.push(primary);
        report.push(thrower);
        proof {
            assert(group_views(report@) =~= seq![pv, tv]);
        }
        report
    }

    /// The groups that show each of `diagnostics` in turn (see `print_plan`).
    pub fn plan(sources: &'a SourceManager, diagnostics: &[Diagnostic]) -> (r: Vec<PlanGroup>)
        ensures
            group_views(r@) == print_plan(sources.spec_sources(), diagnostics@),
    {
        let printer = Printer { sources };
        let mut reports: Vec<PlanGroup> = Vec::new();
        let mut i: usize = 0;
        proof {
            assert(diagnostics@.take(0) =~= Seq::<Diagnostic>::empty());
            assert(group_views(reports@) =~= Seq::<GroupView>::empty());
        }
        while i < diagnostics.len()
            invariant
                i <= diagnostics@.len(),
                printer.spec_sources() == sources.spec_sources(),
                group_views(reports@) == print_plan(sources.spec_sources(), diagnostics@.take(i as int)),
            decreases diagnostics@.len() - i,
        {
            proof {
                assert(diagnostics@.take(i + 1).drop_last() =~= diagnostics@.take(i as int));
                assert(diagnostics@.take(i + 1).last() == diagnostics@[i as int]);
            }
            let mut groups = printer.build_report(&diagnostics[i]);
            let ghost before = group_views(reports@);
            let ghost added = group_views(groups@);
            reports.append(&mut groups);
            proof {
                assert(group_views(reports@) =~= before + added);
            }
            i = i + 1;
        }
        proof {
            assert(diagnostics@.take(diagnostics@.len() as int) =~= diagnostics@);
        }
        reports
    }
}

} // verus!
