use luma::diagnostic::annotated::{CallerInfo, Diagnostic, DiagnosticContext, DiagnosticContextKind, DiagnosticLevel};
use luma::diagnostic::pretty::{PlanAnnotationKind, PlanElement, PlanLevel, Printer};
use luma::diagnostic::reporter::Reporter;
use luma::diagnostic::{DiagnosticKind, DiagnosticMessage, DiagnosticReport};
use luma::semantics::diagnostics::AnalyzerDiagnostic;
use luma::source::{CodeSource, SourceManager};
use luma::span::{CodeSourceId, Cursor, Span};

fn unresolved(name: &str, start: u32, end: u32, line: usize, column: usize) -> DiagnosticReport {
    DiagnosticReport {
        message: DiagnosticMessage::Analyzer(AnalyzerDiagnostic::UnresolvedSymbol(name.to_string())),
        span: Span::new(CodeSourceId::zero(), start, end),
        cursor: Cursor::new(line, column),
    }
}

#[test]
fn reporter_names_nest() {
    let mut main = Reporter::new();
    assert_eq!(main.name(), "Tmain");
    let child = main.with_name("analyzer");
    assert_eq!(child.name(), "Tmain:analyzer");
    assert_eq!(main.collector("lexer").name(), "Tmain:lexer");
    assert_eq!(Reporter::for_thread("worker").name(), "Tworker");
}

#[test]
fn reporting_counts_by_kind_and_keeps_the_order() {
    let mut reporter = Reporter::new();
    assert_eq!(reporter.diagnostic_count(DiagnosticKind::Error), 0);
    reporter.report(unresolved("a", 0, 1, 1, 1));
    reporter.report_all(vec![unresolved("b", 2, 3, 1, 3), unresolved("c", 4, 5, 1, 5)]);
    assert_eq!(reporter.diagnostic_count(DiagnosticKind::Error), 3);
    assert_eq!(reporter.diagnostic_count(DiagnosticKind::Warning), 0);
    let entries = reporter.entries();
    assert_eq!(entries.len(), 3);
    assert_eq!(entries[1].diagnostic.span, Span::new(CodeSourceId::zero(), 2, 3));
    assert_eq!(entries[2].source_name, "<virtual>");
    assert_eq!(entries[2].reporter_name, "Tmain");
}

#[test]
fn a_parent_takes_over_what_its_child_reported() {
    let mut parent = Reporter::new();
    parent.report(unresolved("a", 0, 1, 1, 1));
    let mut child = parent.collector("lexer");
    child.report(unresolved("b", 2, 3, 1, 3));
    parent.absorb(child);
    assert_eq!(parent.diagnostic_count(DiagnosticKind::Error), 2);
    assert_eq!(parent.entries()[1].reporter_name, "Tmain:lexer");
}

#[test]
fn a_clean_reporter_formats_to_nothing() {
    let reporter = Reporter::new();
    let source = CodeSource::new("let x = 1;".to_string(), None);
    assert_eq!(reporter.formatted_for(&source), "");
}

#[test]
fn a_diagnostic_is_formatted_with_its_code_marked() {
    let mut reporter = Reporter::new();
    reporter.report(unresolved("foo", 8, 11, 1, 9));
    let source = CodeSource::new("let x = foo;\nlet y = 2;\n".to_string(), None);
    let expected = [
        "\x1b[31merror:\x1b[39m \x1b[1m\x1b[91munresolved symbol: `foo`\x1b[39m\x1b[0m\n",
        "\x1b[90m at \x1b[39m\x1b[37m<virtual>:1:9\x1b[39m",
        "\x1b[30m (reported by \x1b[39m\x1b[1m\x1b[90mTmain\x1b[39m\x1b[0m)\n",
        " \x1b[34m | \x1b[39m\n",
        "\x1b[34m1\x1b[39m\x1b[34m | \x1b[39mlet x = foo;\n",
        " \x1b[34m | \x1b[39m        ^^^\n",
        " \x1b[34m | \x1b[39m\n",
        "\n",
        "\x1b[31merror: could not compile due to 1 error(s)\n\x1b[39m",
    ]
    .concat();
    assert_eq!(reporter.formatted_for(&source), expected);
}

#[test]
fn a_range_over_several_lines_shows_each_line() {
    let mut reporter = Reporter::new();
    reporter.report(unresolved("ab", 0, 14, 2, 1));
    let source = CodeSource::new("first\r\nsecond line\nthird\nfourth".to_string(), None);
    let text = reporter.formatted_for(&source);
    assert!(text.contains("\x1b[34m2\x1b[39m\x1b[34m | \x1b[39msecond line\n"));
    assert!(text.contains("\x1b[34m3\x1b[39m\x1b[34m | \x1b[39mthird\n"));
    assert!(!text.contains("fourth"));
    assert!(!text.contains("first"));
    assert!(text.contains(" \x1b[34m | \x1b[39m^^^^^^^^^^^^^^\n"));
}

fn thrower() -> CallerInfo {
    CallerInfo { file: "src/parser.rs", line: 12, column: 5 }
}

fn diagnostic(span: Option<Span>, annotation: Option<&str>) -> Diagnostic {
    Diagnostic {
        level: DiagnosticLevel::Error,
        title: "unexpected token".to_string(),
        annotation: annotation.map(|a| a.to_string()),
        span,
        additional_contexts: Vec::new(),
        thrower: thrower(),
    }
}

#[test]
fn builders_set_the_place_and_add_contexts() {
    let d = diagnostic(None, None).span(Span::new(CodeSourceId::zero(), 1, 2));
    assert_eq!(d.span, Some(Span::new(CodeSourceId::zero(), 1, 2)));
    let d = d.maybe_span(None);
    assert_eq!(d.span, None);
    let ctx = DiagnosticContext { kind: DiagnosticContextKind::Context, annotation: None, span: None };
    let d = d.context(ctx.clone()).context(ctx);
    assert_eq!(d.additional_contexts.len(), 2);
    assert_eq!(d.title, "unexpected token");
}

#[test]
fn a_located_diagnostic_shows_its_source() {
    let mut sources = SourceManager::new();
    let id = sources.add_source(CodeSource::new("let = 1;".to_string(), Some("main.lu".to_string())));
    let d = diagnostic(Some(Span::new(id, 4, 5)), Some("expected a name"))
        .context(DiagnosticContext {
            kind: DiagnosticContextKind::Unannotated,
            annotation: Some("here".to_string()),
            span: Some(Span::new(id, 0, 3)),
        })
        .context(DiagnosticContext { kind: DiagnosticContextKind::Context, annotation: None, span: None });
    let printer = Printer::new(&sources);
    let groups = printer.build_report(&d);
    assert_eq!(groups.len(), 2);
    assert_eq!(groups[0].level, PlanLevel::Error);
    assert!(groups[0].primary);
    assert_eq!(groups[0].title, "unexpected token");
    match &groups[0].element {
        PlanElement::Snippet { source, path, annotations } => {
            assert_eq!(source, "let = 1;");
            assert_eq!(path, "main.lu");
            assert_eq!(annotations.len(), 2);
            assert_eq!(annotations[0].kind, PlanAnnotationKind::Primary);
            assert_eq!((annotations[0].start, annotations[0].end), (4, 5));
            assert_eq!(annotations[0].label.as_deref(), Some("expected a name"));
            assert!(annotations[0].highlight);
            assert_eq!(annotations[1].kind, PlanAnnotationKind::Visible);
            assert_eq!((annotations[1].start, annotations[1].end), (0, 3));
            assert!(!annotations[1].highlight);
        },
        _ => panic!("a located diagnostic shows a snippet"),
    }
    assert_eq!(groups[1].level, PlanLevel::Help);
    assert_eq!(groups[1].name.as_deref(), Some("thrower"));
    assert!(!groups[1].primary);
    match &groups[1].element {
        PlanElement::Origin { path, line, column } => {
            assert_eq!(path, "src/parser.rs");
            assert_eq!((*line, *column), (12, 5));
        },
        _ => panic!("the thrower group shows an origin"),
    }
}

#[test]
fn a_diagnostic_without_a_known_source_shows_a_note() {
    let sources = SourceManager::new();
    let printer = Printer::new(&sources);
    let groups = printer.build_report(&diagnostic(None, None));
    match &groups[0].element {
        PlanElement::Message { level, text } => {
            assert_eq!(*level, PlanLevel::Note);
            assert_eq!(text, "no source provided");
        },
        _ => panic!("no source, no snippet"),
    }
    let missing = diagnostic(Some(Span::new(CodeSourceId::new(3), 0, 1)), Some("see here"));
    let groups = printer.build_report(&missing);
    match &groups[0].element {
        PlanElement::Message { text, .. } => assert_eq!(text, "see here"),
        _ => panic!("an unknown source gives no snippet"),
    }
}

#[test]
fn printing_plans_every_diagnostic_in_order() {
    let sources = SourceManager::new();
    let mut second = diagnostic(None, None);
    second.level = DiagnosticLevel::Warning;
    let plan = Printer::plan(&sources, &[diagnostic(None, None), second]);
    assert_eq!(plan.len(), 4);
    assert_eq!(plan[0].level, PlanLevel::Error);
    assert_eq!(plan[2].level, PlanLevel::Warning);
    assert_eq!(plan[3].level, PlanLevel::Help);
}

#[test]
fn warnings_are_counted_in_yellow() {
    let mut reporter = Reporter::new();
    reporter.report(DiagnosticReport {
        message: DiagnosticMessage::Lexer(luma::lexer::diagnostics::LexerDiagnostic::UnexpectedCharacter('$')),
        span: Span::new(CodeSourceId::zero(), 0, 1),
        cursor: Cursor::new(1, 1),
    });
    let source = CodeSource::new("$".to_string(), None);
    let text = reporter.formatted_for(&source);
    assert!(text.starts_with("\x1b[31mwarning:\x1b[39m \x1b[1m\x1b[91munexpected character '$'\x1b[39m\x1b[0m\n"));
    assert!(text.contains("\x1b[34m1\x1b[39m\x1b[34m | \x1b[39m$\n \x1b[34m | \x1b[39m^\n"));
    assert!(text.ends_with("\n\n\x1b[33mwarning: found 1 warnings\n\x1b[39m"));
    assert!(!text.contains("could not compile"));
}

#[test]
fn a_named_child_files_into_its_parents_store() {
    let mut parent = Reporter::new();
    parent.report(unresolved("a", 0, 1, 1, 1));
    {
        let mut child = parent.with_name("analyzer");
        assert_eq!(child.diagnostic_count(DiagnosticKind::Error), 1);
        child.report(unresolved("b", 2, 3, 1, 3));
        assert_eq!(child.diagnostic_count(DiagnosticKind::Error), 2);
        assert_eq!(child.entries().len(), 2);
    }
    assert_eq!(parent.diagnostic_count(DiagnosticKind::Error), 2);
    assert_eq!(parent.entries()[1].reporter_name, "Tmain:analyzer");
    assert_eq!(parent.entries()[1].source_name, "<virtual>");
    assert_eq!(parent.name(), "Tmain");
}

#[test]
fn filing_many_adds_each_kind_as_often_as_it_occurs() {
    let mut reporter = Reporter::new();
    reporter.report(unresolved("a", 0, 1, 1, 1));
    let warning = || DiagnosticReport {
        message: DiagnosticMessage::Lexer(luma::lexer::diagnostics::LexerDiagnostic::UnexpectedCharacter('$')),
        span: Span::new(CodeSourceId::zero(), 0, 1),
        cursor: Cursor::new(1, 1),
    };
    reporter.report_all(vec![warning(), unresolved("b", 2, 3, 1, 3), warning()]);
    assert_eq!(reporter.diagnostic_count(DiagnosticKind::Error), 2);
    assert_eq!(reporter.diagnostic_count(DiagnosticKind::Warning), 2);
    reporter.report_all(Vec::new());
    assert_eq!(reporter.diagnostic_count(DiagnosticKind::Error), 2);
    assert_eq!(reporter.diagnostic_count(DiagnosticKind::Warning), 2);
}
