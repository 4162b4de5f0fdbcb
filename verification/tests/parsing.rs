use luma::diagnostic::reporter::Reporter;
use luma::diagnostic::DiagnosticKind;
use luma::pipeline::{analyze_source, parse_source};

#[test]
pub fn test_parsing_if() {
    const INPUT: &str = r#"
        let arg = "0";
        
        // errors as it returns a type and no semi-colon therefore its a "scope" return type
        if arg == "1" {
            arg = "1a"
        } else {
            arg = "1b"
        }
    "#;

    let mut reporter = Reporter::new();
    let parsed = parse_source(&mut reporter, INPUT);
    analyze_source(&mut reporter, parsed);

    assert_eq!(reporter.diagnostic_count(DiagnosticKind::Error), 1);
}
