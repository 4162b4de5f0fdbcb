use luma::ast::Ast;
use luma::input::{CodeInput, CodeInputKind, ParsedCodeInput};
use luma::source::{CodeSource, SourceManager};
use luma::span::Span;

#[test]
fn text_input_is_trimmed_and_virtual() {
    let input = CodeInput::from_text("  \n let x = 1;\t\n ");
    assert_eq!(input.source(), "let x = 1;");
    assert_eq!(input.path(), "<virtual>");
    assert!(matches!(input.kind(), CodeInputKind::Virtual));
}

#[test]
fn white_space_inside_stays() {
    let input = CodeInput::from_text("\u{3000}a \u{a0} b\u{2029}");
    assert_eq!(input.source(), "a \u{a0} b");
}

#[test]
fn a_file_input_is_known_by_its_path() {
    let input = CodeInput::new(CodeInputKind::File("src/main.lu".to_string()), "fn main() {}".to_string());
    assert_eq!(input.path(), "src/main.lu");
    let parsed = input.with_ast(Ast::new(Span::void(), Vec::new()));
    assert_eq!(parsed.path(), "src/main.lu");
    assert_eq!(parsed.source(), "fn main() {}");
    assert!(parsed.ast.statements.is_empty());
}

#[test]
fn from_input_keeps_the_text() {
    let input = CodeInput::from_text("a;");
    let parsed = ParsedCodeInput::from_input(input, Ast::new(Span::void(), Vec::new()));
    assert_eq!(parsed.source(), "a;");
    assert!(matches!(parsed.kind(), CodeInputKind::Virtual));
}

#[test]
fn a_source_is_known_by_its_file_name() {
    let source = CodeSource::new("x".to_string(), Some("dir/sub/file.lu".to_string()));
    assert_eq!(source.file_name(), Some("file.lu"));
    assert_eq!(source.source_file(), "dir/sub/file.lu");
    let bare = CodeSource::new("x".to_string(), None);
    assert_eq!(bare.file_name(), None);
    assert_eq!(bare.source_file(), "<virtual>");
}

#[test]
fn a_registered_source_is_found_again() {
    let mut sources = SourceManager::new();
    let a = sources.add_source(CodeSource::new("a".to_string(), None));
    let b = sources.add_source(CodeSource::new("b".to_string(), None));
    assert_eq!(sources.get_source(a).map(|s| s.source()), Some("a"));
    assert_eq!(sources.get_source(b).map(|s| s.source()), Some("b"));
    assert_eq!(sources.get_sources().len(), 2);
}
