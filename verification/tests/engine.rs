use ident_extract::engine::{
    captures_within, check_languages, check_setup, extract, lines_from, render_captures, text_of,
    Capture, ExtractError,
};
use ident_extract::registry::LanguageSpec;

fn sorted(mut lines: Vec<String>) -> Vec<String> {
    lines.sort();
    lines
}

fn occurs_in(line: &str, source: &[u8]) -> bool {
    line.is_empty() || source.windows(line.len()).any(|w| w == line.as_bytes())
}

#[test]
fn rust_function_yields_its_identifiers() {
    let source = b"fn add(a: i32, b: i32) -> i32 { a + b }";
    let lines = extract(LanguageSpec::Rust, source).unwrap();
    assert_eq!(lines.len(), 5);
    assert_eq!(sorted(lines), vec!["a", "a", "add", "b", "b"]);
}

#[test]
fn rust_lines_come_in_document_order() {
    let source = b"fn add(a: i32, b: i32) -> i32 { a + b }";
    let lines = extract(LanguageSpec::Rust, source).unwrap();
    assert_eq!(lines, vec!["add", "a", "b", "a", "b"]);
}

#[test]
fn python_function_yields_its_identifiers() {
    let source = b"def area(width, height):\n    return width * height\n";
    let lines = extract(LanguageSpec::Python, source).unwrap();
    assert_eq!(sorted(lines), vec!["area", "height", "height", "width", "width"]);
}

#[test]
fn c_function_yields_its_identifiers() {
    let source = b"int twice(int n) { return n + n; }\n";
    let lines = extract(LanguageSpec::C, source).unwrap();
    assert_eq!(sorted(lines), vec!["n", "n", "n", "twice"]);
}

#[test]
fn cpp_qualified_name_yields_both_parts() {
    let source = b"int main() { return foo::bar; }\n";
    let lines = extract(LanguageSpec::Cpp, source).unwrap();
    assert!(lines.contains(&"foo".to_string()));
    assert!(lines.contains(&"bar".to_string()));
    assert_eq!(sorted(lines), vec!["bar", "foo", "main"]);
}

#[test]
fn truncated_source_still_yields_identifiers() {
    let source = b"fn complete(first: u8) -> u8 { first }\nfn broken(second: u8 {";
    let lines = extract(LanguageSpec::Rust, source).unwrap();
    assert!(!lines.is_empty());
    assert!(lines.contains(&"complete".to_string()));
    assert!(lines.contains(&"first".to_string()));
}

#[test]
fn empty_source_yields_nothing() {
    assert_eq!(extract(LanguageSpec::Rust, b"").unwrap(), Vec::<String>::new());
    assert_eq!(extract(LanguageSpec::Python, b"").unwrap(), Vec::<String>::new());
}

#[test]
fn every_line_occurs_in_the_source() {
    let source = b"struct Point { x: i32, y: i32 }\nimpl Point { fn norm(&self) -> i32 { self.x + self.y } }\n";
    let lines = extract(LanguageSpec::Rust, source).unwrap();
    assert!(!lines.is_empty());
    for line in &lines {
        assert!(occurs_in(line, source));
        assert!(!line.contains('\n'));
    }
}

#[test]
fn same_source_gives_same_lines() {
    let source = b"namespace a { int b = c::d; }\n";
    let first = extract(LanguageSpec::Cpp, source);
    let second = extract(LanguageSpec::Cpp, source);
    assert_eq!(first, second);
    assert!(first.is_ok());
}

#[test]
fn grammar_decides_what_is_found() {
    let source = b"def f(x): return x\n";
    let python = extract(LanguageSpec::Python, source).unwrap();
    assert_eq!(python, vec!["f", "x", "x"]);
    let rust = extract(LanguageSpec::Rust, source).unwrap();
    assert_ne!(rust, python);
}

#[test]
fn text_of_decodes_the_range() {
    let source = "let caf\u{e9} = 1;".as_bytes();
    assert_eq!(text_of(Capture { start: 4, end: 9 }, source), "caf\u{e9}");
    assert_eq!(text_of(Capture { start: 0, end: 3 }, source), "let");
    assert_eq!(text_of(Capture { start: 3, end: 3 }, source), "");
}

#[test]
fn text_of_invalid_encoding_is_empty() {
    let source = [b'a', 0xff, b'b'];
    assert_eq!(text_of(Capture { start: 0, end: 3 }, &source), "");
    assert_eq!(text_of(Capture { start: 1, end: 2 }, &source), "");
    assert_eq!(text_of(Capture { start: 2, end: 3 }, &source), "b");
    let split = "\u{e9}".as_bytes();
    assert_eq!(text_of(Capture { start: 0, end: 1 }, split), "");
}

#[test]
fn captures_within_checks_each_range() {
    let inside = vec![vec![Capture { start: 0, end: 2 }], vec![], vec![Capture { start: 5, end: 5 }]];
    assert!(captures_within(&inside, 5));
    assert!(!captures_within(&inside, 4));
    let reversed = vec![vec![Capture { start: 3, end: 2 }]];
    assert!(!captures_within(&reversed, 10));
    assert!(captures_within(&Vec::new(), 0));
}

#[test]
fn render_captures_keeps_match_and_capture_order() {
    let source = b"alpha beta gamma";
    let found = vec![
        vec![Capture { start: 6, end: 10 }, Capture { start: 0, end: 5 }],
        vec![],
        vec![Capture { start: 11, end: 16 }],
    ];
    assert_eq!(render_captures(&found, source), vec!["beta", "alpha", "gamma"]);
}

#[test]
fn lines_from_renders_matches() {
    let source = b"one two";
    let found = vec![vec![Capture { start: 0, end: 3 }], vec![Capture { start: 4, end: 7 }]];
    assert_eq!(lines_from(Ok(found), source), Ok(vec!["one".to_string(), "two".to_string()]));
}

#[test]
fn lines_from_keeps_a_failure() {
    let source = b"one two";
    assert_eq!(lines_from(Err(ExtractError::GrammarSetup), source), Err(ExtractError::GrammarSetup));
    assert_eq!(lines_from(Err(ExtractError::QueryCompile), source), Err(ExtractError::QueryCompile));
    assert_eq!(lines_from(Err(ExtractError::ParseFailed), source), Err(ExtractError::ParseFailed));
}

#[test]
fn lines_from_refuses_a_range_outside_the_source() {
    let source = b"one two";
    let beyond = vec![vec![Capture { start: 0, end: 3 }], vec![Capture { start: 4, end: 8 }]];
    assert_eq!(lines_from(Ok(beyond), source), Err(ExtractError::CaptureOutsideSource));
    let reversed = vec![vec![Capture { start: 3, end: 0 }]];
    assert_eq!(lines_from(Ok(reversed), source), Err(ExtractError::CaptureOutsideSource));
}

#[test]
fn every_language_sets_up() {
    assert_eq!(check_setup(LanguageSpec::C), Ok(()));
    assert_eq!(check_setup(LanguageSpec::Cpp), Ok(()));
    assert_eq!(check_setup(LanguageSpec::Python), Ok(()));
    assert_eq!(check_setup(LanguageSpec::Rust), Ok(()));
    assert_eq!(check_languages(), Ok(()));
}
