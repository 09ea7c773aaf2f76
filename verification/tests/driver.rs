use ident_extract::driver::{
    parse_args, stream_target, usage_line, usage_report, Plan, Step, UsageError,
};
use ident_extract::registry::{LanguageSpec, Registry};

fn args(words: &[&str]) -> Vec<String> {
    words.iter().map(|w| w.to_string()).collect()
}

#[test]
fn single_path() {
    assert_eq!(
        parse_args(&args(&["src"])),
        Ok(Plan { stream: false, path: Some("src".to_string()) })
    );
}

#[test]
fn stream_only() {
    assert_eq!(parse_args(&args(&["-i"])), Ok(Plan { stream: true, path: None }));
    assert_eq!(parse_args(&args(&["-i", "-i"])), Ok(Plan { stream: true, path: None }));
}

#[test]
fn stream_and_path_in_either_order() {
    let plan = Plan { stream: true, path: Some("src".to_string()) };
    assert_eq!(parse_args(&args(&["-i", "src"])), Ok(plan.clone()));
    assert_eq!(parse_args(&args(&["src", "-i"])), Ok(plan));
}

#[test]
fn no_input_is_a_usage_error() {
    assert_eq!(parse_args(&args(&[])), Err(UsageError::NoInput));
}

#[test]
fn help_is_a_usage_error() {
    assert_eq!(parse_args(&args(&["-h"])), Err(UsageError::HelpRequested));
    assert_eq!(parse_args(&args(&["src", "-h"])), Err(UsageError::HelpRequested));
    assert_eq!(parse_args(&args(&["-i", "-h", "a", "b"])), Err(UsageError::HelpRequested));
}

#[test]
fn second_path_is_a_usage_error() {
    assert_eq!(parse_args(&args(&["a", "b"])), Err(UsageError::MultiplePaths));
    assert_eq!(parse_args(&args(&["a", "-i", "b"])), Err(UsageError::MultiplePaths));
    assert_eq!(parse_args(&args(&["a", "b", "-h"])), Err(UsageError::MultiplePaths));
}

#[test]
fn other_flags_are_paths() {
    assert_eq!(
        parse_args(&args(&["-x"])),
        Ok(Plan { stream: false, path: Some("-x".to_string()) })
    );
}

#[test]
fn steps_of_a_single_path() {
    let mut plan = Plan { stream: false, path: Some("src".to_string()) };
    assert_eq!(plan.next_step(), Step::Visit("src".to_string()));
    assert_eq!(plan.next_step(), Step::Finish);
    assert_eq!(plan.next_step(), Step::Finish);
}

#[test]
fn stream_comes_before_the_path() {
    let mut plan = Plan { stream: true, path: Some("src".to_string()) };
    assert_eq!(plan.next_step(), Step::ReadLine);
    assert_eq!(plan.next_step(), Step::ReadLine);
    plan.end_of_stream();
    assert_eq!(plan, Plan { stream: false, path: Some("src".to_string()) });
    assert_eq!(plan.next_step(), Step::Visit("src".to_string()));
    assert_eq!(plan.next_step(), Step::Finish);
}

#[test]
fn stream_alone_ends_with_the_stream() {
    let mut plan = Plan { stream: true, path: None };
    assert_eq!(plan.next_step(), Step::ReadLine);
    plan.end_of_stream();
    assert_eq!(plan.next_step(), Step::Finish);
}

#[test]
fn usage_line_names_the_program() {
    assert_eq!(usage_line("idents"), "usage: idents [-i] [-h] [path]");
}

#[test]
fn usage_report_for_each_error() {
    assert_eq!(usage_report("idents", UsageError::HelpRequested), vec!["usage: idents [-i] [-h] [path]"]);
    assert_eq!(usage_report("idents", UsageError::NoInput), vec!["usage: idents [-i] [-h] [path]"]);
    assert_eq!(usage_report("idents", UsageError::MultiplePaths), vec!["usage: idents [-i] [-h] [path]"]);
}

#[test]
fn second_path_is_reported_by_the_usage_line_alone() {
    let error = parse_args(&args(&["a.rs", "b.rs"])).unwrap_err();
    assert_eq!(error, UsageError::MultiplePaths);
    let report = usage_report("prog", error);
    assert_eq!(report.len(), 1);
    assert_eq!(report, vec!["usage: prog [-i] [-h] [path]"]);
}

#[test]
fn stream_line_is_trimmed() {
    assert_eq!(stream_target("  src/main.rs \t\r\n"), "src/main.rs");
    assert_eq!(stream_target("a b"), "a b");
    assert_eq!(stream_target("\u{a0}x\u{3000}"), "x");
    assert_eq!(stream_target("   "), "");
    assert_eq!(stream_target(""), "");
}

#[test]
fn stream_of_three_lines() {
    let registry = Registry::new();
    let lines = ["a.rs\n", "b.py\n", "not-a-real-extension\n"];
    let found: Vec<Option<LanguageSpec>> = lines
        .iter()
        .map(|line| registry.spec_for_path(&stream_target(line)))
        .collect();
    assert_eq!(found, vec![Some(LanguageSpec::Rust), Some(LanguageSpec::Python), None]);
}

#[test]
fn only_white_space_is_trimmed() {
    assert_eq!(stream_target("\u{1680}x\u{2028}"), "x");
    assert_eq!(stream_target("\u{85}\u{2000}x\u{200a}\u{205f}\u{202f}\u{2029}"), "x");
    assert_eq!(stream_target("\u{b}\u{c}x\r"), "x");
    assert_eq!(stream_target("\u{200b}x"), "\u{200b}x");
    assert_eq!(stream_target("x\u{180e}"), "x\u{180e}");
    assert_eq!(stream_target("\u{8}x\u{e}"), "\u{8}x\u{e}");
    assert_eq!(stream_target(" a  b "), "a  b");
}
