use godot_log_lint::classify::{classify, lint, Verdict};
use godot_log_lint::escape::remove_ansi_escape_codes;
use godot_log_lint::report::check_log;

#[test]
fn test_lint() {
    assert!(!lint("Missing: res://textures/missing_texture.png", false));
    assert!(lint(
        "ERROR: Failed to load script res://scripts/nonexistent.gd",
        false
    ));
    assert!(!lint("Export started...", false));
    assert!(!lint("Export completed.", false));
}

#[test]
fn scenario_benign_line_is_clean() {
    let line = "Missing: res://textures/missing_texture.png";
    let verdict = classify(line, false);
    assert_eq!(verdict, Verdict::Clean);
    assert!(!verdict.counts_as_failure());
    assert!(!verdict.is_reported());
}

#[test]
fn scenario_error_line_fails_and_is_reported() {
    let line = "ERROR: Failed to load script res://scripts/nonexistent.gd";
    let verdict = classify(line, false);
    assert_eq!(verdict, Verdict::Error);
    assert!(verdict.counts_as_failure());
    assert!(verdict.is_reported());
    assert!(lint(line, false));
    assert!(lint(line, true));
}

#[test]
fn scenario_warning_counted_under_strict_policy() {
    let line = "WARNING: deprecated API used";
    let verdict = classify(line, true);
    assert_eq!(verdict, Verdict::WarningCounted);
    assert!(verdict.counts_as_failure());
    assert!(verdict.is_reported());
    assert!(lint(line, true));
}

#[test]
fn scenario_warning_ignored_under_default_policy() {
    let line = "WARNING: deprecated API used";
    let verdict = classify(line, false);
    assert_eq!(verdict, Verdict::WarningIgnored);
    assert!(!verdict.counts_as_failure());
    assert!(!verdict.is_reported());
    assert!(!lint(line, false));
}

#[test]
fn error_wins_over_warning() {
    let line = "WARNING before an ERROR on one line";
    assert_eq!(classify(line, false), Verdict::Error);
    assert_eq!(classify(line, true), Verdict::Error);
}

#[test]
fn matching_is_case_sensitive_substring() {
    assert!(!lint("error: lower case is not matched", true));
    assert!(!lint("warning: lower case is not matched", true));
    assert!(lint("the word SUBERRORS matches inside a word", false));
}

#[test]
fn classify_works_on_stripped_colored_line() {
    let cleaned = remove_ansi_escape_codes("\x1b[31mERROR: tinted output\x1b[0m");
    assert_eq!(cleaned, "ERROR: tinted output");
    assert!(lint(&cleaned, false));
}

#[test]
fn scenario_three_line_log_has_issues() {
    let lines: Vec<String> = vec![
        String::from("Missing: res://textures/missing_texture.png"),
        String::from("ERROR: Failed to load script res://scripts/nonexistent.gd"),
        String::from("Export completed."),
    ];
    let report = check_log(&lines, false);
    assert!(report.has_issues);
    assert_eq!(report.lines.len(), 3);
    assert_eq!(report.lines[0].verdict, Verdict::Clean);
    assert_eq!(report.lines[1].verdict, Verdict::Error);
    assert_eq!(report.lines[2].verdict, Verdict::Clean);
}

#[test]
fn check_log_empty_has_no_issues() {
    let lines: Vec<String> = Vec::new();
    let report = check_log(&lines, true);
    assert!(!report.has_issues);
    assert_eq!(report.lines.len(), 0);
}

#[test]
fn check_log_warnings_follow_policy() {
    let lines: Vec<String> = vec![
        String::from("Export started..."),
        String::from("WARNING: deprecated API used"),
    ];
    let lenient = check_log(&lines, false);
    assert!(!lenient.has_issues);
    let strict = check_log(&lines, true);
    assert!(strict.has_issues);
    assert_eq!(strict.lines[1].verdict, Verdict::WarningCounted);
    assert_eq!(lenient.lines[1].verdict, Verdict::WarningIgnored);
}

#[test]
fn check_log_strips_before_classifying() {
    let lines: Vec<String> = vec![String::from("\x1b[33mWARNING: tinted\x1b[0m")];
    let report = check_log(&lines, true);
    assert!(report.has_issues);
    assert_eq!(report.lines[0].cleaned, "WARNING: tinted");
    assert_eq!(report.lines[0].verdict, Verdict::WarningCounted);
}
