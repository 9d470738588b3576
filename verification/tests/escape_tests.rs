use godot_log_lint::escape::remove_ansi_escape_codes;

#[test]
fn strip_identity_on_clean_text() {
    let line = "Export completed without any color codes.";
    assert_eq!(remove_ansi_escape_codes(line), line);
}

#[test]
fn strip_empty_string() {
    assert_eq!(remove_ansi_escape_codes(""), "");
}

#[test]
fn strip_all_sequences_to_empty() {
    assert_eq!(remove_ansi_escape_codes("\x1b[31m\x1b[0;1m\x1b[m"), "");
}

#[test]
fn strip_mixed_content() {
    assert_eq!(
        remove_ansi_escape_codes("\x1b[31mERROR\x1b[0m: something broke"),
        "ERROR: something broke"
    );
}

#[test]
fn strip_sequence_with_semicolons() {
    assert_eq!(remove_ansi_escape_codes("a\x1b[1;32;40mb"), "ab");
}

#[test]
fn strip_is_idempotent_on_ordinary_input() {
    let once = remove_ansi_escape_codes("\x1b[32mok\x1b[0m done");
    let twice = remove_ansi_escape_codes(&once);
    assert_eq!(once, "ok done");
    assert_eq!(twice, once);
}

#[test]
fn strip_preserves_unterminated_sequence() {
    assert_eq!(remove_ansi_escape_codes("tail: \x1b[31"), "tail: \x1b[31");
}

#[test]
fn strip_preserves_marker_without_bracket() {
    assert_eq!(remove_ansi_escape_codes("x\x1b(31my"), "x\x1b(31my");
}

#[test]
fn strip_preserves_sequence_with_bad_interior() {
    assert_eq!(remove_ansi_escape_codes("\x1b[3x1m"), "\x1b[3x1m");
}

#[test]
fn strip_can_uncover_a_sequence() {
    // A lone marker is kept; deleting the sequence after it joins it with
    // the following `[1m`, so a second pass removes more than the first.
    let once = remove_ansi_escape_codes("\x1b\x1b[0m[1m");
    assert_eq!(once, "\x1b[1m");
    assert_eq!(remove_ansi_escape_codes(&once), "");
}
