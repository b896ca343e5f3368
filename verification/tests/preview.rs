use lionclip::popup::preview::{preview_text, PREVIEW_CHARS, WHITESPACE_PREVIEW};

#[test]
fn single_line_text_is_previewed_unchanged() {
    assert_eq!(preview_text("copied value"), "copied value");
}

#[test]
fn trailing_whitespace_and_windows_line_endings_are_normalized() {
    assert_eq!(preview_text("first  \r\nsecond\r\n"), "first\nsecond");
}

#[test]
fn leading_blank_lines_are_skipped() {
    assert_eq!(preview_text("\n\n  \nvisible"), "visible");
}

#[test]
fn tabs_and_control_characters_become_spaces() {
    assert_eq!(preview_text("a\tb\u{7}c"), "a b c");
}

#[test]
fn preview_is_capped_at_three_lines() {
    assert_eq!(preview_text("one\ntwo\nthree"), "one\ntwo\nthree");
    assert_eq!(preview_text("one\ntwo\nthree\nfour"), "one\ntwo\nthree…");
}

#[test]
fn very_long_unbroken_text_is_truncated() {
    let preview = preview_text(&"x".repeat(PREVIEW_CHARS * 4));

    assert_eq!(preview.chars().count(), PREVIEW_CHARS + 1);
    assert!(preview.ends_with('…'));
}

#[test]
fn unicode_content_is_preserved_in_previews() {
    assert_eq!(preview_text("Olá 🦁 mundo"), "Olá 🦁 mundo");
}

#[test]
fn whitespace_only_content_shows_a_marker() {
    assert_eq!(preview_text("   \n\t\n"), WHITESPACE_PREVIEW);
    assert_eq!(preview_text(""), WHITESPACE_PREVIEW);
}

#[test]
fn a_final_newline_does_not_count_as_a_fourth_line() {
    assert_eq!(preview_text("one\ntwo\nthree\n"), "one\ntwo\nthree");
    assert_eq!(preview_text("one\n\n\nfour"), "one\n\n…");
}

#[test]
fn the_budget_spans_lines() {
    let first = "y".repeat(PREVIEW_CHARS - 2);
    let preview = preview_text(&format!("{first}\nabcdef"));
    assert_eq!(preview, format!("{first}\nab…"));
    let exact = "z".repeat(PREVIEW_CHARS);
    assert_eq!(preview_text(&exact), exact);
}
