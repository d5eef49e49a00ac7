use glpipes::text::{cut_line, wrap_log};

#[test]
fn cut_lines() {
    let long_text = "abcdefghijklmnop";
    let cut_lines = cut_line(&long_text, 5);
    assert_eq!(cut_lines, vec!["abcde", "fghij", "klmno", "p"]);
}

#[test]
fn cut_line_round_trip_and_width() {
    let text = "the quick brown fox jumps";
    for w in 1..30 {
        let rows = cut_line(text, w);
        assert_eq!(rows.concat(), text);
        assert!(rows.iter().all(|r| r.chars().count() <= w && !r.is_empty()));
    }
}

#[test]
fn cut_line_empty_text_gives_no_rows() {
    assert!(cut_line("", 4).is_empty());
}

#[test]
fn cut_line_exact_multiple() {
    assert_eq!(cut_line("abcdef", 3), vec!["abc", "def"]);
}

#[test]
fn cut_line_counts_characters_not_bytes() {
    assert_eq!(cut_line("äöüß", 3), vec!["äöü", "ß"]);
}

#[test]
fn wrap_log_splits_lines_then_cuts() {
    let rows = wrap_log("abcdefg\nhi\r\n\nxyz\n", 3);
    assert_eq!(rows, vec!["abc", "def", "g", "hi", "xyz"]);
}

#[test]
fn wrap_log_keeps_carriage_return_without_break() {
    assert_eq!(wrap_log("ab\r", 5), vec!["ab\r"]);
    assert_eq!(wrap_log("x\r\nab\r", 5), vec!["x", "ab\r"]);
}

#[test]
fn wrap_log_last_line_without_break() {
    assert_eq!(wrap_log("ab\ncd", 5), vec!["ab", "cd"]);
}
