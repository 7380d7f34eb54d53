use ttyrec_log::logger::{deduplicate, LogLine};

fn line(prefix: &str, body: &str) -> LogLine {
    LogLine { prefix: prefix.to_string(), body: body.to_string() }
}

#[test]
fn render_joins_prefix_and_body() {
    assert_eq!(line("[T] ", "You see").render(), "[T] You see");
    assert_eq!(line("", "").render(), "");
    assert_eq!(line("\u{e9}", "\u{2592}").render(), "\u{e9}\u{2592}");
}

#[test]
fn no_lines_give_an_empty_log() {
    assert_eq!(deduplicate(&Vec::new()), Vec::<String>::new());
}

#[test]
fn same_line_twice_in_sequence_is_logged_once() {
    let lines = vec![line("[1] ", "You see"), line("[1] ", "You see")];
    assert_eq!(deduplicate(&lines), vec!["[1] You see".to_string()]);
}

#[test]
fn repeated_line_stays_at_its_first_position() {
    let lines = vec![
        line("[1] ", "a"),
        line("[1] ", "b"),
        line("[1] ", "b"),
        line("[1] ", "c"),
        line("[1] ", "a"),
        line("[1] ", "b"),
    ];
    assert_eq!(
        deduplicate(&lines),
        vec!["[1] a".to_string(), "[1] b".to_string(), "[1] c".to_string()]
    );
}

#[test]
fn lines_differing_in_prefix_are_both_kept() {
    let lines = vec![line("[1] ", "a"), line("[2] ", "a"), line("[1] ", "a")];
    assert_eq!(deduplicate(&lines), vec!["[1] a".to_string(), "[2] a".to_string()]);
}

#[test]
fn lines_are_compared_as_rendered() {
    let lines = vec![line("ab", "c"), line("a", "bc"), line("", "abc"), line("abc", "")];
    assert_eq!(deduplicate(&lines), vec!["abc".to_string()]);
}

#[test]
fn distinct_lines_keep_their_order() {
    let lines = vec![line("", "z"), line("", "y"), line("", "x")];
    assert_eq!(deduplicate(&lines), vec!["z".to_string(), "y".to_string(), "x".to_string()]);
}
