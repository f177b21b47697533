use repl::util::get_visible_text;

fn cv(s: &str) -> Vec<char> {
    s.chars().collect()
}

fn gvt(s: &str, h: usize) -> String {
    get_visible_text(&cv(s), h).into_iter().collect()
}

#[test]
fn no_line_breaks_returns_the_whole_text() {
    for h in [0usize, 1, 2, 10, 1000] {
        assert_eq!(gvt("hello world", h), "hello world");
        assert_eq!(gvt("", h), "");
    }
}

#[test]
fn window_keeps_the_trailing_lines() {
    assert_eq!(gvt("a\nb\nc\nd", 0), "d");
    assert_eq!(gvt("a\nb\nc\nd", 1), "c\nd");
    assert_eq!(gvt("a\nb\nc\nd", 2), "b\nc\nd");
    assert_eq!(gvt("a\nb\nc\nd", 3), "a\nb\nc\nd");
    assert_eq!(gvt("a\nb\nc\nd", 9), "a\nb\nc\nd");
}

#[test]
fn window_on_text_ending_with_a_break() {
    assert_eq!(gvt("a\nb\n", 0), "");
    assert_eq!(gvt("a\nb\n", 1), "b\n");
    assert_eq!(gvt("a\nb\n", 2), "a\nb\n");
    assert_eq!(gvt("\n", 0), "");
    assert_eq!(gvt("\n", 1), "\n");
}

#[test]
fn window_is_idempotent() {
    for (s, h) in [
        ("a\nb\nc\nd", 1usize),
        ("a\nb\nc\nd", 0),
        ("line one\nline two\nline three", 2),
        ("no breaks at all", 5),
        ("ends with break\nmore\n", 1),
    ] {
        let once = gvt(s, h);
        let twice = gvt(&once, h);
        assert_eq!(twice, once);
    }
}

#[test]
fn window_spans_at_most_one_more_line_than_the_height() {
    // `h` line breaks survive the cut, so up to `h + 1` lines show
    let shown = gvt("1\n2\n3\n4\n5\n6", 2);
    assert_eq!(shown, "4\n5\n6");
    assert_eq!(shown.matches('\n').count(), 2);
}
