use garch::blame::BlameLine;
use garch::palette::get_author_color;
use garch::render::{
    body_rows, build_frame, choose_fitting, commit_line, fit_content, footer_line, gutter,
    header_line, line_text, pad_right, separator, truncate_chars, wrap_chars, Fitting,
};
use garch::text::{chars_of, string_from};
use garch::versions::FileVersion;
use garch::viewer::ViewerState;

fn row(line_number: usize, author: &str, content: &str, styled: &str) -> BlameLine {
    BlameLine {
        line_number,
        author: author.to_string(),
        date: "2024-01-01".to_string(),
        commit_hash: "abcdef1".to_string(),
        commit_message: "init".to_string(),
        content: content.to_string(),
        highlighted_content: styled.to_string(),
    }
}

fn truncated(text: &str, width: usize) -> String {
    string_from(&truncate_chars(&chars_of(text), width))
}

fn padded(text: &str, width: usize) -> String {
    let mut chars = chars_of(text);
    pad_right(&mut chars, width);
    string_from(&chars)
}

fn wrapped(text: &str, width: usize) -> Vec<String> {
    wrap_chars(&chars_of(text), width)
}

#[test]
fn truncation_marks_the_cut_with_dots() {
    assert_eq!(truncated("hello world", 11), "hello world");
    assert_eq!(truncated("hello world", 10), "hello w...");
    assert_eq!(truncated("hello world", 4), "h...");
    assert_eq!(truncated("hello world", 3), "...");
    assert_eq!(truncated("hello world", 0), "...");
    assert_eq!(truncated("", 0), "");
    assert_eq!(truncated("héllo wörld", 8), "héllo...");
}

#[test]
fn padding_fills_with_spaces() {
    assert_eq!(padded("ab", 5), "ab   ");
    assert_eq!(padded("abcde", 5), "abcde");
    assert_eq!(padded("abcdef", 5), "abcdef");
    assert_eq!(padded("", 0), "");
    assert_eq!(padded("", 2), "  ");
}

#[test]
fn wrapping_breaks_at_the_last_space_of_the_last_third() {
    assert_eq!(wrapped("aaaa bbbb cccc", 12), vec!["aaaa bbbb", "cccc"]);
    assert_eq!(wrapped("aaaaaaaa bb cc dd", 12), vec!["aaaaaaaa bb", "cc dd"]);
    assert_eq!(wrapped("aaaaaaa bbb cccc", 12), vec!["aaaaaaa bbb", "cccc"]);
    assert_eq!(wrapped("one two three four", 12), vec!["one two thre", "e four"]);
    assert_eq!(wrapped("one two three four five six", 9), vec!["one two", "three fou", "r five", "six"]);
}

#[test]
fn wrapping_splits_where_no_space_is_near_the_end() {
    assert_eq!(wrapped("abcdefghijklmnop", 6), vec!["abcdef", "ghijkl", "mnop"]);
    assert_eq!(wrapped("ab cdefghijklmnop", 9), vec!["ab cdefgh", "ijklmnop"]);
    assert_eq!(wrapped("abcdef", 1), vec!["a", "b", "c", "d", "e", "f"]);
    assert_eq!(wrapped("a b c", 1), vec!["a", " ", "b", " ", "c"]);
    assert_eq!(wrapped("abcdefgh ij", 9), vec!["abcdefgh", "ij"]);
    assert_eq!(wrapped("abcdefghi jk", 9), vec!["abcdefghi", " jk"]);
}

#[test]
fn wrapping_leaves_text_that_fits() {
    assert_eq!(wrapped("short", 10), vec!["short"]);
    assert_eq!(wrapped("exactly 10", 10), vec!["exactly 10"]);
    assert_eq!(wrapped("", 10), vec![""]);
    assert_eq!(wrapped("", 0), vec![""]);
    assert_eq!(wrapped("no width at all", 0), vec!["no width at all"]);
}

#[test]
fn fitting_goes_by_the_escape_codes() {
    assert_eq!(choose_fitting(&chars_of("\u{1b}[38;2;1;2;3mtext")), Fitting::Truncate);
    assert_eq!(choose_fitting(&chars_of("te\u{1b}xt")), Fitting::Truncate);
    assert_eq!(choose_fitting(&chars_of("text")), Fitting::Wrap);
    assert_eq!(choose_fitting(&chars_of("")), Fitting::Wrap);
}

#[test]
fn content_is_fitted_by_either_strategy() {
    let content = chars_of("aaaa bbbb cccc");
    assert_eq!(fit_content(&content, Fitting::Wrap, 12), vec!["aaaa bbbb", "cccc"]);
    assert_eq!(fit_content(&content, Fitting::Truncate, 12), vec!["aaaa bbbb..."]);
}

#[test]
fn line_that_fits_shows_its_styled_content() {
    let line = row(1, "Jane D.", "let x;", "\u{1b}[38;2;1;2;3mlet x;");
    assert_eq!(line_text(&line, 6), vec!["\u{1b}[38;2;1;2;3mlet x;"]);
    assert_eq!(line_text(&line, 60), vec!["\u{1b}[38;2;1;2;3mlet x;"]);
    let line = row(1, "Jane D.", "", "");
    assert_eq!(line_text(&line, 0), vec![""]);
}

#[test]
fn styled_line_that_overflows_is_cut() {
    let line = row(1, "Jane D.", "let value = 12345;", "\u{1b}[38;2;1;2;3mlet value = 12345;");
    assert_eq!(line_text(&line, 10), vec!["let val..."]);
}

#[test]
fn plain_line_that_overflows_is_wrapped() {
    let line = row(1, "Jane D.", "let value = 12345;", "let value = 12345;");
    assert_eq!(line_text(&line, 10), vec!["let value", "= 12345;"]);
    let line = row(1, "Jane D.", "let value = 12345;", "");
    assert_eq!(line_text(&line, 10), vec!["let value", "= 12345;"]);
}

#[test]
fn gutter_sets_the_number_to_the_right() {
    assert_eq!(gutter(5), "│   5 │ ");
    assert_eq!(gutter(42), "│  42 │ ");
    assert_eq!(gutter(123), "│ 123 │ ");
    assert_eq!(gutter(12345), "│ 12345 │ ");
    assert_eq!(gutter(0), "│   0 │ ");
}

#[test]
fn header_names_file_version_and_date() {
    assert_eq!(
        header_line("src/main.rs", 0, 3, "2024-01-01", 0),
        "📜 src/main.rs │ 1 of 3 │ 📅 2024-01-01"
    );
    assert_eq!(
        header_line("a", 11, 12, "d", 30),
        "📜 a │ 12 of 12 │ 📅 d          "
    );
    assert_eq!(
        header_line("", usize::MAX, usize::MAX, "", 0),
        "📜  │ 18446744073709551616 of 18446744073709551615 │ 📅 "
    );
}

#[test]
fn commit_line_shows_a_short_id() {
    assert_eq!(
        commit_line("0123456789abcdef", "fix the bug", 0),
        "..."
    );
    assert_eq!(
        commit_line("0123456789abcdef", "fix the bug", 30),
        "🔗 01234567 │ fix the bug      "
    );
    assert_eq!(commit_line("0123456789abcdef", "fix the bug", 24), "🔗 01234567 │ fix the bug");
    assert_eq!(commit_line("0123456789abcdef", "fix the bug", 20), "🔗 01234567 │ fix ...");
    assert_eq!(commit_line("01234567", "m", 0).len(), "...".len());
    assert_eq!(commit_line("0123", "m", 12), "🔗 0123 │ m  ");
}

#[test]
fn separator_and_footer_span_the_width() {
    assert_eq!(separator(0), "");
    assert_eq!(separator(5), "─────");
    assert_eq!(
        footer_line(0),
        "← Older    Newer → │ ↑ ↓ : Scroll │ Mouse: Scroll │ q : Quit"
    );
    assert_eq!(footer_line(80).chars().count(), 80);
    assert!(footer_line(80).ends_with("q : Quit                    "));
}

#[test]
fn body_shows_the_rows_in_view() {
    let lines: Vec<BlameLine> =
        (1..=10).map(|n| row(n, "Jane D.", &format!("line {}", n), &format!("line {}", n))).collect();
    let rows: Vec<&BlameLine> = lines.iter().collect();
    let body = body_rows(&rows, 3, 4, 60);
    assert_eq!(body.len(), 4);
    assert_eq!(body.iter().map(|r| r.index).collect::<Vec<_>>(), vec![3, 4, 5, 6]);
    assert_eq!(body[0].gutter, "│   4 │ ");
    assert_eq!(body[0].color, get_author_color("Jane D."));
    assert_eq!(body[0].text, vec!["line 4"]);
    assert_eq!(body[3].text, vec!["line 7"]);
    assert_eq!(body_rows(&rows, 8, 4, 60).len(), 2);
    assert_eq!(body_rows(&rows, 10, 4, 60).len(), 0);
    assert_eq!(body_rows(&rows, 11, 4, 60).len(), 0);
    assert_eq!(body_rows(&rows, usize::MAX, usize::MAX, 60).len(), 0);
    assert_eq!(body_rows(&rows, 0, 0, 60).len(), 0);
    assert_eq!(body_rows(&rows, 0, usize::MAX, 60).len(), 10);
    assert_eq!(body_rows(&[], 0, 4, 60).len(), 0);
}

#[test]
fn body_marks_where_an_author_block_begins() {
    let lines = vec![
        row(1, "Jane D.", "a", "a"),
        row(2, "Jane D.", "b", "b"),
        row(3, "Cher", "c", "c"),
        row(4, "Jane D.", "d", "d"),
        row(5, "", "e", "e"),
        row(6, "", "f", "f"),
    ];
    let rows: Vec<&BlameLine> = lines.iter().collect();
    let marks: Vec<bool> = body_rows(&rows, 0, 10, 60).iter().map(|r| r.starts_block).collect();
    assert_eq!(marks, vec![true, false, true, true, true, false]);
    let marks: Vec<bool> = body_rows(&rows, 1, 10, 60).iter().map(|r| r.starts_block).collect();
    assert_eq!(marks, vec![true, true, true, true, false]);
    let marks: Vec<bool> = body_rows(&rows, 4, 10, 60).iter().map(|r| r.starts_block).collect();
    assert_eq!(marks, vec![false, false]);
}

#[test]
fn frame_lays_out_the_screen() {
    let lines: Vec<BlameLine> = (1..=50)
        .map(|n| row(n, if n < 30 { "Jane D." } else { "Cher" }, "text", "\u{1b}[38;2;1;2;3mtext"))
        .collect();
    let version = FileVersion {
        commit_hash: "0123456789abcdef".to_string(),
        commit_date: "2024-05-06".to_string(),
        commit_message: "a message".to_string(),
        blame_lines: lines,
    };
    let rows: Vec<&BlameLine> = version.blame_lines.iter().collect();
    let state = ViewerState {
        current_version: 1,
        scroll_offset: 25,
        target_line: None,
        terminal_width: 40,
        terminal_height: 10,
    };
    let frame = build_frame("src/a.rs", &state, 4, &version, &rows);
    assert_eq!(frame.header, "📜 src/a.rs │ 2 of 4 │ 📅 2024-05-06      ");
    assert_eq!(frame.commit_line, "🔗 01234567 │ a message                  ");
    assert_eq!(frame.separator, "─".repeat(40));
    assert_eq!(frame.footer.chars().count(), 60);
    assert_eq!(frame.body.len(), 6);
    assert_eq!(frame.body[0].index, 25);
    assert_eq!(frame.body[0].gutter, "│  26 │ ");
    assert_eq!(frame.body[5].index, 30);
    assert_eq!(
        frame.body.iter().map(|r| r.starts_block).collect::<Vec<_>>(),
        vec![true, false, false, false, true, false]
    );
    assert_eq!(frame.body[0].text, vec!["\u{1b}[38;2;1;2;3mtext"]);
}
