use garch::diff::{display_change, parse_diff_output, ChangeType, LineChange};

fn change(line_number: usize, change_type: ChangeType, content: &str) -> LineChange {
    LineChange { line_number, change_type, content: content.to_string() }
}

#[test]
fn one_hunk_with_two_additions_and_one_removal() {
    let diff = "\
commit 0123456789abcdef
Author: Jane Doe <jane@example.org>

    change things

diff --git a/a.txt b/a.txt
--- a/a.txt
+++ b/a.txt
@@ -1,3 +1,4 @@
 first
-second
+second changed
+inserted
 third
";
    let changes = parse_diff_output(diff);
    assert_eq!(
        changes,
        vec![
            change(2, ChangeType::Removed, "second"),
            change(2, ChangeType::Added, "second changed"),
            change(3, ChangeType::Added, "inserted"),
        ]
    );
    let added = changes.iter().filter(|c| c.change_type == ChangeType::Added).count();
    let removed = changes.iter().filter(|c| c.change_type == ChangeType::Removed).count();
    assert_eq!(added, 2);
    assert_eq!(removed, 1);
}

#[test]
fn removals_do_not_advance_the_line_number() {
    let diff = "@@ -10,4 +10,2 @@\n-a\n-b\n-c\n keep\n+d\n";
    assert_eq!(
        parse_diff_output(diff),
        vec![
            change(10, ChangeType::Removed, "a"),
            change(10, ChangeType::Removed, "b"),
            change(10, ChangeType::Removed, "c"),
            change(11, ChangeType::Added, "d"),
        ]
    );
}

#[test]
fn nothing_before_the_first_hunk_counts() {
    assert_eq!(parse_diff_output("+added\n-removed\n context\n"), vec![]);
    assert_eq!(parse_diff_output(""), vec![]);
    assert_eq!(parse_diff_output("--- a/f\n+++ b/f\n"), vec![]);
}

#[test]
fn file_headers_inside_a_hunk_are_no_changes() {
    let diff = "@@ -1 +1 @@\n--- a/f\n+++ b/f\n-x\n+y\n";
    assert_eq!(
        parse_diff_output(diff),
        vec![change(1, ChangeType::Removed, "x"), change(1, ChangeType::Added, "y")]
    );
}

#[test]
fn hunk_header_without_a_count() {
    let diff = "@@ -5 +7 @@ fn f(a, b)\n+x\n";
    assert_eq!(parse_diff_output(diff), vec![change(7, ChangeType::Added, "x")]);
}

#[test]
fn hunk_header_with_a_count_and_a_heading() {
    let diff = "@@ -5,2 +12,3 @@ fn f(a, b)\n x\n+y\n";
    assert_eq!(parse_diff_output(diff), vec![change(13, ChangeType::Added, "y")]);
}

#[test]
fn hunk_header_whose_start_is_no_number_starts_at_one() {
    let diff = "@@ -1,2 +x,3 @@\n+a\n";
    assert_eq!(parse_diff_output(diff), vec![change(1, ChangeType::Added, "a")]);
}

#[test]
fn hunk_header_without_a_new_range_keeps_the_counter() {
    let diff = "@@ -1,2 +3,1 @@\n+a\n@@\n+b\n@@ -9 +20\n+c\n";
    assert_eq!(
        parse_diff_output(diff),
        vec![
            change(3, ChangeType::Added, "a"),
            change(4, ChangeType::Added, "b"),
            change(5, ChangeType::Added, "c"),
        ]
    );
}

#[test]
fn a_second_hunk_sets_the_line_number_anew() {
    let diff = "@@ -1,2 +1,3 @@\n a\n+b\n c\n@@ -40,2 +41,2 @@\n-d\n+e\n f\n";
    assert_eq!(
        parse_diff_output(diff),
        vec![
            change(2, ChangeType::Added, "b"),
            change(41, ChangeType::Removed, "d"),
            change(41, ChangeType::Added, "e"),
        ]
    );
}

#[test]
fn the_next_commit_ends_the_diff() {
    let diff = "@@ -1 +1 @@\n+a\ncommit 1234\n@@ -1 +1 @@\n+b\n";
    assert_eq!(parse_diff_output(diff), vec![change(1, ChangeType::Added, "a")]);
    let diff = "@@ -1 +1 @@\n+a\ndiff --git a/x b/x\n@@ -1 +1 @@\n+b\n";
    assert_eq!(parse_diff_output(diff), vec![change(1, ChangeType::Added, "a")]);
}

#[test]
fn other_lines_inside_a_hunk_are_passed_over() {
    let diff = "@@ -1 +1 @@\n\\ No newline at end of file\n\n+a\n";
    assert_eq!(parse_diff_output(diff), vec![change(1, ChangeType::Added, "a")]);
}

#[test]
fn the_greatest_line_number_does_not_advance() {
    let diff = format!("@@ -1 +{} @@\n+a\n+b\n", usize::MAX);
    assert_eq!(
        parse_diff_output(&diff),
        vec![
            change(usize::MAX, ChangeType::Added, "a"),
            change(usize::MAX, ChangeType::Added, "b"),
        ]
    );
}

#[test]
fn changes_are_shown_with_their_mark() {
    assert_eq!(display_change(&change(1, ChangeType::Added, "new")), "│  + new");
    assert_eq!(display_change(&change(1, ChangeType::Removed, "old")), "│  - old");
    assert_eq!(display_change(&change(1, ChangeType::Modified, "")), "│  ~ ");
}
