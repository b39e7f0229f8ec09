use garch::commit::{parse_commit_line, parse_commit_log, CommitInfo};

#[test]
fn commit_line_rejoins_trailing_fields() {
    let commit = parse_commit_line("h|2024-01-01|Jane Doe|fix|the|bug").unwrap();
    assert_eq!(commit.hash, "h");
    assert_eq!(commit.date, "2024-01-01");
    assert_eq!(commit.author, "Jane Doe");
    assert_eq!(commit.message, "fix|the|bug");
}

#[test]
fn commit_line_of_three_fields_is_dropped() {
    assert_eq!(parse_commit_line("h|2024-01-01|Jane Doe"), None);
    assert_eq!(parse_commit_line("no delimiter at all"), None);
    assert_eq!(parse_commit_line(""), None);
    assert_eq!(parse_commit_line("a|b"), None);
}

#[test]
fn commit_line_of_four_fields() {
    let commit = parse_commit_line("abc123|2023-05-06|Cher|initial commit").unwrap();
    assert_eq!(
        commit,
        CommitInfo {
            hash: "abc123".to_string(),
            date: "2023-05-06".to_string(),
            author: "Cher".to_string(),
            message: "initial commit".to_string(),
        }
    );
}

#[test]
fn commit_line_with_empty_fields() {
    let commit = parse_commit_line("|||").unwrap();
    assert_eq!(commit.hash, "");
    assert_eq!(commit.date, "");
    assert_eq!(commit.author, "");
    assert_eq!(commit.message, "");
    let commit = parse_commit_line("a||c|").unwrap();
    assert_eq!(commit.hash, "a");
    assert_eq!(commit.date, "");
    assert_eq!(commit.author, "c");
    assert_eq!(commit.message, "");
}

#[test]
fn commit_line_keeps_characters_outside_ascii() {
    let commit = parse_commit_line("ff00|2024-02-29|Zoë Müller|straße │ naïve").unwrap();
    assert_eq!(commit.author, "Zoë Müller");
    assert_eq!(commit.message, "straße │ naïve");
}

#[test]
fn commit_log_keeps_order_and_drops_malformed_lines() {
    let log = "c3|2024-03-01|Ann Lee|third\nnot a record\nc2|2024-02-01|Bob|second|part\n\nc1|2024-01-01|Ann Lee|first";
    let commits = parse_commit_log(log);
    assert_eq!(commits.len(), 3);
    assert_eq!(commits[0].hash, "c3");
    assert_eq!(commits[1].hash, "c2");
    assert_eq!(commits[1].message, "second|part");
    assert_eq!(commits[2].hash, "c1");
    assert_eq!(commits[2].message, "first");
}

#[test]
fn commit_log_empty_and_line_endings() {
    assert_eq!(parse_commit_log("").len(), 0);
    assert_eq!(parse_commit_log("\n\n").len(), 0);
    let commits = parse_commit_log("a|b|c|d\r\ne|f|g|h\n");
    assert_eq!(commits.len(), 2);
    assert_eq!(commits[0].message, "d");
    assert_eq!(commits[1].message, "h");
    let commits = parse_commit_log("a|b|c|d\r");
    assert_eq!(commits.len(), 1);
    assert_eq!(commits[0].message, "d\r");
}
