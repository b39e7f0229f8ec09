//! Commit log records: one commit per line, as `hash|date|author|message`.

use vstd::prelude::*;
use crate::text::{
    chars_of, find_char, find_from, lemma_find_from_unique, lines_of, rows, split_lines, string_of,
};

verus! {

/// What a commit log tells of one commit.
#[derive(Debug, PartialEq, Eq)]
pub struct CommitInfo {
    pub hash: String,
    pub date: String,
    pub author: String,
    pub message: String,
}

/// A commit's fields as character sequences.
pub struct CommitRecord {
    pub hash: Seq<char>,
    pub date: Seq<char>,
    pub author: Seq<char>,
    pub message: Seq<char>,
}

impl View for CommitInfo {
    type V = CommitRecord;

    open spec fn view(&self) -> CommitRecord {
        CommitRecord {
            hash: self.hash@,
            date: self.date@,
            author: self.author@,
            message: self.message@,
        }
    }
}

/// The record that a log line holds. The first three `|` end the hash, the
/// date and the author; the message is all that follows the third, further
/// `|` included. A line with fewer than three `|` holds no record.
pub open spec fn parse_commit_spec(line: Seq<char>) -> Option<CommitRecord> {
    let first = find_from(line, '|', 0);
    let second = find_from(line, '|', first + 1);
    let third = find_from(line, '|', second + 1);
    if third < line.len() {
        Some(
            CommitRecord {
                hash: line.subrange(0, first),
                date: line.subrange(first + 1, second),
                author: line.subrange(second + 1, third),
                message: line.subrange(third + 1, line.len() as int),
            },
        )
    } else {
        None
    }
}

/// A hash, a date, an author and a message, joined by `|`.
pub open spec fn commit_line(record: CommitRecord) -> Seq<char> {
    record.hash + seq!['|'] + record.date + seq!['|'] + record.author + seq!['|'] + record.message
}

/// A line that joins four fields holds just these fields, provided that the
/// hash, the date and the author are free of `|`: every `|` of the message
/// stays in the message.
pub proof fn lemma_commit_line_keeps_message(record: CommitRecord)
    requires
        !record.hash.contains('|'),
        !record.date.contains('|'),
        !record.author.contains('|'),
    ensures
        parse_commit_spec(commit_line(record)) == Some(record),
{
    let line = commit_line(record);
    let first = record.hash.len() as int;
    let second = first + 1 + record.date.len();
    let third = second + 1 + record.author.len();
    lemma_find_from_unique(line, '|', 0, first);
    lemma_find_from_unique(line, '|', first + 1, second);
    lemma_find_from_unique(line, '|', second + 1, third);
    assert(line.subrange(0, first) == record.hash);
    assert(line.subrange(first + 1, second) == record.date);
    assert(line.subrange(second + 1, third) == record.author);
    assert(line.subrange(third + 1, line.len() as int) == record.message);
}

/// A line of three fields or fewer holds no record: where the text after
/// the second `|`, or after an earlier one, is free of `|`.
pub proof fn lemma_commit_line_of_three_fields(line: Seq<char>)
    requires
        ({
            let first = find_from(line, '|', 0);
            let second = find_from(line, '|', first + 1);
            forall|j: int| second < j < line.len() ==> line[j] != '|'
        }),
    ensures
        parse_commit_spec(line) is None,
{
    let first = find_from(line, '|', 0);
    let second = find_from(line, '|', first + 1);
    crate::text::lemma_find_from(line, '|', 0);
    if first < line.len() {
        crate::text::lemma_find_from(line, '|', first + 1);
        if second < line.len() {
            lemma_find_from_unique(line, '|', second + 1, line.len() as int);
        }
    }
}

/// The records of the lines that hold one, in the order of the lines.
pub open spec fn commits_of_lines(lines: Seq<Seq<char>>) -> Seq<CommitRecord>
    decreases lines.len(),
{
    if lines.len() == 0 {
        Seq::empty()
    } else {
        match parse_commit_spec(lines.last()) {
            Some(record) => commits_of_lines(lines.drop_last()).push(record),
            None => commits_of_lines(lines.drop_last()),
        }
    }
}

/// The views of a sequence of commits.
pub open spec fn commit_records(commits: Seq<CommitInfo>) -> Seq<CommitRecord> {
    Seq::new(commits.len(), |i: int| commits[i]@)
}

/// Parses one log line that is held as characters.
pub fn parse_commit_chars(line: &Vec<char>) -> (commit: Option<CommitInfo>)
    ensures
        match commit {
            Some(c) => parse_commit_spec(line@) == Some(c@),
            None => parse_commit_spec(line@) is None,
        },
{
    let len = line.len();
    let first = find_char(line, '|', 0);
    if first >= len {
        return None;
    }
    let second = find_char(line, '|', first + 1);
    if second >= len {
        return None;
    }
    let third = find_char(line, '|', second + 1);
    if third >= len {
        return None;
    }
    Some(
        CommitInfo {
            hash: string_of(line, 0, first),
            date: string_of(line, first + 1, second),
            author: string_of(line, second + 1, third),
            message: string_of(line, third + 1, len),
        },
    )
}

/// Parses one line of a commit log.
pub fn parse_commit_line(line: &str) -> (commit: Option<CommitInfo>)
    ensures
        match commit {
            Some(c) => parse_commit_spec(line@) == Some(c@),
            None => parse_commit_spec(line@) is None,
        },
{
    let chars = chars_of(line);
    parse_commit_chars(&chars)
}

/// Parses a commit log: the commits of its well-formed lines, in the order
/// of the log. Other lines are passed over.
pub fn parse_commit_log(log: &str) -> (commits: Vec<CommitInfo>)
    ensures
        commit_records(commits@) == commits_of_lines(lines_of(log@)),
{
    let text = chars_of(log);
    let lines = split_lines(&text);
    let mut commits: Vec<CommitInfo> = Vec::new();
    let mut i: usize = 0;
    while i < lines.len()
        invariant
            i <= lines.len(),
            commit_records(commits@) == commits_of_lines(rows(lines@).take(i as int)),
        decreases lines.len() - i,
    {
        proof {
            assert(rows(lines@).take(i + 1).drop_last() == rows(lines@).take(i as int));
        }
        match parse_commit_chars(&lines[i]) {
            Some(commit) => {
                commits.push(commit);
            },
            None => {},
        }
        i += 1;
    }
    proof {
        assert(rows(lines@).take(lines.len() as int) == rows(lines@));
    }
    commits
}

} // verus!
