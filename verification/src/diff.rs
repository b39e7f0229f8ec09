//! Unified diffs: the lines that one commit added and removed.

use vstd::prelude::*;
use crate::number::{parse_usize, parse_usize_spec};
use crate::text::{
    chars_of, find_char, find_from, has_prefix, lines_of, push_str, rows, split_lines, starts_with,
    string_from, string_of,
};

verus! {

/// How a commit changed a line.
#[derive(Debug, Clone, Copy, PartialEq, Eq)]
pub enum ChangeType {
    Added,
    Removed,
    Modified,
}

/// One changed line of a diff.
#[derive(Debug, PartialEq, Eq)]
pub struct LineChange {
    /// For an added line, its number in the new file; for a removed line,
    /// the number in the new file of the line that follows the gap.
    pub line_number: usize,
    pub change_type: ChangeType,
    /// The line without its `+` or `-`.
    pub content: String,
}

/// A changed line's fields as plain values.
pub struct ChangeRecord {
    pub line_number: usize,
    pub change_type: ChangeType,
    pub content: Seq<char>,
}

impl View for LineChange {
    type V = ChangeRecord;

    open spec fn view(&self) -> ChangeRecord {
        ChangeRecord {
            line_number: self.line_number,
            change_type: self.change_type,
            content: self.content@,
        }
    }
}

/// The views of a sequence of changes.
pub open spec fn change_records(changes: Seq<LineChange>) -> Seq<ChangeRecord> {
    Seq::new(changes.len(), |i: int| changes[i]@)
}

/// A line that begins a hunk.
pub open spec fn is_hunk_header(line: Seq<char>) -> bool {
    starts_with(line, "@@"@)
}

/// A line that begins another commit or another file's diff.
pub open spec fn is_boundary(line: Seq<char>) -> bool {
    starts_with(line, "commit "@) || starts_with(line, "diff --git"@)
}

/// A line that the commit added: `+`, but not the `+++` of a file header.
pub open spec fn is_addition(line: Seq<char>) -> bool {
    starts_with(line, "+"@) && !starts_with(line, "+++"@)
}

/// A line that the commit removed: `-`, but not the `---` of a file header.
pub open spec fn is_removal(line: Seq<char>) -> bool {
    starts_with(line, "-"@) && !starts_with(line, "---"@)
}

/// A line that the commit left as it was.
pub open spec fn is_context(line: Seq<char>) -> bool {
    starts_with(line, " "@)
}

/// Where the number that begins at `from` ends: at the first comma or space.
pub open spec fn number_end(line: Seq<char>, from: int) -> int {
    let comma = find_from(line, ',', from);
    let space = find_from(line, ' ', from);
    if comma <= space {
        comma
    } else {
        space
    }
}

/// The new file's line number at which a hunk begins: the number between the
/// header's first `+` and the comma or space that follows it; 1 where that is
/// no number. A header without such a `+` leaves the number as it was.
pub open spec fn hunk_start(line: Seq<char>, current: usize) -> usize {
    let plus = find_from(line, '+', 0);
    let end = number_end(line, plus + 1);
    if end >= line.len() {
        current
    } else {
        match parse_usize_spec(line.subrange(plus + 1, end)) {
            Some(n) => n,
            None => 1,
        }
    }
}

/// The line number after `n`; the greatest line number is its own successor.
pub open spec fn next_line_number(n: usize) -> usize {
    if n < usize::MAX {
        (n + 1) as usize
    } else {
        n
    }
}

/// The changes of a diff from line `from` on, where `in_hunk` says whether a
/// hunk header has been seen and `counter` is the new file's line number that
/// the next line would have. Nothing before the first hunk header counts. An
/// added line is a change at the counter and advances it; a removed line is a
/// change at the counter and leaves it; a context line only advances it. A
/// boundary line after a hunk header ends the diff.
pub open spec fn changes_from(
    lines: Seq<Seq<char>>,
    from: int,
    in_hunk: bool,
    counter: usize,
) -> Seq<ChangeRecord>
    decreases lines.len() - from,
{
    if from < 0 || from >= lines.len() {
        Seq::empty()
    } else {
        let line = lines[from];
        if is_hunk_header(line) {
            changes_from(lines, from + 1, true, hunk_start(line, counter))
        } else if !in_hunk {
            changes_from(lines, from + 1, false, counter)
        } else if is_boundary(line) {
            Seq::empty()
        } else if is_addition(line) {
            seq![
                ChangeRecord {
                    line_number: counter,
                    change_type: ChangeType::Added,
                    content: line.skip(1),
                },
            ] + changes_from(lines, from + 1, true, next_line_number(counter))
        } else if is_removal(line) {
            seq![
                ChangeRecord {
                    line_number: counter,
                    change_type: ChangeType::Removed,
                    content: line.skip(1),
                },
            ] + changes_from(lines, from + 1, true, counter)
        } else if is_context(line) {
            changes_from(lines, from + 1, true, next_line_number(counter))
        } else {
            changes_from(lines, from + 1, true, counter)
        }
    }
}

/// Inside a hunk, a removed line is reported at the line number that the
/// next line of the new file has, and the lines after it are numbered as if
/// it were not there.
pub proof fn lemma_removal_keeps_line_number(lines: Seq<Seq<char>>, at: int, counter: usize)
    requires
        0 <= at < lines.len(),
        is_removal(lines[at]),
    ensures
        changes_from(lines, at, true, counter) == seq![
            ChangeRecord {
                line_number: counter,
                change_type: ChangeType::Removed,
                content: lines[at].skip(1),
            },
        ] + changes_from(lines, at + 1, true, counter),
{
    lemma_marks_differ(lines[at]);
}

/// Inside a hunk, an added line is reported at the line number that it has
/// in the new file, and the line after it has the next number.
pub proof fn lemma_addition_advances_line_number(lines: Seq<Seq<char>>, at: int, counter: usize)
    requires
        0 <= at < lines.len(),
        is_addition(lines[at]),
    ensures
        changes_from(lines, at, true, counter) == seq![
            ChangeRecord {
                line_number: counter,
                change_type: ChangeType::Added,
                content: lines[at].skip(1),
            },
        ] + changes_from(lines, at + 1, true, next_line_number(counter)),
{
    lemma_marks_differ(lines[at]);
}

/// A line is of one kind at most: the marks that tell the kinds apart begin
/// with different characters.
pub proof fn lemma_marks_differ(line: Seq<char>)
    ensures
        is_addition(line) ==> !is_hunk_header(line) && !is_boundary(line) && !is_removal(line)
            && !is_context(line),
        is_removal(line) ==> !is_hunk_header(line) && !is_boundary(line) && !is_addition(line)
            && !is_context(line),
        is_context(line) ==> !is_hunk_header(line) && !is_boundary(line),
{
    reveal_strlit("@@");
    reveal_strlit("commit ");
    reveal_strlit("diff --git");
    reveal_strlit("+");
    reveal_strlit("-");
    reveal_strlit(" ");
    if line.len() >= 1 {
        assert(line.take(1)[0] == line[0]);
    }
}

/// The changes that a unified diff lists.
pub open spec fn diff_spec(diff: Seq<char>) -> Seq<ChangeRecord> {
    changes_from(lines_of(diff), 0, false, 0)
}

/// Reads the new file's first line number from a hunk header.
fn read_hunk_start(line: &Vec<char>, current: usize) -> (start: usize)
    ensures
        start == hunk_start(line@, current),
{
    let plus = find_char(line, '+', 0);
    if plus >= line.len() {
        return current;
    }
    let comma = find_char(line, ',', plus + 1);
    let space = find_char(line, ' ', plus + 1);
    let end: usize = if comma <= space {
        comma
    } else {
        space
    };
    if end >= line.len() {
        current
    } else {
        match parse_usize(line, plus + 1, end) {
            Some(n) => n,
            None => 1,
        }
    }
}

/// Parses a unified diff into the lines it adds and removes.
pub fn parse_diff_output(diff_text: &str) -> (changes: Vec<LineChange>)
    ensures
        change_records(changes@) == diff_spec(diff_text@),
{
    let text = chars_of(diff_text);
    let lines = split_lines(&text);
    let hunk_key = chars_of("@@");
    let commit_key = chars_of("commit ");
    let diff_key = chars_of("diff --git");
    let plus_key = chars_of("+");
    let plus_header = chars_of("+++");
    let minus_key = chars_of("-");
    let minus_header = chars_of("---");
    let space_key = chars_of(" ");
    let ghost all = rows(lines@);
    let mut changes: Vec<LineChange> = Vec::new();
    let mut in_hunk: bool = false;
    let mut counter: usize = 0;
    let mut i: usize = 0;
    while i < lines.len()
        invariant
            i <= lines.len(),
            all == rows(lines@),
            all == lines_of(diff_text@),
            hunk_key@ == "@@"@,
            commit_key@ == "commit "@,
            diff_key@ == "diff --git"@,
            plus_key@ == "+"@,
            plus_header@ == "+++"@,
            minus_key@ == "-"@,
            minus_header@ == "---"@,
            space_key@ == " "@,
            changes_from(all, 0, false, 0) == change_records(changes@) + changes_from(
                all,
                i as int,
                in_hunk,
                counter,
            ),
        decreases lines.len() - i,
    {
        let line = &lines[i];
        if has_prefix(line, &hunk_key) {
            in_hunk = true;
            counter = read_hunk_start(line, counter);
        } else if !in_hunk {
        } else if has_prefix(line, &commit_key) || has_prefix(line, &diff_key) {
            return changes;
        } else if has_prefix(line, &plus_key) && !has_prefix(line, &plus_header) {
            proof {
                reveal_strlit("+");
            }
            let change = LineChange {
                line_number: counter,
                change_type: ChangeType::Added,
                content: string_of(line, 1, line.len()),
            };
            changes.push(change);
            counter = if counter < usize::MAX {
                counter + 1
            } else {
                counter
            };
        } else if has_prefix(line, &minus_key) && !has_prefix(line, &minus_header) {
            proof {
                reveal_strlit("-");
            }
            let change = LineChange {
                line_number: counter,
                change_type: ChangeType::Removed,
                content: string_of(line, 1, line.len()),
            };
            changes.push(change);
        } else if has_prefix(line, &space_key) {
            counter = if counter < usize::MAX {
                counter + 1
            } else {
                counter
            };
        }
        i += 1;
    }
    changes
}

/// The mark that a report shows before a change of each kind.
pub open spec fn change_mark(kind: ChangeType) -> Seq<char> {
    match kind {
        ChangeType::Added => "│  +"@,
        ChangeType::Removed => "│  -"@,
        ChangeType::Modified => "│  ~"@,
    }
}

/// The line that a report shows for a change: its mark, a space, its content.
pub fn display_change(change: &LineChange) -> (line: String)
    ensures
        line@ == change_mark(change.change_type) + seq![' '] + change.content@,
{
    let mark = match change.change_type {
        ChangeType::Added => "│  +",
        ChangeType::Removed => "│  -",
        ChangeType::Modified => "│  ~",
    };
    let mut out = chars_of(mark);
    out.push(' ');
    push_str(&mut out, change.content.as_str());
    string_from(&out)
}

} // verus!
