//! The window of lines that is shown of a version, and the line that stays
//! in focus when the version changes.

use vstd::prelude::*;
use crate::blame::BlameLine;
use crate::versions::FileVersion;

verus! {

/// The greatest line number among `lines`; 0 when there are none.
pub open spec fn max_line_number(lines: Seq<BlameLine>) -> usize
    decreases lines.len(),
{
    if lines.len() == 0 {
        0
    } else {
        let rest = max_line_number(lines.drop_last());
        if lines.last().line_number > rest {
            lines.last().line_number
        } else {
            rest
        }
    }
}

/// No line has a number above `max_line_number`.
pub proof fn lemma_max_line_number(lines: Seq<BlameLine>, i: int)
    requires
        0 <= i < lines.len(),
    ensures
        lines[i].line_number <= max_line_number(lines),
    decreases lines.len(),
{
    if i < lines.len() - 1 {
        lemma_max_line_number(lines.drop_last(), i);
    }
}

/// The last line of a window that was asked up to line `end`: `end`, or the
/// version's greatest line number where that is less.
pub open spec fn window_end(lines: Seq<BlameLine>, end: usize) -> usize {
    if end > max_line_number(lines) {
        max_line_number(lines)
    } else {
        end
    }
}

/// The lines whose number lies from `start` to `end`, both included.
pub open spec fn in_window(start: usize, end: usize) -> spec_fn(BlameLine) -> bool {
    |line: BlameLine| start <= line.line_number <= end
}

/// The lines of a version that a window from `start` to `end` shows, in the
/// version's order.
pub open spec fn window_spec(lines: Seq<BlameLine>, start: usize, end: usize) -> Seq<BlameLine> {
    lines.filter(in_window(start, window_end(lines, end)))
}

/// The lines that a sequence of references points to.
pub open spec fn referents(rows: Seq<&BlameLine>) -> Seq<BlameLine> {
    Seq::new(rows.len(), |i: int| *rows[i])
}

/// The line numbers of a sequence of rows.
pub open spec fn line_numbers(rows: Seq<&BlameLine>) -> Seq<usize> {
    Seq::new(rows.len(), |i: int| rows[i].line_number)
}

/// Cutting the window at the version's last line loses no line: the window
/// holds every line from `start` to `end`.
pub proof fn lemma_window_is_unclamped(lines: Seq<BlameLine>, start: usize, end: usize)
    ensures
        window_spec(lines, start, end) == lines.filter(in_window(start, end)),
{
    let clamped = in_window(start, window_end(lines, end));
    let asked = in_window(start, end);
    assert forall|i: int| 0 <= i < lines.len() implies clamped(lines[i]) == asked(lines[i]) by {
        lemma_max_line_number(lines, i);
    }
    lemma_filter_agrees(lines, clamped, asked);
}

/// Two predicates that agree on every element filter a sequence alike.
pub proof fn lemma_filter_agrees(
    lines: Seq<BlameLine>,
    p: spec_fn(BlameLine) -> bool,
    q: spec_fn(BlameLine) -> bool,
)
    requires
        forall|i: int| 0 <= i < lines.len() ==> p(lines[i]) == q(lines[i]),
    ensures
        lines.filter(p) == lines.filter(q),
    decreases lines.len(),
{
    reveal(Seq::filter);
    if lines.len() > 0 {
        assert forall|i: int| 0 <= i < lines.drop_last().len() implies p(lines.drop_last()[i])
            == q(lines.drop_last()[i]) by {}
        lemma_filter_agrees(lines.drop_last(), p, q);
    }
}

/// A window never holds more rows than the version has lines, and none with
/// a number above the version's greatest: a window asked far past the end of
/// a version of 42 lines holds 42 rows at most.
pub proof fn lemma_window_within_version(lines: Seq<BlameLine>, start: usize, end: usize)
    ensures
        window_spec(lines, start, end).len() <= lines.len(),
        forall|i: int|
            0 <= i < window_spec(lines, start, end).len() ==> start <= (
            #[trigger] window_spec(lines, start, end)[i]).line_number <= max_line_number(lines),
{
    let keep = in_window(start, window_end(lines, end));
    lines.lemma_filter_len(keep);
    assert forall|i: int| 0 <= i < window_spec(lines, start, end).len() implies start <= (
    #[trigger] window_spec(lines, start, end)[i]).line_number <= max_line_number(lines) by {
        lines.lemma_filter_pred(keep, i);
    }
}

/// A window that covers every line number of a version holds the version's
/// lines, all of them.
pub proof fn lemma_window_of_whole_version(lines: Seq<BlameLine>, start: usize, end: usize)
    requires
        forall|i: int| 0 <= i < lines.len() ==> start <= (#[trigger] lines[i]).line_number <= end,
    ensures
        window_spec(lines, start, end) == lines,
    decreases lines.len(),
{
    lemma_window_is_unclamped(lines, start, end);
    lemma_filter_keeps_all(lines, in_window(start, end));
}

/// A predicate that holds of every element filters nothing out.
pub proof fn lemma_filter_keeps_all(lines: Seq<BlameLine>, p: spec_fn(BlameLine) -> bool)
    requires
        forall|i: int| 0 <= i < lines.len() ==> p(lines[i]),
    ensures
        lines.filter(p) == lines,
    decreases lines.len(),
{
    reveal(Seq::filter);
    if lines.len() > 0 {
        assert forall|i: int| 0 <= i < lines.drop_last().len() implies p(lines.drop_last()[i]) by {}
        lemma_filter_keeps_all(lines.drop_last(), p);
    }
}

/// The greatest line number of a version.
pub fn last_line_number(lines: &Vec<BlameLine>) -> (max: usize)
    ensures
        max == max_line_number(lines@),
{
    let mut max: usize = 0;
    let mut i: usize = 0;
    while i < lines.len()
        invariant
            i <= lines.len(),
            max == max_line_number(lines@.take(i as int)),
        decreases lines.len() - i,
    {
        proof {
            assert(lines@.take(i + 1).drop_last() == lines@.take(i as int));
        }
        if lines[i].line_number > max {
            max = lines[i].line_number;
        }
        i += 1;
    }
    proof {
        assert(lines@.take(lines.len() as int) == lines@);
    }
    max
}

/// The rows of a version that a window from `start_line` to `end_line` shows.
/// The window ends with the version where `end_line` lies beyond it, and is
/// empty where the version ends before `start_line`.
pub fn filter_lines<'a>(
    version: &'a FileVersion,
    start_line: usize,
    end_line: usize,
) -> (rows: Vec<&'a BlameLine>)
    ensures
        referents(rows@) == window_spec(version.blame_lines@, start_line, end_line),
{
    let lines = &version.blame_lines;
    let max = last_line_number(lines);
    let end: usize = if end_line > max {
        max
    } else {
        end_line
    };
    let ghost keep = in_window(start_line, end);
    let mut rows: Vec<&'a BlameLine> = Vec::new();
    let mut i: usize = 0;
    proof {
        reveal(Seq::filter);
    }
    while i < lines.len()
        invariant
            i <= lines.len(),
            keep == in_window(start_line, end),
            referents(rows@) == lines@.take(i as int).filter(keep),
        decreases lines.len() - i,
    {
        proof {
            reveal(Seq::filter);
            assert(lines@.take(i + 1).drop_last() == lines@.take(i as int));
        }
        let line = &lines[i];
        if line.line_number >= start_line && line.line_number <= end {
            rows.push(line);
        }
        i += 1;
    }
    proof {
        assert(lines@.take(lines.len() as int) == lines@);
    }
    rows
}

/// How far apart two line numbers are.
pub open spec fn distance(a: usize, b: usize) -> int {
    if a > b {
        a - b
    } else {
        b - a
    }
}

/// Whether row `at` is the one that is closest to line `target`: no row is
/// closer, and every row before it is farther.
pub open spec fn is_closest(numbers: Seq<usize>, target: usize, at: int) -> bool {
    &&& 0 <= at < numbers.len()
    &&& forall|j: int|
        0 <= j < numbers.len() ==> distance(numbers[at], target) <= distance(
            #[trigger] numbers[j],
            target,
        )
    &&& forall|j: int|
        0 <= j < at ==> distance(numbers[at], target) < distance(#[trigger] numbers[j], target)
}

/// At most one row is the closest.
pub proof fn lemma_closest_is_unique(numbers: Seq<usize>, target: usize, a: int, b: int)
    requires
        is_closest(numbers, target, a),
        is_closest(numbers, target, b),
    ensures
        a == b,
{
    if a < b {
        assert(distance(numbers[b], target) < distance(numbers[a], target));
    } else if b < a {
        assert(distance(numbers[a], target) < distance(numbers[b], target));
    }
}

/// Where some row has the line number `target` itself, the closest row is
/// the first such row.
pub proof fn lemma_exact_match_is_closest(numbers: Seq<usize>, target: usize, at: int, exact: int)
    requires
        is_closest(numbers, target, at),
        0 <= exact < numbers.len(),
        numbers[exact] == target,
    ensures
        numbers[at] == target,
        at <= exact,
{
}

/// The row that is closest to line `target`, if there is any row: the row
/// with that line number, else the one whose number differs least from it,
/// and of several such rows the first.
pub fn find_closest_line_in_filtered(
    filtered_lines: &[&BlameLine],
    target_line: usize,
) -> (found: Option<usize>)
    ensures
        match found {
            Some(at) => is_closest(line_numbers(filtered_lines@), target_line, at as int),
            None => filtered_lines@.len() == 0,
        },
{
    if filtered_lines.len() == 0 {
        return None;
    }
    let ghost numbers = line_numbers(filtered_lines@);
    let mut closest: usize = 0;
    let first = filtered_lines[0].line_number;
    let mut least: usize = if first > target_line {
        first - target_line
    } else {
        target_line - first
    };
    let mut i: usize = 1;
    while i < filtered_lines.len()
        invariant
            1 <= i <= filtered_lines.len(),
            numbers == line_numbers(filtered_lines@),
            closest < i,
            least == distance(numbers[closest as int], target_line),
            forall|j: int|
                0 <= j < i ==> least <= distance(#[trigger] numbers[j], target_line),
            forall|j: int|
                0 <= j < closest ==> least < distance(#[trigger] numbers[j], target_line),
        decreases filtered_lines.len() - i,
    {
        let number = filtered_lines[i].line_number;
        let apart: usize = if number > target_line {
            number - target_line
        } else {
            target_line - number
        };
        if apart < least {
            least = apart;
            closest = i;
        }
        i += 1;
    }
    Some(closest)
}

/// The row in focus: the last row of the upper half of the view, which is
/// the middle of the view, or the last row there is where the rows end
/// before it; the first row in view where the upper half holds one row or
/// none.
pub open spec fn focus_row(total_rows: int, scroll_offset: int, content_height: int) -> int {
    let half_end = if scroll_offset + content_height / 2 < total_rows {
        scroll_offset + content_height / 2
    } else {
        total_rows
    };
    if half_end - 1 > scroll_offset {
        half_end - 1
    } else {
        scroll_offset
    }
}

/// The line number to keep in focus when the version changes: that of the
/// row in focus; of the first row where the view has scrolled past the last;
/// 1 where there are no rows.
pub open spec fn target_line_spec(
    numbers: Seq<usize>,
    scroll_offset: usize,
    content_height: usize,
) -> usize {
    let focus = focus_row(numbers.len() as int, scroll_offset as int, content_height as int);
    if focus < numbers.len() {
        numbers[focus]
    } else if numbers.len() > 0 {
        numbers[0]
    } else {
        1
    }
}

/// The line number to keep in focus when the version changes.
pub fn get_current_target_line(
    filtered_lines: &[&BlameLine],
    scroll_offset: usize,
    content_height: usize,
) -> (target: usize)
    ensures
        target == target_line_spec(line_numbers(filtered_lines@), scroll_offset, content_height),
{
    let total = filtered_lines.len();
    let half = content_height / 2;
    let half_end: usize = if scroll_offset < total && half < total - scroll_offset {
        scroll_offset + half
    } else {
        total
    };
    let focus: usize = if half_end > 0 && half_end - 1 > scroll_offset {
        half_end - 1
    } else {
        scroll_offset
    };
    if focus < total {
        filtered_lines[focus].line_number
    } else if total > 0 {
        filtered_lines[0].line_number
    } else {
        1
    }
}

/// The greatest scroll offset: the one that brings the last row to the
/// bottom of the view; 0 where all rows fit.
pub open spec fn max_scroll(total_rows: int, content_height: int) -> int {
    if total_rows > content_height {
        total_rows - content_height
    } else {
        0
    }
}

/// An offset brought into the range from 0 to the greatest scroll offset.
pub open spec fn clamp_scroll(offset: int, total_rows: int, content_height: int) -> int {
    if offset < 0 {
        0
    } else if offset > max_scroll(total_rows, content_height) {
        max_scroll(total_rows, content_height)
    } else {
        offset
    }
}

/// The scroll offset that puts row `row` in the middle of the view, as far
/// as the ends of the rows allow.
pub open spec fn centered_scroll(row: int, total_rows: int, content_height: int) -> int {
    clamp_scroll(row - content_height / 2, total_rows, content_height)
}

/// The greatest scroll offset for `total_rows` rows.
pub fn last_scroll(total_rows: usize, content_height: usize) -> (offset: usize)
    ensures
        offset == max_scroll(total_rows as int, content_height as int),
{
    if total_rows > content_height {
        total_rows - content_height
    } else {
        0
    }
}

/// The scroll offset that centres row `row`.
pub fn center_on(row: usize, total_rows: usize, content_height: usize) -> (offset: usize)
    ensures
        offset == centered_scroll(row as int, total_rows as int, content_height as int),
{
    let half = content_height / 2;
    let wanted: usize = if row > half {
        row - half
    } else {
        0
    };
    let max = last_scroll(total_rows, content_height);
    if wanted > max {
        max
    } else {
        wanted
    }
}

/// The row that is closest to line `target`, where there are rows.
pub open spec fn closest_row(numbers: Seq<usize>, target: usize) -> int {
    choose|at: int| is_closest(numbers, target, at)
}

/// Among rows, one is the closest.
pub proof fn lemma_closest_row(numbers: Seq<usize>, target: usize)
    requires
        numbers.len() > 0,
    ensures
        is_closest(numbers, target, closest_row(numbers, target)),
    decreases numbers.len(),
{
    if numbers.len() == 1 {
        assert(is_closest(numbers, target, 0));
    } else {
        let rest = numbers.drop_last();
        let last = numbers.len() - 1;
        lemma_closest_row(rest, target);
        let at = closest_row(rest, target);
        assert forall|j: int| 0 <= j < last implies distance(numbers[at], target) <= distance(
            #[trigger] numbers[j],
            target,
        ) by {
            assert(rest[j] == numbers[j]);
        }
        assert forall|j: int| 0 <= j < at implies distance(numbers[at], target) < distance(
            #[trigger] numbers[j],
            target,
        ) by {
            assert(rest[j] == numbers[j]);
        }
        if distance(numbers[last], target) < distance(numbers[at], target) {
            assert(is_closest(numbers, target, last));
        } else {
            assert(is_closest(numbers, target, at));
        }
    }
}

/// The scroll offset after a version change that keeps `target` in focus:
/// the one that centres the row closest to it. Without rows the offset stays.
pub open spec fn anchored_scroll(
    numbers: Seq<usize>,
    target: usize,
    scroll_offset: usize,
    content_height: usize,
) -> int {
    if numbers.len() == 0 {
        scroll_offset as int
    } else {
        centered_scroll(closest_row(numbers, target), numbers.len() as int, content_height as int)
    }
}

/// Finds the scroll offset that keeps line `target` in focus among the rows
/// of a new version.
pub fn resolve_anchor(
    filtered_lines: &[&BlameLine],
    target: usize,
    scroll_offset: usize,
    content_height: usize,
) -> (resolved: usize)
    ensures
        resolved == anchored_scroll(
            line_numbers(filtered_lines@),
            target,
            scroll_offset,
            content_height,
        ),
{
    match find_closest_line_in_filtered(filtered_lines, target) {
        Some(at) => {
            proof {
                let numbers = line_numbers(filtered_lines@);
                lemma_closest_is_unique(numbers, target, at as int, closest_row(numbers, target));
            }
            center_on(at, filtered_lines.len(), content_height)
        },
        None => scroll_offset,
    }
}

/// Where there are rows, the view that keeps a line in focus lies within
/// them, whatever the line and wherever the view was before.
pub proof fn lemma_anchored_view_in_range(
    numbers: Seq<usize>,
    target: usize,
    scroll_offset: usize,
    content_height: usize,
)
    requires
        numbers.len() > 0,
    ensures
        0 <= anchored_scroll(numbers, target, scroll_offset, content_height) <= max_scroll(
            numbers.len() as int,
            content_height as int,
        ),
{
}

} // verus!
