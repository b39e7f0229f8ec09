//! What the viewer draws: the header, the rows in view and their text, cut
//! or wrapped to the width of the terminal.

use vstd::prelude::*;
use crate::blame::BlameLine;
use crate::number::{decimal_digits, pad_left, push_decimal};
use crate::palette::{author_color, get_author_color, AuthorColor};
use crate::text::{chars_of, find_char, find_from, push_range, push_str, string_from, string_of};
use crate::versions::FileVersion;
use crate::viewer::{content_height_spec, content_width_spec, ViewerState};

verus! {

/// `text`, or where it is longer than `width`, its beginning and three dots,
/// `width` characters in all. Under a width of three only the dots are left.
pub open spec fn truncate_spec(text: Seq<char>, width: int) -> Seq<char> {
    if text.len() <= width {
        text
    } else if width > 3 {
        text.take(width - 3) + "..."@
    } else {
        "..."@
    }
}

/// `text` followed by as many spaces as bring it to `width` characters.
pub open spec fn pad_right_spec(text: Seq<char>, width: int) -> Seq<char> {
    if text.len() >= width {
        text
    } else {
        text + Seq::new((width - text.len()) as nat, |i: int| ' ')
    }
}

/// Cuts `text` to `width` characters, marking the cut with three dots.
pub fn truncate_chars(text: &Vec<char>, width: usize) -> (cut: Vec<char>)
    ensures
        cut@ == truncate_spec(text@, width as int),
{
    let mut cut: Vec<char> = Vec::new();
    if text.len() <= width {
        push_range(&mut cut, text, 0, text.len());
    } else {
        if width > 3 {
            push_range(&mut cut, text, 0, width - 3);
        }
        push_str(&mut cut, "...");
    }
    cut
}

/// Fills `text` with spaces up to `width` characters.
pub fn pad_right(text: &mut Vec<char>, width: usize)
    ensures
        final(text)@ == pad_right_spec(old(text)@, width as int),
{
    let ghost start = text@;
    if text.len() >= width {
        return ;
    }
    while text.len() < width
        invariant
            start.len() <= text.len() <= width,
            start == old(text)@,
            text@ == start + Seq::new((text.len() - start.len()) as nat, |i: int| ' '),
        decreases width - text.len(),
    {
        text.push(' ');
    }
}

/// The title row: the file, which version of how many is on show, and the
/// version's date.
pub open spec fn header_spec(
    file_path: Seq<char>,
    index: usize,
    count: usize,
    date: Seq<char>,
) -> Seq<char> {
    "📜 "@ + file_path + " │ "@ + decimal_digits((index + 1) as nat) + " of "@ + decimal_digits(
        count as nat,
    ) + " │ 📅 "@ + date
}

/// The first eight characters of a commit's id; the whole id where it has
/// no more.
pub open spec fn short_id(hash: Seq<char>) -> Seq<char> {
    if hash.len() > 8 {
        hash.take(8)
    } else {
        hash
    }
}

/// The commit row: the short id and the message.
pub open spec fn commit_line_spec(hash: Seq<char>, message: Seq<char>) -> Seq<char> {
    "🔗 "@ + short_id(hash) + " │ "@ + message
}

/// The rule below the header.
pub open spec fn separator_spec(width: int) -> Seq<char> {
    Seq::new(width as nat, |i: int| '─')
}

/// The hints on the keys, below the body.
pub open spec fn footer_spec() -> Seq<char> {
    "← Older    Newer → │ ↑ ↓ : Scroll │ Mouse: Scroll │ q : Quit"@
}

/// The gutter of a row: the line number, set to the right in three columns,
/// between bars.
pub open spec fn gutter_spec(line_number: usize) -> Seq<char> {
    "│ "@ + pad_left(decimal_digits(line_number as nat), 3, ' ') + " │ "@
}

/// Whether text holds terminal escape codes.
pub open spec fn carries_styling(text: Seq<char>) -> bool {
    find_from(text, '\u{1b}', 0) < text.len()
}

/// How content that is wider than the view is made to fit.
#[derive(Debug, Clone, Copy, PartialEq, Eq, Structural)]
pub enum Fitting {
    /// Continue on further rows.
    Wrap,
    /// Cut, and mark the cut with three dots.
    Truncate,
}

/// The fitting for a line, by its styled content: styled text is cut, since
/// a break could fall inside an escape code; plain text is wrapped.
pub open spec fn fitting_for(styled: Seq<char>) -> Fitting {
    if carries_styling(styled) {
        Fitting::Truncate
    } else {
        Fitting::Wrap
    }
}

/// Chooses the fitting for a line by its styled content.
pub fn choose_fitting(styled: &Vec<char>) -> (fitting: Fitting)
    ensures
        fitting == fitting_for(styled@),
{
    if find_char(styled, '\u{1b}', 0) < styled.len() {
        Fitting::Truncate
    } else {
        Fitting::Wrap
    }
}

/// The position of the last space in `text[from..to]`, or -1 when it holds
/// none.
pub open spec fn last_space(text: Seq<char>, from: int, to: int) -> int
    decreases to - from,
{
    if to <= from {
        -1
    } else if text[to - 1] == ' ' {
        to - 1
    } else {
        last_space(text, from, to - 1)
    }
}

/// `last_space` is -1 or lies in `from..to`.
pub proof fn lemma_last_space(text: Seq<char>, from: int, to: int)
    ensures
        last_space(text, from, to) == -1 || from <= last_space(text, from, to) < to,
    decreases to - from,
{
    if to > from && text[to - 1] != ' ' {
        lemma_last_space(text, from, to - 1);
    }
}

/// Where the last third of a row of `width` columns begins.
pub open spec fn last_third(width: int) -> int {
    width - width / 3
}

/// The rows that `text` takes from position `pos` on when it is wrapped to
/// `width` columns. What is left is one row where it fits. Else the row ends
/// before the last space in its last third, and the text goes on after that
/// space; without such a space the row is full and the text goes on with the
/// next character. A width of 0 wraps nothing.
pub open spec fn wrap_from(text: Seq<char>, pos: int, width: int) -> Seq<Seq<char>>
    decreases text.len() - pos,
{
    if width <= 0 || pos < 0 || text.len() - pos <= width {
        seq![text.skip(pos)]
    } else {
        let space = last_space(text, pos + last_third(width), pos + width);
        if space >= 0 {
            proof {
                lemma_last_space(text, pos + last_third(width), pos + width);
            }
            seq![text.subrange(pos, space)] + wrap_from(text, space + 1, width)
        } else {
            seq![text.subrange(pos, pos + width)] + wrap_from(text, pos + width, width)
        }
    }
}

/// No row of wrapped text is wider than the view.
pub proof fn lemma_wrapped_rows_fit(text: Seq<char>, pos: int, width: int)
    requires
        0 <= pos <= text.len(),
        width > 0,
    ensures
        wrap_from(text, pos, width).len() >= 1,
        forall|k: int|
            0 <= k < wrap_from(text, pos, width).len() ==> (#[trigger] wrap_from(
                text,
                pos,
                width,
            )[k]).len() <= width,
    decreases text.len() - pos,
{
    if text.len() - pos > width {
        let space = last_space(text, pos + last_third(width), pos + width);
        lemma_last_space(text, pos + last_third(width), pos + width);
        if space >= 0 {
            lemma_wrapped_rows_fit(text, space + 1, width);
        } else {
            lemma_wrapped_rows_fit(text, pos + width, width);
        }
    }
}

/// Text that is cut to a width of three columns or more fits into it.
pub proof fn lemma_truncated_fits(text: Seq<char>, width: int)
    requires
        width >= 3,
    ensures
        truncate_spec(text, width).len() <= width,
{
    reveal_strlit("...");
}

/// The rows that content wider than the view takes.
pub open spec fn fit_spec(content: Seq<char>, fitting: Fitting, width: int) -> Seq<Seq<char>> {
    match fitting {
        Fitting::Wrap => wrap_from(content, 0, width),
        Fitting::Truncate => seq![truncate_spec(content, width)],
    }
}

/// The text of a line in a view of `width` columns: the styled content where
/// the content fits, else the content cut or wrapped.
pub open spec fn row_text(content: Seq<char>, styled: Seq<char>, width: int) -> Seq<Seq<char>> {
    if content.len() <= width {
        seq![styled]
    } else {
        fit_spec(content, fitting_for(styled), width)
    }
}

/// The character sequences of a sequence of strings.
pub open spec fn string_views(strings: Seq<String>) -> Seq<Seq<char>> {
    Seq::new(strings.len(), |i: int| strings[i]@)
}

/// Finds the last space in `text[from..to]`.
fn find_last_space(text: &Vec<char>, from: usize, to: usize) -> (at: Option<usize>)
    requires
        from <= to <= text.len(),
    ensures
        match at {
            Some(i) => i as int == last_space(text@, from as int, to as int) && from <= i < to,
            None => last_space(text@, from as int, to as int) == -1,
        },
{
    let mut i: usize = to;
    while i > from
        invariant
            from <= i <= to <= text.len(),
            last_space(text@, from as int, to as int) == last_space(text@, from as int, i as int),
        decreases i,
    {
        if text[i - 1] == ' ' {
            return Some(i - 1);
        }
        i -= 1;
    }
    None
}

/// Wraps text to `width` columns.
pub fn wrap_chars(text: &Vec<char>, width: usize) -> (lines: Vec<String>)
    ensures
        string_views(lines@) == wrap_from(text@, 0, width as int),
{
    let mut lines: Vec<String> = Vec::new();
    let mut pos: usize = 0;
    while width > 0 && text.len() - pos > width
        invariant
            pos <= text.len(),
            wrap_from(text@, 0, width as int) == string_views(lines@) + wrap_from(
                text@,
                pos as int,
                width as int,
            ),
        decreases text.len() - pos,
    {
        let third = pos + (width - width / 3);
        let next: usize;
        let line: String;
        match find_last_space(text, third, pos + width) {
            Some(space) => {
                line = string_of(text, pos, space);
                next = space + 1;
            },
            None => {
                line = string_of(text, pos, pos + width);
                next = pos + width;
            },
        }
        lines.push(line);
        pos = next;
    }
    let line = string_of(text, pos, text.len());
    lines.push(line);
    lines
}

/// Makes content that is wider than the view fit.
pub fn fit_content(content: &Vec<char>, fitting: Fitting, width: usize) -> (lines: Vec<String>)
    ensures
        string_views(lines@) == fit_spec(content@, fitting, width as int),
{
    match fitting {
        Fitting::Wrap => wrap_chars(content, width),
        Fitting::Truncate => {
            let cut = truncate_chars(content, width);
            let line = string_from(&cut);
            let mut lines: Vec<String> = Vec::new();
            lines.push(line);
            lines
        },
    }
}

/// The text of a line in a view of `width` columns.
pub fn line_text(line: &BlameLine, width: usize) -> (lines: Vec<String>)
    ensures
        string_views(lines@) == row_text(line.content@, line.highlighted_content@, width as int),
{
    let content = chars_of(line.content.as_str());
    if content.len() <= width {
        let styled = line.highlighted_content.clone();
        let mut lines: Vec<String> = Vec::new();
        lines.push(styled);
        lines
    } else {
        let styled = chars_of(line.highlighted_content.as_str());
        fit_content(&content, choose_fitting(&styled), width)
    }
}

/// The gutter of a row.
pub fn gutter(line_number: usize) -> (text: String)
    ensures
        text@ == gutter_spec(line_number),
{
    let mut out: Vec<char> = Vec::new();
    push_str(&mut out, "│ ");
    push_decimal(&mut out, line_number as u128, 3, ' ');
    push_str(&mut out, " │ ");
    string_from(&out)
}

/// The title row, filled to the width of the terminal.
pub fn header_line(
    file_path: &str,
    index: usize,
    count: usize,
    date: &str,
    width: usize,
) -> (text: String)
    ensures
        text@ == pad_right_spec(header_spec(file_path@, index, count, date@), width as int),
{
    let mut out: Vec<char> = Vec::new();
    push_str(&mut out, "📜 ");
    push_str(&mut out, file_path);
    push_str(&mut out, " │ ");
    push_decimal(&mut out, index as u128 + 1, 0, ' ');
    push_str(&mut out, " of ");
    push_decimal(&mut out, count as u128, 0, ' ');
    push_str(&mut out, " │ 📅 ");
    push_str(&mut out, date);
    pad_right(&mut out, width);
    string_from(&out)
}

/// The commit row, cut and filled to the width of the terminal.
pub fn commit_line(hash: &str, message: &str, width: usize) -> (text: String)
    ensures
        text@ == pad_right_spec(
            truncate_spec(commit_line_spec(hash@, message@), width as int),
            width as int,
        ),
{
    let id = chars_of(hash);
    let mut out: Vec<char> = Vec::new();
    push_str(&mut out, "🔗 ");
    if id.len() > 8 {
        push_range(&mut out, &id, 0, 8);
    } else {
        push_range(&mut out, &id, 0, id.len());
    }
    push_str(&mut out, " │ ");
    push_str(&mut out, message);
    let mut cut = truncate_chars(&out, width);
    pad_right(&mut cut, width);
    string_from(&cut)
}

/// The rule below the header.
pub fn separator(width: usize) -> (text: String)
    ensures
        text@ == separator_spec(width as int),
{
    let mut out: Vec<char> = Vec::new();
    while out.len() < width
        invariant
            out.len() <= width,
            out@ == Seq::new(out.len() as nat, |i: int| '─'),
        decreases width - out.len(),
    {
        out.push('─');
    }
    string_from(&out)
}

/// The key hints, filled to the width of the terminal.
pub fn footer_line(width: usize) -> (text: String)
    ensures
        text@ == pad_right_spec(footer_spec(), width as int),
{
    let mut out = chars_of("← Older    Newer → │ ↑ ↓ : Scroll │ Mouse: Scroll │ q : Quit");
    pad_right(&mut out, width);
    string_from(&out)
}

/// One row of the body.
#[derive(Debug, PartialEq, Eq)]
pub struct BodyRow {
    /// The row's index among the rows of the window.
    pub index: usize,
    /// Whether a block of another author begins with this row, so that the
    /// author's header is drawn above it.
    pub starts_block: bool,
    /// The colour of the row's author.
    pub color: AuthorColor,
    pub gutter: String,
    /// The row's text: one string for each row of the screen that it takes.
    pub text: Vec<String>,
}

/// Where the rows in view end: `content_height` rows after the scroll
/// offset, or with the last row.
pub open spec fn view_end(total_rows: int, scroll_offset: int, content_height: int) -> int {
    if scroll_offset + content_height < total_rows {
        scroll_offset + content_height
    } else {
        total_rows
    }
}

/// The number of rows in view.
pub open spec fn view_len(total_rows: int, scroll_offset: int, content_height: int) -> int {
    if view_end(total_rows, scroll_offset, content_height) > scroll_offset {
        view_end(total_rows, scroll_offset, content_height) - scroll_offset
    } else {
        0
    }
}

/// Whether a block begins with row `at`: its author differs from that of
/// the row before. The row at the top of the view, `first`, begins a block
/// unless its author's name is empty.
pub open spec fn starts_block_spec(rows: Seq<&BlameLine>, first: int, at: int) -> bool {
    if at == first {
        rows[at].author@.len() != 0
    } else {
        rows[at].author@ != rows[at - 1].author@
    }
}

/// Whether `row` shows the row `at` of the window in a view that begins at
/// row `first` and is `width` columns wide.
pub open spec fn shows_row(
    row: BodyRow,
    rows: Seq<&BlameLine>,
    first: int,
    at: int,
    width: int,
) -> bool {
    &&& row.index == at
    &&& row.starts_block == starts_block_spec(rows, first, at)
    &&& row.color == author_color(rows[at].author@)
    &&& row.gutter@ == gutter_spec(rows[at].line_number)
    &&& string_views(row.text@) == row_text(
        rows[at].content@,
        rows[at].highlighted_content@,
        width,
    )
}

/// The rows in view: up to `content_height` rows of the window from
/// `scroll_offset` on, each with its gutter and its text for a view of
/// `content_width` columns.
pub fn body_rows(
    filtered_lines: &[&BlameLine],
    scroll_offset: usize,
    content_height: usize,
    content_width: usize,
) -> (body: Vec<BodyRow>)
    ensures
        body@.len() == view_len(
            filtered_lines@.len() as int,
            scroll_offset as int,
            content_height as int,
        ),
        forall|k: int|
            0 <= k < body@.len() ==> shows_row(
                #[trigger] body@[k],
                filtered_lines@,
                scroll_offset as int,
                scroll_offset + k,
                content_width as int,
            ),
{
    let total = filtered_lines.len();
    let mut body: Vec<BodyRow> = Vec::new();
    if scroll_offset >= total {
        return body;
    }
    let end: usize = if content_height < total - scroll_offset {
        scroll_offset + content_height
    } else {
        total
    };
    let mut i: usize = scroll_offset;
    while i < end
        invariant
            scroll_offset <= i <= end <= total,
            total == filtered_lines@.len(),
            body@.len() == i - scroll_offset,
            forall|k: int|
                0 <= k < body@.len() ==> shows_row(
                    #[trigger] body@[k],
                    filtered_lines@,
                    scroll_offset as int,
                    scroll_offset + k,
                    content_width as int,
                ),
        decreases end - i,
    {
        let line = filtered_lines[i];
        let starts_block: bool = if i == scroll_offset {
            !line.author.as_str().is_empty()
        } else {
            line.author != filtered_lines[i - 1].author
        };
        let row = BodyRow {
            index: i,
            starts_block,
            color: get_author_color(line.author.as_str()),
            gutter: gutter(line.line_number),
            text: line_text(line, content_width),
        };
        body.push(row);
        i += 1;
    }
    body
}

/// All that is drawn for one state of the viewer.
#[derive(Debug, PartialEq, Eq)]
pub struct Frame {
    pub header: String,
    pub commit_line: String,
    pub separator: String,
    pub body: Vec<BodyRow>,
    pub footer: String,
}

/// Lays out the screen for a state: `version` is the version on show, of
/// `version_count`, and `filtered_lines` are its rows in the window.
pub fn build_frame(
    file_path: &str,
    state: &ViewerState,
    version_count: usize,
    version: &FileVersion,
    filtered_lines: &[&BlameLine],
) -> (frame: Frame)
    ensures
        frame.header@ == pad_right_spec(
            header_spec(file_path@, state.current_version, version_count, version.commit_date@),
            state.terminal_width as int,
        ),
        frame.commit_line@ == pad_right_spec(
            truncate_spec(
                commit_line_spec(version.commit_hash@, version.commit_message@),
                state.terminal_width as int,
            ),
            state.terminal_width as int,
        ),
        frame.separator@ == separator_spec(state.terminal_width as int),
        frame.footer@ == pad_right_spec(footer_spec(), state.terminal_width as int),
        frame.body@.len() == view_len(
            filtered_lines@.len() as int,
            state.scroll_offset as int,
            content_height_spec(state.terminal_height) as int,
        ),
        forall|k: int|
            0 <= k < frame.body@.len() ==> shows_row(
                #[trigger] frame.body@[k],
                filtered_lines@,
                state.scroll_offset as int,
                state.scroll_offset + k,
                content_width_spec(state.terminal_width) as int,
            ),
{
    let width = state.terminal_width as usize;
    Frame {
        header: header_line(
            file_path,
            state.current_version,
            version_count,
            version.commit_date.as_str(),
            width,
        ),
        commit_line: commit_line(
            version.commit_hash.as_str(),
            version.commit_message.as_str(),
            width,
        ),
        separator: separator(width),
        body: body_rows(
            filtered_lines,
            state.scroll_offset,
            state.content_height(),
            state.content_width(),
        ),
        footer: footer_line(width),
    }
}

} // verus!
