//! Blame dumps: for each line of a file at one revision, the commit and the
//! author that the line is attributed to.

use vstd::prelude::*;
use crate::highlight::{grammar_spec, highlight_spec, Highlighter};
use crate::number::{
    decimal_digits, pad_left, parse_i64, parse_i64_spec, parse_usize, parse_usize_spec, push_decimal,
};
use crate::text::{
    chars_of, copy_range, has_prefix, is_space, lemma_scan, lines_of, push_range, rows, scan_chars,
    split_lines, starts_with, string_from, string_of, word_end, word_start,
};

verus! {

/// One line of a file at one revision, with its provenance.
#[derive(Debug, Clone, PartialEq, Eq)]
pub struct BlameLine {
    /// The line's position in the file at that revision, counted from 1.
    pub line_number: usize,
    /// The author's name, abbreviated.
    pub author: String,
    pub date: String,
    /// The first seven characters of the commit's id.
    pub commit_hash: String,
    /// The commit's summary line.
    pub commit_message: String,
    pub content: String,
    /// The content with colour codes, or the content itself.
    pub highlighted_content: String,
}

/// A blame line's fields as plain values.
pub struct BlameRecord {
    pub line_number: usize,
    pub author: Seq<char>,
    pub date: Seq<char>,
    pub commit_hash: Seq<char>,
    pub commit_message: Seq<char>,
    pub content: Seq<char>,
    pub highlighted_content: Seq<char>,
}

impl View for BlameLine {
    type V = BlameRecord;

    open spec fn view(&self) -> BlameRecord {
        BlameRecord {
            line_number: self.line_number,
            author: self.author@,
            date: self.date@,
            commit_hash: self.commit_hash@,
            commit_message: self.commit_message@,
            content: self.content@,
            highlighted_content: self.highlighted_content@,
        }
    }
}

/// The views of a sequence of blame lines.
pub open spec fn blame_records(lines: Seq<BlameLine>) -> Seq<BlameRecord> {
    Seq::new(lines.len(), |i: int| lines[i]@)
}

/// An author's name in short: the first word, a space, the first character
/// of the second word and a full stop. A name of fewer than two words stays
/// as it is.
pub open spec fn abbreviate_spec(author: Seq<char>) -> Seq<char> {
    let first = word_start(author, 0);
    let first_end = word_end(author, first);
    let second = word_start(author, first_end);
    if second < author.len() {
        author.subrange(first, first_end) + seq![' ', author[second], '.']
    } else {
        author
    }
}

/// Whether no character of `word` is white space.
pub open spec fn is_word(word: Seq<char>) -> bool {
    forall|i: int| 0 <= i < word.len() ==> !is_space(#[trigger] word[i])
}

/// A name of a single word stays as it is.
pub proof fn lemma_single_word_is_unchanged(author: Seq<char>)
    requires
        is_word(author),
    ensures
        abbreviate_spec(author) == author,
{
    let first = word_start(author, 0);
    lemma_scan(author, 0, false);
    lemma_scan(author, first, true);
    let first_end = word_end(author, first);
    lemma_scan(author, first_end, false);
}

/// Of a name of two words, the first word and the initial of the second are
/// kept.
pub proof fn lemma_two_words_are_abbreviated(first: Seq<char>, second: Seq<char>)
    requires
        is_word(first),
        is_word(second),
        first.len() > 0,
        second.len() > 0,
    ensures
        abbreviate_spec(first + seq![' '] + second) == first + seq![' ', second[0], '.'],
{
    let author = first + seq![' '] + second;
    let gap = first.len() as int;
    lemma_scan(author, 0, false);
    lemma_scan(author, 0, true);
    lemma_scan(author, gap, false);
    assert(author[gap + 1] == second[0]);
}

/// Abbreviates an author's name that is held as characters.
pub fn abbreviate_chars(author: &Vec<char>) -> (short: Vec<char>)
    ensures
        short@ == abbreviate_spec(author@),
{
    let first = scan_chars(author, 0, false);
    let first_end = scan_chars(author, first, true);
    let second = scan_chars(author, first_end, false);
    if second < author.len() {
        let mut short: Vec<char> = Vec::new();
        push_range(&mut short, author, first, first_end);
        short.push(' ');
        short.push(author[second]);
        short.push('.');
        short
    } else {
        let short = copy_range(author, 0, author.len());
        short
    }
}

/// Abbreviates an author's name.
pub fn abbreviate_author(author: &str) -> (short: String)
    ensures
        short@ == abbreviate_spec(author@),
{
    let chars = chars_of(author);
    let short = abbreviate_chars(&chars);
    string_from(&short)
}

/// A date for a time in seconds since 1970, by a coarse calendar of years of
/// 365 days and months of 30 days: the year in at least four digits, the
/// month and the day in two. Days past the twelfth such month count as
/// December. A time before 1970 has no date.
pub open spec fn format_timestamp_spec(timestamp: i64) -> Seq<char> {
    if timestamp < 0 {
        "unknown"@
    } else {
        let days = timestamp as int / 86400;
        let year = 1970 + days / 365;
        let day_of_year = days % 365;
        let month = if day_of_year / 30 + 1 > 12 {
            12
        } else {
            day_of_year / 30 + 1
        };
        let day = day_of_year % 30 + 1;
        pad_left(decimal_digits(year as nat), 4, '0') + seq!['-'] + pad_left(
            decimal_digits(month as nat),
            2,
            '0',
        ) + seq!['-'] + pad_left(decimal_digits(day as nat), 2, '0')
    }
}

/// Formats a time in seconds since 1970 as a date.
pub fn format_timestamp(timestamp: i64) -> (date: String)
    ensures
        date@ == format_timestamp_spec(timestamp),
{
    if timestamp < 0 {
        return "unknown".to_string();
    }
    let days: u128 = (timestamp / 86400) as u128;
    let year: u128 = 1970 + days / 365;
    let day_of_year: u128 = days % 365;
    let month: u128 = if day_of_year / 30 + 1 > 12 {
        12
    } else {
        day_of_year / 30 + 1
    };
    let day: u128 = day_of_year % 30 + 1;
    let mut out: Vec<char> = Vec::new();
    push_decimal(&mut out, year, 4, '0');
    out.push('-');
    push_decimal(&mut out, month, 2, '0');
    out.push('-');
    push_decimal(&mut out, day, 2, '0');
    let date = string_from(&out);
    date
}

/// Where the third word of a line begins; the line's length when it has
/// fewer than three words.
pub open spec fn third_word(line: Seq<char>) -> int {
    let first = word_start(line, 0);
    let second = word_start(line, word_end(line, first));
    word_start(line, word_end(line, second))
}

/// Whether a line begins a record: it has three words or more, and the first
/// has seven characters or more.
pub open spec fn is_record_start(line: Seq<char>) -> bool {
    let first = word_start(line, 0);
    third_word(line) < line.len() && word_end(line, first) - first >= 7
}

/// The commit id that begins a record: the line's first word.
pub open spec fn record_id(line: Seq<char>) -> Seq<char> {
    let first = word_start(line, 0);
    line.subrange(first, word_end(line, first))
}

/// The line number that a record's first line gives: its third word, read
/// as a number; 0 where that word is no number.
pub open spec fn record_line_number(line: Seq<char>) -> usize {
    let third = third_word(line);
    match parse_usize_spec(line.subrange(third, word_end(line, third))) {
        Some(n) => n,
        None => 0,
    }
}

/// Whether a line holds a record's content: it begins with a tab.
pub open spec fn is_content(line: Seq<char>) -> bool {
    line.len() > 0 && line[0] == '\t'
}

/// The index of the first content line at or after `from`; the number of
/// lines when there is none.
pub open spec fn content_index(lines: Seq<Seq<char>>, from: int) -> int
    decreases lines.len() - from,
{
    if from < 0 || from >= lines.len() {
        lines.len() as int
    } else if is_content(lines[from]) {
        from
    } else {
        content_index(lines, from + 1)
    }
}

/// `content_index` lies between `from` and the number of lines.
pub proof fn lemma_content_index(lines: Seq<Seq<char>>, from: int)
    requires
        0 <= from <= lines.len(),
    ensures
        from <= content_index(lines, from) <= lines.len(),
    decreases lines.len() - from,
{
    if from < lines.len() && !is_content(lines[from]) {
        lemma_content_index(lines, from + 1);
    }
}

/// What follows `key` on the last of the lines that begin with it; empty
/// when no line does.
pub open spec fn last_value(meta: Seq<Seq<char>>, key: Seq<char>) -> Seq<char>
    decreases meta.len(),
{
    if meta.len() == 0 {
        Seq::empty()
    } else if starts_with(meta.last(), key) {
        meta.last().skip(key.len() as int)
    } else {
        last_value(meta.drop_last(), key)
    }
}

/// The time that a line gives, if it is an `author-time` line with a number.
pub open spec fn line_time(line: Seq<char>) -> Option<i64> {
    if starts_with(line, "author-time "@) {
        parse_i64_spec(line.skip("author-time "@.len() as int))
    } else {
        None
    }
}

/// The date of the last of the lines that give a time; empty when none does.
pub open spec fn last_date(meta: Seq<Seq<char>>) -> Seq<char>
    decreases meta.len(),
{
    if meta.len() == 0 {
        Seq::empty()
    } else {
        match line_time(meta.last()) {
            Some(time) => format_timestamp_spec(time),
            None => last_date(meta.drop_last()),
        }
    }
}

/// The styled form of a line's content. Without a highlighter, and for
/// content of more than 200 characters, it is the content itself.
pub open spec fn styled_content(
    content: Seq<char>,
    file_path: Seq<char>,
    styled: bool,
) -> Seq<char> {
    if styled && content.len() <= 200 {
        highlight_spec(content, file_path)
    } else {
        content
    }
}

/// The record that begins at line `start` and whose content is line `end`.
/// The lines between the two are its metadata.
pub open spec fn record_at(
    lines: Seq<Seq<char>>,
    start: int,
    end: int,
    file_path: Seq<char>,
    styled: bool,
) -> BlameRecord {
    let meta = lines.subrange(start + 1, end);
    let content = lines[end].skip(1);
    BlameRecord {
        line_number: record_line_number(lines[start]),
        author: abbreviate_spec(last_value(meta, "author "@)),
        date: last_date(meta),
        commit_hash: record_id(lines[start]).take(7),
        commit_message: last_value(meta, "summary "@),
        content: content,
        highlighted_content: styled_content(content, file_path, styled),
    }
}

/// The records of a dump from line `from` on. A record runs from a line that
/// begins one to the next content line; lines between records are passed
/// over, and a record that no content line ends is left out.
pub open spec fn blame_from(
    lines: Seq<Seq<char>>,
    from: int,
    file_path: Seq<char>,
    styled: bool,
) -> Seq<BlameRecord>
    decreases lines.len() - from,
{
    if from < 0 || from >= lines.len() {
        Seq::empty()
    } else if is_record_start(lines[from]) {
        let end = content_index(lines, from + 1);
        if end >= lines.len() {
            Seq::empty()
        } else {
            proof {
                lemma_content_index(lines, from + 1);
            }
            seq![record_at(lines, from, end, file_path, styled)] + blame_from(
                lines,
                end + 1,
                file_path,
                styled,
            )
        }
    } else {
        blame_from(lines, from + 1, file_path, styled)
    }
}

/// The records of a blame dump.
pub open spec fn blame_spec(
    dump: Seq<char>,
    file_path: Seq<char>,
    styled: bool,
) -> Seq<BlameRecord> {
    blame_from(lines_of(dump), 0, file_path, styled)
}

/// Finds the first content line at or after `from`.
fn find_content(lines: &Vec<Vec<char>>, from: usize) -> (at: usize)
    requires
        from <= lines.len(),
    ensures
        at as int == content_index(rows(lines@), from as int),
        from <= at <= lines.len(),
        at < lines.len() ==> is_content(lines@[at as int]@),
{
    let mut i: usize = from;
    while i < lines.len() && !(lines[i].len() > 0 && lines[i][0] == '\t')
        invariant
            from <= i <= lines.len(),
            content_index(rows(lines@), from as int) == content_index(rows(lines@), i as int),
        decreases lines.len() - i,
    {
        i += 1;
    }
    i
}

/// Reads the last value that the lines `from..to` give for `key`.
fn meta_value(lines: &Vec<Vec<char>>, from: usize, to: usize, key: &Vec<char>) -> (value: Vec<char>)
    requires
        from <= to <= lines.len(),
    ensures
        value@ == last_value(rows(lines@).subrange(from as int, to as int), key@),
{
    let ghost all = rows(lines@);
    let mut k: usize = to;
    while k > from
        invariant
            from <= k <= to <= lines.len(),
            all == rows(lines@),
            last_value(all.subrange(from as int, to as int), key@) == last_value(
                all.subrange(from as int, k as int),
                key@,
            ),
        decreases k,
    {
        k -= 1;
        proof {
            assert(all.subrange(from as int, k + 1).drop_last() == all.subrange(
                from as int,
                k as int,
            ));
        }
        if has_prefix(&lines[k], key) {
            let value = copy_range(&lines[k], key.len(), lines[k].len());
            return value;
        }
    }
    Vec::new()
}

/// Reads the date of the last time that the lines `from..to` give.
fn meta_date(lines: &Vec<Vec<char>>, from: usize, to: usize) -> (date: String)
    requires
        from <= to <= lines.len(),
    ensures
        date@ == last_date(rows(lines@).subrange(from as int, to as int)),
{
    let ghost all = rows(lines@);
    let key = chars_of("author-time ");
    let mut k: usize = to;
    while k > from
        invariant
            from <= k <= to <= lines.len(),
            all == rows(lines@),
            key@ == "author-time "@,
            last_date(all.subrange(from as int, to as int)) == last_date(
                all.subrange(from as int, k as int),
            ),
        decreases k,
    {
        k -= 1;
        proof {
            assert(all.subrange(from as int, k + 1).drop_last() == all.subrange(
                from as int,
                k as int,
            ));
        }
        if has_prefix(&lines[k], &key) {
            match parse_i64(&lines[k], key.len(), lines[k].len()) {
                Some(time) => {
                    return format_timestamp(time);
                },
                None => {},
            }
        }
    }
    String::new()
}

/// The words that begin a record, if the line has them: where the id begins
/// and ends, and the line number.
fn read_record_start(line: &Vec<char>) -> (found: Option<(usize, usize, usize)>)
    ensures
        found is Some == is_record_start(line@),
        match found {
            Some((id, id_end, number)) => {
                &&& id <= id_end <= line.len()
                &&& id_end - id >= 7
                &&& line@.subrange(id as int, id_end as int) == record_id(line@)
                &&& number == record_line_number(line@)
            },
            None => true,
        },
{
    let first = scan_chars(line, 0, false);
    let first_end = scan_chars(line, first, true);
    let second = scan_chars(line, first_end, false);
    let second_end = scan_chars(line, second, true);
    let third = scan_chars(line, second_end, false);
    if third < line.len() && first_end - first >= 7 {
        let third_end = scan_chars(line, third, true);
        let number: usize = match parse_usize(line, third, third_end) {
            Some(n) => n,
            None => 0,
        };
        Some((first, first_end, number))
    } else {
        None
    }
}

/// Parses a blame dump into the lines of the file at that revision. With a
/// highlighter, each line's content is styled for the file's kind.
pub fn parse_blame_output_with_highlighting(
    blame_text: &str,
    file_path: &str,
    highlighter: Option<&Highlighter>,
) -> (blame_lines: Vec<BlameLine>)
    ensures
        blame_records(blame_lines@) == blame_spec(blame_text@, file_path@, highlighter is Some),
{
    let text = chars_of(blame_text);
    let lines = split_lines(&text);
    let author_key = chars_of("author ");
    let summary_key = chars_of("summary ");
    let grammar = match highlighter {
        Some(h) => h.grammar(file_path),
        None => String::new(),
    };
    let ghost all = rows(lines@);
    let ghost styled = highlighter is Some;
    let mut blame_lines: Vec<BlameLine> = Vec::new();
    let mut i: usize = 0;
    while i < lines.len()
        invariant
            i <= lines.len(),
            all == rows(lines@),
            styled == (highlighter is Some),
            author_key@ == "author "@,
            summary_key@ == "summary "@,
            styled ==> grammar@ == grammar_spec(file_path@),
            blame_from(all, 0, file_path@, styled) == blame_records(blame_lines@) + blame_from(
                all,
                i as int,
                file_path@,
                styled,
            ),
        decreases lines.len() - i,
    {
        match read_record_start(&lines[i]) {
            Some((id, id_end, line_number)) => {
                let end = find_content(&lines, i + 1);
                if end >= lines.len() {
                    i = lines.len();
                } else {
                    let author = meta_value(&lines, i + 1, end, &author_key);
                    let short = abbreviate_chars(&author);
                    let content = string_of(&lines[end], 1, lines[end].len());
                    let highlighted_content = match highlighter {
                        Some(h) => {
                            if lines[end].len() - 1 > 200 {
                                content.clone()
                            } else {
                                h.highlight_as(content.as_str(), grammar.as_str())
                            }
                        },
                        None => content.clone(),
                    };
                    let summary = meta_value(&lines, i + 1, end, &summary_key);
                    let line = BlameLine {
                        line_number,
                        author: string_from(&short),
                        date: meta_date(&lines, i + 1, end),
                        commit_hash: string_of(&lines[i], id, id + 7),
                        commit_message: string_from(&summary),
                        content,
                        highlighted_content,
                    };
                    blame_lines.push(line);
                    proof {
                        let record = record_at(all, i as int, end as int, file_path@, styled);
                        assert(record_id(all[i as int]).take(7) == lines@[i as int]@.subrange(
                            id as int,
                            id + 7,
                        ));
                    }
                    i = end + 1;
                }
            },
            None => {
                i += 1;
            },
        }
    }
    blame_lines
}

} // verus!
