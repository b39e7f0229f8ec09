//! The argument that names a file and a range of its lines.

use vstd::prelude::*;
use crate::number::{parse_usize, parse_usize_spec};
use crate::text::{
    chars_of, find_char, find_from, last_index_of, rfind_char, string_from, string_of,
};

verus! {

/// The number read, or `fallback` where none was.
pub open spec fn number_or(number: Option<usize>, fallback: usize) -> usize {
    match number {
        Some(n) => n,
        None => fallback,
    }
}

/// The path and the first and last line that an argument names.
///
/// What follows the last `:` is the range, what precedes it the path. A range
/// `a-b` runs from `a` to `b`; where `a` is no number it is 1, and where `b`
/// is none it is `a`. A range without `-` is one line, line 1 where it is no
/// number. An argument without `:` names the whole file: line 1 to the
/// greatest line number there is.
pub open spec fn file_range_spec(arg: Seq<char>) -> (Seq<char>, usize, usize) {
    let colon = last_index_of(arg, ':');
    let dash = find_from(arg, '-', colon + 1);
    if colon < 0 {
        (arg, 1, usize::MAX)
    } else if dash < arg.len() {
        let start = number_or(parse_usize_spec(arg.subrange(colon + 1, dash)), 1);
        let end = number_or(parse_usize_spec(arg.subrange(dash + 1, arg.len() as int)), start);
        (arg.take(colon), start, end)
    } else {
        let line = number_or(parse_usize_spec(arg.subrange(colon + 1, arg.len() as int)), 1);
        (arg.take(colon), line, line)
    }
}

/// Splits an argument of the form `path:start-end`, `path:line` or `path`.
pub fn parse_file_range(file_range: &str) -> (parts: (String, usize, usize))
    ensures
        (parts.0@, parts.1, parts.2) == file_range_spec(file_range@),
{
    let arg = chars_of(file_range);
    let len = arg.len();
    match rfind_char(&arg, ':') {
        None => {
            (string_from(&arg), 1, usize::MAX)
        },
        Some(colon) => {
            let path = string_of(&arg, 0, colon);
            let dash = find_char(&arg, '-', colon + 1);
            if dash < len {
                let start: usize = match parse_usize(&arg, colon + 1, dash) {
                    Some(n) => n,
                    None => 1,
                };
                let end: usize = match parse_usize(&arg, dash + 1, len) {
                    Some(n) => n,
                    None => start,
                };
                (path, start, end)
            } else {
                let line: usize = match parse_usize(&arg, colon + 1, len) {
                    Some(n) => n,
                    None => 1,
                };
                (path, line, line)
            }
        },
    }
}

} // verus!
