//! The colour in which an author's name is shown.

use vstd::prelude::*;
use std::collections::hash_map::DefaultHasher;
use std::hash::{BuildHasher, BuildHasherDefault};

verus! {

/// The colours that authors are told apart by.
#[derive(Debug, Clone, Copy, PartialEq, Eq, Structural)]
pub enum AuthorColor {
    Red,
    DarkCyan,
    DarkGreen,
    DarkYellow,
    DarkBlue,
    DarkMagenta,
    DarkRed,
}

/// The number of colours in the palette.
pub const PALETTE_SIZE: u64 = 7;

/// The hash of a name by the standard library's default hasher, as
/// `DefaultHasher::new` makes it.
pub uninterp spec fn author_hash(author: Seq<char>) -> u64;

/// Hashes a name with `BuildHasher::hash_one` on a `DefaultHasher` in the
/// state in which `DefaultHasher::new` makes it. All hashers made so are the
/// same, so the name alone decides the hash.
#[verifier::external_body]
fn hash_author(author: &str) -> (hash: u64)
    ensures
        hash == author_hash(author@),
{
    BuildHasherDefault::<DefaultHasher>::default().hash_one(author)
}

/// The colour at a place of the palette.
pub open spec fn palette_color(index: int) -> AuthorColor {
    if index == 0 {
        AuthorColor::Red
    } else if index == 1 {
        AuthorColor::DarkCyan
    } else if index == 2 {
        AuthorColor::DarkGreen
    } else if index == 3 {
        AuthorColor::DarkYellow
    } else if index == 4 {
        AuthorColor::DarkBlue
    } else if index == 5 {
        AuthorColor::DarkMagenta
    } else {
        AuthorColor::DarkRed
    }
}

/// The colour of an author: the one at the place that the hash of the name
/// has modulo the size of the palette.
pub open spec fn author_color(author: Seq<char>) -> AuthorColor {
    palette_color(author_hash(author) as int % PALETTE_SIZE as int)
}

/// The colour for a hash: the one at the place that the hash has modulo the
/// size of the palette.
pub fn color_for_hash(hash: u64) -> (color: AuthorColor)
    ensures
        color == palette_color(hash as int % PALETTE_SIZE as int),
{
    let index: u64 = hash % PALETTE_SIZE;
    if index == 0 {
        AuthorColor::Red
    } else if index == 1 {
        AuthorColor::DarkCyan
    } else if index == 2 {
        AuthorColor::DarkGreen
    } else if index == 3 {
        AuthorColor::DarkYellow
    } else if index == 4 {
        AuthorColor::DarkBlue
    } else if index == 5 {
        AuthorColor::DarkMagenta
    } else {
        AuthorColor::DarkRed
    }
}

/// The colour of an author: the same for the same name, whatever else is on
/// show.
pub fn get_author_color(author: &str) -> (color: AuthorColor)
    ensures
        color == author_color(author@),
{
    color_for_hash(hash_author(author))
}

} // verus!
