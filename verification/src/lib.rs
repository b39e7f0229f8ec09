//! The history of a file, line by line: for each commit that touched the
//! file, its lines with the author, the date and the commit that each line is
//! attributed to, and a viewer that steps through these versions while it
//! keeps the line in focus.
//!
//! - [`commit`] reads commit logs and [`blame`] reads blame dumps;
//!   [`versions`] puts the two together.
//! - [`range`] reads the argument that names a file and its lines, and
//!   [`diff`] reads unified diffs.
//! - [`tracker`] cuts the window of lines out of a version and finds the line
//!   to keep in focus; [`viewer`] holds the viewer's state and applies input
//!   to it; [`render`] lays out what is drawn.
//! - [`highlight`] styles source lines and [`palette`] colours authors.
//! - [`text`] and [`number`] hold what the parsers share.
//!
//! The library asks nothing of git and of the terminal: its callers hand it
//! the text of the queries and the size of the screen.

pub mod blame;
pub mod commit;
pub mod diff;
pub mod highlight;
pub mod number;
pub mod palette;
pub mod range;
pub mod render;
pub mod text;
pub mod tracker;
pub mod versions;
pub mod viewer;
