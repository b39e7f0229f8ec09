//! The versions of a file: its lines with their provenance at each commit
//! that touched it.

use vstd::prelude::*;
use crate::blame::{
    blame_records, blame_spec, parse_blame_output_with_highlighting, BlameLine, BlameRecord,
};
use crate::commit::{commit_records, CommitInfo, CommitRecord};
use crate::highlight::Highlighter;

verus! {

/// A file as it stood at one commit.
#[derive(Debug, PartialEq, Eq)]
pub struct FileVersion {
    pub commit_hash: String,
    pub commit_date: String,
    pub commit_message: String,
    /// The file's lines, in the order of the blame dump.
    pub blame_lines: Vec<BlameLine>,
}

/// A version's fields as plain values.
pub struct VersionRecord {
    pub commit_hash: Seq<char>,
    pub commit_date: Seq<char>,
    pub commit_message: Seq<char>,
    pub blame_lines: Seq<BlameRecord>,
}

impl View for FileVersion {
    type V = VersionRecord;

    open spec fn view(&self) -> VersionRecord {
        VersionRecord {
            commit_hash: self.commit_hash@,
            commit_date: self.commit_date@,
            commit_message: self.commit_message@,
            blame_lines: blame_records(self.blame_lines@),
        }
    }
}

/// The views of a sequence of versions.
pub open spec fn version_records(versions: Seq<FileVersion>) -> Seq<VersionRecord> {
    Seq::new(versions.len(), |i: int| versions[i]@)
}

/// The version of a commit whose blame dump is `dump`.
pub open spec fn version_spec(
    commit: CommitRecord,
    dump: Seq<char>,
    file_path: Seq<char>,
    styled: bool,
) -> VersionRecord {
    VersionRecord {
        commit_hash: commit.hash,
        commit_date: commit.date,
        commit_message: commit.message,
        blame_lines: blame_spec(dump, file_path, styled),
    }
}

/// The versions of the commits that have a blame dump, in the order of the
/// commits. `dumps[i]` is the dump of `commits[i]`; a commit whose dump is
/// absent has no version.
pub open spec fn versions_spec(
    commits: Seq<CommitRecord>,
    dumps: Seq<Option<String>>,
    file_path: Seq<char>,
    styled: bool,
) -> Seq<VersionRecord>
    decreases commits.len(),
{
    if commits.len() == 0 {
        Seq::empty()
    } else {
        let last = commits.len() - 1;
        let rest = versions_spec(commits.drop_last(), dumps, file_path, styled);
        if last < dumps.len() && dumps[last] is Some {
            rest.push(version_spec(commits[last], dumps[last].unwrap()@, file_path, styled))
        } else {
            rest
        }
    }
}

/// Builds the versions of a file from its commits and the blame dump of the
/// file at each of them, `None` where the blame query failed. A commit
/// without a dump is left out; the others keep the order of `commits`.
pub fn get_file_versions(
    commits: &Vec<CommitInfo>,
    dumps: &Vec<Option<String>>,
    file_path: &str,
    highlighter: Option<&Highlighter>,
) -> (versions: Vec<FileVersion>)
    ensures
        version_records(versions@) == versions_spec(
            commit_records(commits@),
            dumps@,
            file_path@,
            highlighter is Some,
        ),
{
    let ghost records = commit_records(commits@);
    let ghost styled = highlighter is Some;
    let mut versions: Vec<FileVersion> = Vec::new();
    let mut i: usize = 0;
    while i < commits.len()
        invariant
            i <= commits.len(),
            records == commit_records(commits@),
            styled == (highlighter is Some),
            version_records(versions@) == versions_spec(
                records.take(i as int),
                dumps@,
                file_path@,
                styled,
            ),
        decreases commits.len() - i,
    {
        proof {
            assert(records.take(i + 1).drop_last() == records.take(i as int));
        }
        if i < dumps.len() {
            match &dumps[i] {
                Some(dump) => {
                    let commit = &commits[i];
                    let version = FileVersion {
                        commit_hash: commit.hash.clone(),
                        commit_date: commit.date.clone(),
                        commit_message: commit.message.clone(),
                        blame_lines: parse_blame_output_with_highlighting(
                            dump.as_str(),
                            file_path,
                            highlighter,
                        ),
                    };
                    versions.push(version);
                },
                None => {},
            }
        }
        i += 1;
    }
    proof {
        assert(records.take(commits.len() as int) == records);
    }
    versions
}

/// The order in which versions are shown, given their order in the log,
/// which is newest first: oldest first, unless `reverse` asks for the log's
/// own order.
pub open spec fn display_order<T>(log_order: Seq<T>, reverse: bool) -> Seq<T> {
    if reverse {
        log_order
    } else {
        log_order.reverse()
    }
}

/// The version shown first is the oldest one, which the log lists last;
/// when the order is reversed it is the newest one, which the log lists
/// first.
pub proof fn lemma_first_version_shown<T>(log_order: Seq<T>, reverse: bool)
    requires
        log_order.len() > 0,
    ensures
        !reverse ==> display_order(log_order, reverse)[0] == log_order.last(),
        reverse ==> display_order(log_order, reverse)[0] == log_order[0],
        display_order(log_order, reverse).len() == log_order.len(),
{
}

/// Puts versions that come newest first into the order of display.
pub fn order_versions(versions: Vec<FileVersion>, reverse: bool) -> (ordered: Vec<FileVersion>)
    ensures
        ordered@ == display_order(versions@, reverse),
{
    if reverse {
        return versions;
    }
    let mut rest = versions;
    let mut ordered: Vec<FileVersion> = Vec::new();
    while rest.len() > 0
        invariant
            rest.len() <= versions.len(),
            rest@ == versions@.take(rest.len() as int),
            ordered@ == versions@.reverse().take(versions.len() - rest.len()),
        decreases rest.len(),
    {
        match rest.pop() {
            Some(version) => {
                ordered.push(version);
            },
            None => {},
        }
    }
    ordered
}

} // verus!
