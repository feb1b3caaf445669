//! Archiving: the last payload of a flagged source is kept in one file, which
//! is written again only when the payload's hash differs from the file's.

use crate::digest::{calculate_hash, hash_of};
use vstd::prelude::*;
use vstd::string::StringExecFns;

verus! {

/// Where the payload of a source is archived: the file `file` in the
/// directory `dir`.
#[derive(Debug)]
pub struct ArchiveTarget {
    pub dir: String,
    pub file: String,
}

/// The name of the archive file of a source: the source's name and `.xml`.
pub open spec fn file_name_spec(name: Seq<char>) -> Seq<char> {
    name + ".xml"@
}

/// The name of the archive file of a source.
pub fn file_name(name: &String) -> (file: String)
    ensures
        file@ == file_name_spec(name@),
{
    name.clone().concat(".xml")
}

/// What was found at the place of an archive file.
#[derive(Debug)]
pub enum Existing {
    /// There is no such file.
    Missing,
    /// There may be one, and it cannot be looked for or read.
    Unreadable,
    /// There is one with this content.
    Content(String),
}

/// What was found at the place of an archive file, as a plain value.
pub enum ExistingView {
    Missing,
    Unreadable,
    Content(Seq<char>),
}

impl View for Existing {
    type V = ExistingView;

    open spec fn view(&self) -> ExistingView {
        match self {
            Existing::Missing => ExistingView::Missing,
            Existing::Unreadable => ExistingView::Unreadable,
            Existing::Content(s) => ExistingView::Content(s@),
        }
    }
}

/// What to do with an archive file.
#[derive(Clone, Copy, Debug, PartialEq, Eq, Structural)]
pub enum ArchiveWrite {
    /// Leave the file system alone.
    Nothing,
    /// Create the file and write the payload into it.
    Create,
    /// Replace the file's content by the payload.
    Overwrite,
}

/// The write that a payload calls for, given what is at the file's place: a
/// missing file is created, an unreadable one is left alone, and a readable
/// one is overwritten exactly if its hash differs from the payload's.
pub open spec fn write_spec(existing: ExistingView, payload: Seq<char>) -> ArchiveWrite {
    match existing {
        ExistingView::Missing => ArchiveWrite::Create,
        ExistingView::Unreadable => ArchiveWrite::Nothing,
        ExistingView::Content(current) => if hash_of(current) != hash_of(payload) {
            ArchiveWrite::Overwrite
        } else {
            ArchiveWrite::Nothing
        },
    }
}

/// Decides the write that a payload calls for.
pub fn archive_write(existing: &Existing, payload: &String) -> (w: ArchiveWrite)
    ensures
        w == write_spec(existing@, payload@),
{
    match existing {
        Existing::Missing => ArchiveWrite::Create,
        Existing::Unreadable => ArchiveWrite::Nothing,
        Existing::Content(current) => if calculate_hash(current) != calculate_hash(payload) {
            ArchiveWrite::Overwrite
        } else {
            ArchiveWrite::Nothing
        },
    }
}

/// How many times a write touches the file: once, or not at all.
pub open spec fn writes(w: ArchiveWrite) -> nat {
    match w {
        ArchiveWrite::Nothing => 0,
        ArchiveWrite::Create => 1,
        ArchiveWrite::Overwrite => 1,
    }
}

/// What is at the file's place once a write has gone through.
pub open spec fn file_after(existing: ExistingView, payload: Seq<char>, w: ArchiveWrite)
    -> ExistingView {
    match w {
        ArchiveWrite::Nothing => existing,
        ArchiveWrite::Create => ExistingView::Content(payload),
        ArchiveWrite::Overwrite => ExistingView::Content(payload),
    }
}

/// Archiving the same payload twice writes the file at most once: whatever
/// was there before, once the first write has gone through the second call
/// finds nothing to do.
pub proof fn lemma_archive_twice(existing: ExistingView, payload: Seq<char>)
    ensures
        ({
            let first = write_spec(existing, payload);
            let second = write_spec(file_after(existing, payload, first), payload);
            &&& second == ArchiveWrite::Nothing
            &&& writes(first) + writes(second) <= 1
        }),
{
}

/// Archiving the same payload twice where there was no file writes the file
/// exactly once.
pub proof fn lemma_archive_twice_from_nothing(payload: Seq<char>)
    ensures
        ({
            let first = write_spec(ExistingView::Missing, payload);
            let second = write_spec(file_after(ExistingView::Missing, payload, first), payload);
            writes(first) + writes(second) == 1
        }),
{
}

} // verus!
