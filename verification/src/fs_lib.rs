//! Decisions of the directory walks: which paths a copy or a move leaves alone, and what a copy
//! does with each entry of a directory.
use vstd::prelude::*;
use crate::platform::{join_path, path_joined, paths_equal, same_path};
use crate::text::{trim_text, trimmed};

verus! {

/// Whether `path` equals, as a path, one of the paths in `black_list`.
pub fn is_blacklisted(black_list: &Vec<String>, path: &String) -> (b: bool)
    ensures
        b == blacklisted(black_list@.map_values(|p: String| p@), path@),
{
    let ghost bl = black_list@.map_values(|p: String| p@);
    let mut i: usize = 0;
    while i < black_list.len()
        invariant
            bl == black_list@.map_values(|p: String| p@),
            i <= black_list@.len(),
            forall|j: int| 0 <= j < i ==> !same_path(#[trigger] bl[j], path@),
        decreases black_list@.len() - i,
    {
        if paths_equal(black_list[i].as_str(), path.as_str()) {
            assert(same_path(bl[i as int], path@));
            return true;
        }
        i = i + 1;
    }
    false
}

/// Whether `path` equals, as a path, one of the paths in `black_list`.
pub open spec fn blacklisted(black_list: Seq<Seq<char>>, path: Seq<char>) -> bool {
    exists|i: int| 0 <= i < black_list.len() && same_path(#[trigger] black_list[i], path)
}

/// What a directory entry is.
#[derive(Clone, Copy, PartialEq, Eq, Debug)]
pub enum EntryKind {
    File,
    Dir,
    /// Neither a file nor a directory (a link, a device).
    Other,
}

/// What copying a directory does with one of its entries.
#[derive(Debug, PartialEq, Eq)]
pub enum CopyStep {
    /// The entry's path is black-listed: it is left alone.
    Skip,
    /// Copy the file `from` to `to`.
    CopyFile { from: String, to: String },
    /// Copy the directory `from`, under the name `name`, into the new directory.
    CopyDir { from: String, name: String },
    /// The entry is neither a file nor a directory: nothing is done with it.
    Neither,
}

pub enum CopyStepModel {
    Skip,
    CopyFile { from: Seq<char>, to: Seq<char> },
    CopyDir { from: Seq<char>, name: Seq<char> },
    Neither,
}

impl View for CopyStep {
    type V = CopyStepModel;

    open spec fn view(&self) -> CopyStepModel {
        match self {
            CopyStep::Skip => CopyStepModel::Skip,
            CopyStep::CopyFile { from, to } => CopyStepModel::CopyFile { from: from@, to: to@ },
            CopyStep::CopyDir { from, name } => CopyStepModel::CopyDir { from: from@, name: name@ },
            CopyStep::Neither => CopyStepModel::Neither,
        }
    }
}

/// The directory that copying `dir_name` into `to_path` creates, and whether its contents are
/// copied: they are not when that directory is black-listed.
pub open spec fn copy_target_spec(black_list: Seq<Seq<char>>, to_path: Seq<char>, dir_name: Seq<char>) -> (
    Seq<char>,
    bool,
) {
    let new_dir = path_joined(to_path, dir_name);
    (new_dir, !blacklisted(black_list, new_dir))
}

/// What copying the directory `from_dir` into `new_dir` does with its entry `entry_name` of
/// kind `kind`: the name is taken without surrounding whitespace; an entry whose path is
/// black-listed is skipped; a file is copied into `new_dir`; a directory is copied under its
/// name into `new_dir`.
pub open spec fn copy_step_spec(
    black_list: Seq<Seq<char>>,
    from_dir: Seq<char>,
    new_dir: Seq<char>,
    entry_name: Seq<char>,
    kind: EntryKind,
) -> CopyStepModel {
    let name = trimmed(entry_name);
    let from = path_joined(from_dir, name);
    if blacklisted(black_list, from) {
        CopyStepModel::Skip
    } else {
        match kind {
            EntryKind::File => CopyStepModel::CopyFile { from, to: path_joined(new_dir, name) },
            EntryKind::Dir => CopyStepModel::CopyDir { from, name },
            EntryKind::Other => CopyStepModel::Neither,
        }
    }
}

/// The directory that copying `dir_name` into `to_path` creates, and whether its contents are
/// copied.
pub fn copy_target(black_list: &Vec<String>, to_path: &String, dir_name: &String) -> (res: (String, bool))
    ensures
        (res.0@, res.1) == copy_target_spec(black_list@.map_values(|p: String| p@), to_path@, dir_name@),
{
    let new_dir = join_path(to_path.as_str(), dir_name.as_str());
    let copied = !is_blacklisted(black_list, &new_dir);
    (new_dir, copied)
}

/// What copying the directory `from_dir` into `new_dir` does with its entry `entry_name`.
pub fn copy_step(
    black_list: &Vec<String>,
    from_dir: &String,
    new_dir: &String,
    entry_name: &String,
    kind: EntryKind,
) -> (res: CopyStep)
    ensures
        res@ == copy_step_spec(black_list@.map_values(|p: String| p@), from_dir@, new_dir@, entry_name@, kind),
{
    let name = trim_text(entry_name.as_str());
    let from = join_path(from_dir.as_str(), name.as_str());
    if is_blacklisted(black_list, &from) {
        return CopyStep::Skip;
    }
    match kind {
        EntryKind::File => {
            let to = join_path(new_dir.as_str(), name.as_str());
            CopyStep::CopyFile { from, to }
        },
        EntryKind::Dir => CopyStep::CopyDir { from, name },
        EntryKind::Other => CopyStep::Neither,
    }
}

} // verus!
