//! What goes into a directory's archive, and where an upload and the
//! entries of an uploaded archive land.
use vstd::prelude::*;
use crate::dispatch::PathState;
use crate::pathres::{join_lexical, join_slash, joined, normalize_path, segs};

verus! {

broadcast use vstd::string::group_string_axioms;

/// The archive entry name of a walked entry: its path relative to the
/// archived directory, for regular files only (links and directories give
/// no entry of their own).
pub open spec fn zip_entry_spec(dir: Seq<Seq<char>>, entry: Seq<Seq<char>>, is_regular_file: bool) -> Option<Seq<char>> {
    if is_regular_file && dir.is_prefix_of(entry) && entry.len() > dir.len() {
        Some(join_slash(entry.subrange(dir.len() as int, entry.len() as int)))
    } else {
        None
    }
}

fn is_below(dir: &Vec<String>, entry: &Vec<String>) -> (r: bool)
    ensures
        r == (segs(dir@).is_prefix_of(segs(entry@)) && entry@.len() > dir@.len()),
{
    if dir.len() >= entry.len() {
        return false;
    }
    let mut i: usize = 0;
    while i < dir.len()
        invariant
            i <= dir.len() < entry.len(),
            forall|j: int| 0 <= j < i ==> dir@[j]@ == entry@[j]@,
        decreases dir.len() - i,
    {
        if !(dir[i] == entry[i]) {
            assert(segs(dir@)[i as int] != segs(entry@).subrange(0, dir@.len() as int)[i as int]);
            return false;
        }
        i = i + 1;
    }
    assert(segs(dir@) =~= segs(entry@).subrange(0, dir@.len() as int));
    true
}

/// The name under which a walked entry is archived, if it is archived.
pub fn zip_entry_name(dir: &Vec<String>, entry: &Vec<String>, is_regular_file: bool) -> (r: Option<String>)
    ensures
        r.is_some() == zip_entry_spec(segs(dir@), segs(entry@), is_regular_file).is_some(),
        r.is_some() ==> r.unwrap()@ == zip_entry_spec(segs(dir@), segs(entry@), is_regular_file).unwrap(),
{
    if !is_regular_file || !is_below(dir, entry) {
        return None;
    }
    let mut rel: Vec<String> = Vec::new();
    let mut i: usize = dir.len();
    while i < entry.len()
        invariant
            dir@.len() <= i <= entry@.len(),
            rel@.len() == i - dir@.len(),
            forall|j: int| 0 <= j < rel@.len() ==> rel@[j]@ == entry@[dir@.len() + j]@,
        decreases entry.len() - i,
    {
        rel.push(entry[i].clone());
        i = i + 1;
    }
    assert(segs(rel@) =~= segs(entry@).subrange(dir@.len() as int, entry@.len() as int));
    Some(normalize_path(&rel))
}

/// An archive holds only regular files: a link, a directory or anything
/// else that is not a regular file never becomes an entry, and every entry
/// is named by a path below the archived directory.
pub proof fn lemma_archive_regular_files_only(dir: Seq<Seq<char>>, entry: Seq<Seq<char>>)
    ensures
        zip_entry_spec(dir, entry, false).is_none(),
        zip_entry_spec(dir, entry, true) matches Some(n) ==> dir.is_prefix_of(entry) && entry.len() > dir.len()
            && n == join_slash(entry.subrange(dir.len() as int, entry.len() as int)),
{
}

/// One step of extracting an uploaded archive.
#[derive(Debug, PartialEq, Eq)]
pub enum UnzipStep {
    /// The entry names a directory: create it and its missing parents.
    CreateDir(Vec<String>),
    /// The entry is a file: create its missing parents and write it there.
    WriteFile(Vec<String>),
}

/// Plans one archive entry, named `name`, extracted into `dir`: the entry
/// lands where `name` leads from `dir` (`..` and a leading `/` included),
/// as a directory when `name` ends in `/` and as a file otherwise.
pub fn unzip_step(dir: &Vec<String>, name: &str) -> (r: UnzipStep)
    ensures
        ({
            let n = name@;
            let p = joined(segs(dir@), n);
            if n.len() > 0 && n[n.len() - 1] == '/' {
                r matches UnzipStep::CreateDir(v) && segs(v@) == p
            } else {
                r matches UnzipStep::WriteFile(v) && segs(v@) == p
            }
        }),
{
    let n = name.unicode_len();
    let p = join_lexical(dir, name);
    if n > 0 && name.get_char(n - 1) == '/' {
        UnzipStep::CreateDir(p)
    } else {
        UnzipStep::WriteFile(p)
    }
}

/// What to do about an upload's parent directory.
#[derive(Debug, Clone, Copy, PartialEq, Eq, Structural)]
pub enum ParentStep {
    /// It is a directory: write the file.
    Ready,
    /// It is missing: create it and its missing parents, then write.
    Create,
    /// It is something else, or the target has no parent: refuse with 403.
    Forbidden,
}

/// The parent of a target path, if it has one.
pub fn upload_parent(path: &Vec<String>) -> (r: Option<Vec<String>>)
    ensures
        r.is_some() == (path@.len() > 0),
        r.is_some() ==> segs(r.unwrap()@) == segs(path@).drop_last(),
{
    if path.len() == 0 {
        return None;
    }
    let mut p: Vec<String> = Vec::new();
    let mut i: usize = 0;
    while i < path.len() - 1
        invariant
            path@.len() > 0,
            i <= path@.len() - 1,
            p@.len() == i,
            forall|j: int| 0 <= j < i ==> p@[j]@ == path@[j]@,
        decreases path.len() - 1 - i,
    {
        p.push(path[i].clone());
        i = i + 1;
    }
    assert(segs(p@) =~= segs(path@).drop_last());
    Some(p)
}

/// The decision on an upload's parent, from what it is on disk.
pub fn parent_step(parent: PathState) -> (r: ParentStep)
    ensures
        r == match parent {
            PathState::Dir => ParentStep::Ready,
            PathState::Missing => ParentStep::Create,
            PathState::File => ParentStep::Forbidden,
        },
{
    match parent {
        PathState::Dir => ParentStep::Ready,
        PathState::Missing => ParentStep::Create,
        PathState::File => ParentStep::Forbidden,
    }
}

} // verus!
