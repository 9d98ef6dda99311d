//! Helpers for tests: a directory tree written down as a value, and a
//! short way to a filter.

use vstd::prelude::*;
use crate::filter::{compile_all, reject_all, GitIgnoreFilter};
use crate::text::texts;
use crate::walk::{EntryKind, EntryMeta};

verus! {

/// A node of a directory tree.
pub enum FsNode<'a> {
    /// A file: its name and its contents.
    File(&'a str, &'a str),
    /// A directory: its name and its entries.
    Dir(&'a str, Vec<FsNode<'a>>),
    /// A symbolic link to a file: its name, and the target's path relative
    /// to the directory that holds the link.
    SymlinkFile(&'a str, &'a str),
    /// A symbolic link to a directory: its name, and the target's path
    /// relative to the directory that holds the link.
    SymlinkDir(&'a str, &'a str),
}

impl<'a> FsNode<'a> {
    /// The name of the node within its directory.
    pub fn name(&self) -> (r: &'a str)
        ensures
            r@ == match *self {
                FsNode::File(name, _) => name@,
                FsNode::Dir(name, _) => name@,
                FsNode::SymlinkFile(name, _) => name@,
                FsNode::SymlinkDir(name, _) => name@,
            },
    {
        match self {
            FsNode::File(name, _) => name,
            FsNode::Dir(name, _) => name,
            FsNode::SymlinkFile(name, _) => name,
            FsNode::SymlinkDir(name, _) => name,
        }
    }

    /// What a probe of the node that follows no link tells: its kind, and
    /// for a file the number of bytes of its contents.
    pub fn meta(&self) -> (r: EntryMeta)
        ensures
            r.kind == match *self {
                FsNode::File(..) => EntryKind::File,
                FsNode::Dir(..) => EntryKind::Directory,
                _ => EntryKind::Symlink,
            },
            r.size == match *self {
                FsNode::File(_, contents) => contents.len() as u64,
                _ => 0,
            },
    {
        match self {
            FsNode::File(_, contents) => {
                EntryMeta { kind: EntryKind::File, size: contents.len() as u64 }
            },
            FsNode::Dir(..) => EntryMeta { kind: EntryKind::Directory, size: 0 },
            _ => EntryMeta { kind: EntryKind::Symlink, size: 0 },
        }
    }
}

/// The views of a list of string slices.
pub open spec fn slice_texts(patterns: Seq<&str>) -> Seq<Seq<char>> {
    patterns.map_values(|p: &str| p@)
}

/// The filter for the tree below `root` with the given patterns.
pub fn gitignore_filter(root: &str, patterns: &[&str]) -> (r: GitIgnoreFilter)
    ensures
        r@.root == root@,
        r@.rules == compile_all(slice_texts(patterns@)),
        r@.rejected == reject_all(slice_texts(patterns@)),
{
    let mut owned: Vec<String> = Vec::new();
    let mut i: usize = 0;
    while i < patterns.len()
        invariant
            i <= patterns.len(),
            texts(owned@) == slice_texts(patterns@).take(i as int),
        decreases patterns.len() - i,
    {
        let pattern = patterns[i].to_owned();
        proof {
            assert(texts(owned@.push(pattern)) =~= texts(
                owned@,
            ).push(pattern@));
            assert(slice_texts(patterns@).take(i + 1) =~= slice_texts(patterns@).take(
                i as int,
            ).push(patterns@[i as int]@));
        }
        owned.push(pattern);
        i = i + 1;
    }
    assert(slice_texts(patterns@).take(patterns.len() as int) == slice_texts(patterns@));
    GitIgnoreFilter::new(root, owned.as_slice())
}

} // verus!
