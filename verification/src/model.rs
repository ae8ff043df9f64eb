//! The snapshot model of a scanned file tree.
//!
//! A scan works on plain values recorded while walking the filesystem:
//! for every entry its `lstat` metadata (kind, device, byte length), and for
//! every directory that was descended into either the size of a `.nobackup`
//! marker file, the list of children, or the listing error.

use vstd::prelude::*;

verus! {

/// What kind of filesystem object an entry is, as `lstat` reports it
/// (a symbolic link is reported as itself, never followed).
#[derive(Clone, Copy, PartialEq, Eq, Structural)]
pub enum FileKind {
    Regular,
    Directory,
    Symlink,
    Other,
}

/// The metadata of one entry: its kind, the identifier of the device it
/// resides on, and its byte length.
#[derive(Clone, Copy, PartialEq, Eq, Structural)]
pub struct Meta {
    pub kind: FileKind,
    pub dev: u64,
    pub len: u64,
}

/// What was found inside a directory that qualified for descent.
pub enum DirContent {
    /// A `.nobackup` regular file was present; its byte length. The
    /// directory was not listed: the marker alone stands for the subtree.
    Marker(u64),
    /// The immediate children, in the order the directory listing yielded
    /// them.
    Children(Vec<FsTree>),
    /// The directory listing failed; the error description.
    Unlisted(String),
}

/// One node of the snapshot: either an entry that was not descended into
/// (a file, a symbolic link, a directory excluded by classification, or an
/// entry whose metadata could not be read), or a directory that was.
#[allow(inconsistent_fields)]
pub enum FsTree {
    Leaf { path: String, meta: Result<Meta, String> },
    Dir { path: String, meta: Meta, content: DirContent },
}

/// The aggregated size of a node, in bytes:
/// a leaf contributes its own metadata length (zero if the metadata could
/// not be read); a directory with a marker contributes exactly the marker's
/// length; an unlistable directory contributes zero; a listed directory
/// contributes the sum over its children.
pub open spec fn size_of(t: FsTree) -> nat
    decreases t,
{
    match t {
        FsTree::Leaf { meta, .. } => match meta {
            Ok(m) => m.len as nat,
            Err(_) => 0,
        },
        FsTree::Dir { content, .. } => match content {
            DirContent::Marker(l) => l as nat,
            DirContent::Children(cs) => sum_sizes(cs@),
            DirContent::Unlisted(_) => 0,
        },
    }
}

/// The path a node was recorded under.
pub open spec fn path_of(t: FsTree) -> Seq<char> {
    match t {
        FsTree::Leaf { path, .. } => path@,
        FsTree::Dir { path, .. } => path@,
    }
}

/// The name of the short-circuit marker file: a directory holding a
/// regular file of this name is sized by that file alone and never listed.
pub fn marker_file_name() -> (r: &'static str)
    ensures
        r@ == ".nobackup"@,
{
    ".nobackup"
}

/// The sum of [`size_of`] over a sequence of nodes.
pub open spec fn sum_sizes(s: Seq<FsTree>) -> nat
    decreases s,
{
    if s.len() == 0 {
        0
    } else {
        size_of(s[0]) + sum_sizes(s.drop_first())
    }
}

} // verus!
