//! The general laws of the scan, stated and proved over the snapshot model.

use vstd::prelude::*;
use crate::model::{DirContent, FileKind, FsTree, Meta, size_of, sum_sizes};
use crate::classify::spec_should_visit;
use crate::aggregate::errors_of;

verus! {

/// A snapshot is well formed for a containment device when every directory
/// node in it passed classification: its metadata was readable, it is a
/// real directory, and — with containment enabled — it lies on the
/// containment device. A snapshot built by descending only where
/// [`crate::classify::should_visit`] said so has this shape.
pub open spec fn tree_wf(t: FsTree, containment_dev: Option<u64>) -> bool
    decreases t,
{
    match t {
        FsTree::Leaf { .. } => true,
        FsTree::Dir { meta, content, .. } => spec_should_visit(Ok(meta), containment_dev)
            && match content {
                DirContent::Children(cs) => forall|i: int|
                    0 <= i < cs@.len() ==> tree_wf(#[trigger] cs@[i], containment_dev),
                _ => true,
            },
    }
}

/// Every directory node of the snapshot, the root included, lies on
/// device `d`.
pub open spec fn dirs_on_device(t: FsTree, d: u64) -> bool
    decreases t,
{
    match t {
        FsTree::Leaf { .. } => true,
        FsTree::Dir { meta, content, .. } => meta.dev == d && match content {
            DirContent::Children(cs) => forall|i: int|
                0 <= i < cs@.len() ==> dirs_on_device(#[trigger] cs@[i], d),
            _ => true,
        },
    }
}

/// A snapshot of directories and regular files alone, completely recorded:
/// no marker truncated it, every listing and every metadata read
/// succeeded, and every leaf is a regular file.
pub open spec fn plain_tree(t: FsTree) -> bool
    decreases t,
{
    match t {
        FsTree::Leaf { meta, .. } => match meta {
            Ok(m) => m.kind == FileKind::Regular,
            Err(_) => false,
        },
        FsTree::Dir { content, .. } => match content {
            DirContent::Children(cs) => forall|i: int|
                0 <= i < cs@.len() ==> plain_tree(#[trigger] cs@[i]),
            _ => false,
        },
    }
}

/// The sum of the byte lengths of the regular files recorded in the
/// snapshot.
pub open spec fn files_sum(t: FsTree) -> nat
    decreases t,
{
    match t {
        FsTree::Leaf { meta, .. } => match meta {
            Ok(m) => if m.kind == FileKind::Regular {
                m.len as nat
            } else {
                0
            },
            Err(_) => 0,
        },
        FsTree::Dir { content, .. } => match content {
            DirContent::Children(cs) => files_sum_seq(cs@),
            _ => 0,
        },
    }
}

/// The sum of [`files_sum`] over a sequence of nodes.
pub open spec fn files_sum_seq(s: Seq<FsTree>) -> nat
    decreases s,
{
    if s.len() == 0 {
        0
    } else {
        files_sum(s[0]) + files_sum_seq(s.drop_first())
    }
}

/// For a completely recorded tree of directories and regular files — no
/// symbolic links, no `.nobackup` markers, no failures — the aggregated
/// size equals the sum of the byte lengths of all regular files
/// transitively contained in it.
pub proof fn lemma_size_is_file_sum(t: FsTree)
    requires
        plain_tree(t),
    ensures
        size_of(t) == files_sum(t),
    decreases t,
{
    match t {
        FsTree::Leaf { .. } => {}
        FsTree::Dir { content, .. } => match content {
            DirContent::Children(cs) => {
                lemma_size_is_file_sum_seq(cs@);
            }
            _ => {}
        },
    }
}

proof fn lemma_size_is_file_sum_seq(s: Seq<FsTree>)
    requires
        forall|i: int| 0 <= i < s.len() ==> plain_tree(#[trigger] s[i]),
    ensures
        sum_sizes(s) == files_sum_seq(s),
    decreases s,
{
    if s.len() > 0 {
        lemma_size_is_file_sum(s[0]);
        assert(forall|i: int| 0 <= i < s.drop_first().len() ==> plain_tree(
            #[trigger] s.drop_first()[i],
        ));
        lemma_size_is_file_sum_seq(s.drop_first());
    }
}

/// A child that is a symbolic link never qualifies for descent — the
/// classification goes by the entry's own metadata, taken without
/// following the link — and as a leaf it is sized by that metadata's
/// length, never by what the link points at.
pub proof fn lemma_symlink_child(path: String, m: Meta, containment_dev: Option<u64>)
    requires
        m.kind == FileKind::Symlink,
    ensures
        !spec_should_visit(Ok(m), containment_dev),
        size_of(FsTree::Leaf { path, meta: Ok(m) }) == m.len,
{
}

/// A directory holding a `.nobackup` regular-file marker reports exactly
/// the marker's byte size as its whole total — whatever else it contains
/// was never recorded — and reports no errors from under it.
pub proof fn lemma_marker_truncates(path: String, meta: Meta, marker_len: u64)
    ensures
        size_of(FsTree::Dir { path, meta, content: DirContent::Marker(marker_len) })
            == marker_len,
        errors_of(FsTree::Dir { path, meta, content: DirContent::Marker(marker_len) })
            == Seq::<(Seq<char>, Seq<char>)>::empty(),
{
    assert(errors_of(FsTree::Dir { path, meta, content: DirContent::Marker(marker_len) })
        =~= Seq::<(Seq<char>, Seq<char>)>::empty());
}

/// With containment enabled, every directory that was descended into lies
/// on the containment device: no file on another device was ever recorded,
/// so none contributes to any total.
pub proof fn lemma_containment(t: FsTree, d: u64)
    requires
        tree_wf(t, Some(d)),
    ensures
        dirs_on_device(t, d),
    decreases t,
{
    match t {
        FsTree::Leaf { .. } => {}
        FsTree::Dir { content, .. } => match content {
            DirContent::Children(cs) => {
                assert forall|i: int| 0 <= i < cs@.len() implies dirs_on_device(
                    #[trigger] cs@[i],
                    d,
                ) by {
                    lemma_containment(cs@[i], d);
                }
            }
            _ => {}
        },
    }
}

/// An entry on a different device than the containment device never
/// qualifies for descent; it stands as a leaf sized by its own metadata,
/// not traversed.
pub proof fn lemma_foreign_device_leaf(path: String, m: Meta, d: u64)
    requires
        m.dev != d,
    ensures
        !spec_should_visit(Ok(m), Some(d)),
        size_of(FsTree::Leaf { path, meta: Ok(m) }) == m.len,
{
}

} // verus!
