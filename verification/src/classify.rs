//! The entry classifier: which entries qualify for recursive descent.

use vstd::prelude::*;
use crate::model::{FileKind, Meta};

verus! {

/// An entry qualifies for descent exactly when its metadata could be read,
/// it is a real directory (a symbolic link never qualifies, since the
/// metadata is taken without following links), and — when a containment
/// device is given — it resides on that device.
pub open spec fn spec_should_visit(meta: Result<Meta, Seq<char>>, containment_dev: Option<u64>) -> bool {
    match meta {
        Err(_) => false,
        Ok(m) => m.kind == FileKind::Directory && match containment_dev {
            Some(d) => m.dev == d,
            None => true,
        },
    }
}

/// Decides whether an entry is a directory that the scan should recursively
/// descend into.
pub fn should_visit(meta: &Result<Meta, String>, containment_dev: Option<u64>) -> (r: bool)
    ensures
        r == spec_should_visit(view_meta(*meta), containment_dev),
{
    match meta {
        Err(_) => false,
        Ok(m) => {
            if !matches!(m.kind, FileKind::Directory) {
                false
            } else {
                match containment_dev {
                    Some(d) => m.dev == d,
                    None => true,
                }
            }
        }
    }
}

/// The spec-level image of an entry's metadata result.
pub open spec fn view_meta(meta: Result<Meta, String>) -> Result<Meta, Seq<char>> {
    match meta {
        Ok(m) => Ok(m),
        Err(e) => Err(e@),
    }
}

} // verus!
