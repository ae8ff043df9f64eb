//! The recursive size aggregator.
//!
//! Walks a snapshot tree and returns the aggregated byte count together
//! with the list of per-path errors met along the way, in traversal order.
//! Errors never abort the walk: an unreadable entry contributes zero.

use vstd::prelude::*;
use crate::model::{DirContent, FsTree, path_of, size_of, sum_sizes};

verus! {

/// One recoverable per-path error: the path it concerns and the error
/// description, destined for the error channel as `<path>: <msg>`.
pub struct ErrorLine {
    pub path: String,
    pub msg: String,
}

impl View for ErrorLine {
    type V = (Seq<char>, Seq<char>);

    open spec fn view(&self) -> (Seq<char>, Seq<char>) {
        (self.path@, self.msg@)
    }
}

/// The spec-level image of a list of error lines.
pub open spec fn error_views(s: Seq<ErrorLine>) -> Seq<(Seq<char>, Seq<char>)> {
    s.map_values(|e: ErrorLine| e@)
}

/// The errors a node's aggregation reports, in traversal order:
/// an unreadable leaf or an unlistable directory reports one line;
/// a marker silences the whole directory; a listed directory reports its
/// children's errors in listing order.
pub open spec fn errors_of(t: FsTree) -> Seq<(Seq<char>, Seq<char>)>
    decreases t,
{
    match t {
        FsTree::Leaf { path, meta } => match meta {
            Ok(_) => seq![],
            Err(msg) => seq![(path@, msg@)],
        },
        FsTree::Dir { path, content, .. } => match content {
            DirContent::Marker(_) => seq![],
            DirContent::Children(cs) => errors_of_seq(cs@),
            DirContent::Unlisted(msg) => seq![(path@, msg@)],
        },
    }
}

/// The concatenation of [`errors_of`] over a sequence of nodes.
pub open spec fn errors_of_seq(s: Seq<FsTree>) -> Seq<(Seq<char>, Seq<char>)>
    decreases s,
{
    if s.len() == 0 {
        seq![]
    } else {
        errors_of(s[0]) + errors_of_seq(s.drop_first())
    }
}

/// A mathematical sum clipped to what a `u64` can hold.
pub open spec fn clip(n: nat) -> nat {
    if n > u64::MAX {
        u64::MAX as nat
    } else {
        n
    }
}

/// Addition that clips at `u64::MAX` instead of overflowing.
pub fn sat_add(a: u64, b: u64) -> (r: u64)
    ensures
        r as nat == clip(a as nat + b as nat),
{
    if a > u64::MAX - b {
        u64::MAX
    } else {
        a + b
    }
}

proof fn lemma_error_views_push(s: Seq<ErrorLine>, e: ErrorLine)
    ensures
        error_views(s.push(e)) == error_views(s).push(e@),
{
    assert(error_views(s.push(e)) =~= error_views(s).push(e@));
}

proof fn lemma_sum_sizes_push(s: Seq<FsTree>, x: FsTree)
    ensures
        sum_sizes(s.push(x)) == sum_sizes(s) + size_of(x),
    decreases s,
{
    if s.len() == 0 {
        assert(s.push(x).drop_first() =~= s);
    } else {
        assert(s.push(x).drop_first() =~= s.drop_first().push(x));
        lemma_sum_sizes_push(s.drop_first(), x);
    }
}

pub(crate) proof fn lemma_errors_of_seq_push(s: Seq<FsTree>, x: FsTree)
    ensures
        errors_of_seq(s.push(x)) == errors_of_seq(s) + errors_of(x),
    decreases s,
{
    if s.len() == 0 {
        assert(s.push(x).drop_first() =~= s);
        assert(errors_of_seq(s.push(x)) =~= errors_of_seq(s) + errors_of(x));
    } else {
        assert(s.push(x).drop_first() =~= s.drop_first().push(x));
        lemma_errors_of_seq_push(s.drop_first(), x);
        assert(errors_of_seq(s.push(x)) =~= errors_of_seq(s) + errors_of(x));
    }
}

/// Aggregates one node of the snapshot: the clipped byte total together
/// with every error met, in traversal order. Handed a node that is not a
/// directory it reports that as an error and contributes nothing, as the
/// scan does for an invalid root.
pub fn aggregate(t: &FsTree) -> (r: (u64, Vec<ErrorLine>))
    ensures
        (t is Dir) ==> r.0 as nat == clip(size_of(*t)) && error_views(r.1@) == errors_of(*t),
        (t is Leaf) ==> r.0 == 0 && error_views(r.1@) == seq![
            (path_of(*t), "invalid input: not a directory"@),
        ],
    decreases *t,
{
    match t {
        FsTree::Leaf { path, .. } => {
            let mut errs: Vec<ErrorLine> = Vec::new();
            errs.push(ErrorLine { path: path.clone(), msg: "invalid input: not a directory".to_owned() });
            proof {
                assert(error_views(errs@) =~= seq![(path@, "invalid input: not a directory"@)]);
            }
            (0, errs)
        }
        FsTree::Dir { path, content, .. } => {
            match content {
                DirContent::Marker(l) => {
                    let errs: Vec<ErrorLine> = Vec::new();
                    proof {
                        assert(error_views(errs@) =~= errors_of(*t));
                    }
                    (*l, errs)
                }
                DirContent::Unlisted(msg) => {
                    let mut errs: Vec<ErrorLine> = Vec::new();
                    errs.push(ErrorLine { path: path.clone(), msg: msg.clone() });
                    proof {
                        assert(error_views(errs@) =~= errors_of(*t));
                    }
                    (0, errs)
                }
                DirContent::Children(cs) => {
                    let (total, errs) = aggregate_children(cs);
                    (total, errs)
                }
            }
        }
    }
}

/// Aggregates a listed directory's children in listing order.
fn aggregate_children(cs: &Vec<FsTree>) -> (r: (u64, Vec<ErrorLine>))
    ensures
        r.0 as nat == clip(sum_sizes(cs@)),
        error_views(r.1@) == errors_of_seq(cs@),
    decreases cs@,
{
    let mut total: u64 = 0;
    let mut errs: Vec<ErrorLine> = Vec::new();
    let mut i: usize = 0;
    while i < cs.len()
        invariant
            i <= cs.len(),
            total as nat == clip(sum_sizes(cs@.take(i as int))),
            error_views(errs@) == errors_of_seq(cs@.take(i as int)),
        decreases cs.len() - i,
    {
        let child = &cs[i];
        proof {
            assert(cs@.take(i as int + 1) =~= cs@.take(i as int).push(cs@[i as int]));
            lemma_sum_sizes_push(cs@.take(i as int), cs@[i as int]);
            lemma_errors_of_seq_push(cs@.take(i as int), cs@[i as int]);
        }
        match child {
            FsTree::Leaf { path, meta } => {
                match meta {
                    Ok(m) => {
                        total = sat_add(total, m.len);
                    }
                    Err(msg) => {
                        errs.push(ErrorLine { path: path.clone(), msg: msg.clone() });
                        proof {
                            assert(error_views(errs@) =~= errors_of_seq(cs@.take(i as int + 1)));
                        }
                    }
                }
            }
            FsTree::Dir { .. } => {
                let (child_total, child_errs) = aggregate(child);
                total = sat_add(total, child_total);
                append_errors(&mut errs, &child_errs);
            }
        }
        i = i + 1;
    }
    proof {
        assert(cs@.take(cs@.len() as int) =~= cs@);
    }
    (total, errs)
}

/// Copies every error of `more` onto the end of `errs`, keeping order.
pub(crate) fn append_errors(errs: &mut Vec<ErrorLine>, more: &Vec<ErrorLine>)
    ensures
        error_views(final(errs)@) == error_views(old(errs)@) + error_views(more@),
{
    let mut j: usize = 0;
    let n: usize = more.len();
    let ghost orig_errs = errs@;
    while j < n
        invariant
            j <= n,
            n == more@.len(),
            error_views(errs@) == error_views(orig_errs) + error_views(more@.take(j as int)),
        decreases n - j,
    {
        let e = ErrorLine { path: more[j].path.clone(), msg: more[j].msg.clone() };
        let ghost prev = errs@;
        errs.push(e);
        proof {
            lemma_error_views_push(prev, e);
            assert(e@ == more@[j as int]@);
            assert(more@.take(j as int + 1) =~= more@.take(j as int).push(more@[j as int]));
            lemma_error_views_push(more@.take(j as int), more@[j as int]);
            assert(error_views(errs@) =~= error_views(orig_errs) + error_views(more@.take(j as int + 1)));
        }
        j = j + 1;
    }
    proof {
        assert(more@.take(n as int) =~= more@);
    }
}

} // verus!
