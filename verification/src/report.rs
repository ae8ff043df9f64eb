//! The ranked reporter: one (path, aggregated size) pair per top-level
//! child, ordered ascending by size, with a clipped grand total.
//!
//! Entries with equal sizes are all kept: the ordering ties are broken by
//! keeping the listing order stable, so no entry is ever coalesced away.

use vstd::prelude::*;
use vstd::multiset::Multiset;
use crate::model::{FsTree, path_of, size_of};
use crate::aggregate::{aggregate, clip, error_views, errors_of_seq, sat_add, ErrorLine};

verus! {

broadcast use vstd::seq_lib::group_to_multiset_ensures;

/// One reportable top-level entry: its path and its aggregated byte size.
pub struct ScanTarget {
    pub path: String,
    pub size: u64,
}

impl View for ScanTarget {
    type V = (Seq<char>, u64);

    open spec fn view(&self) -> (Seq<char>, u64) {
        (self.path@, self.size)
    }
}

/// The spec-level image of a list of scan targets.
pub open spec fn target_views(s: Seq<ScanTarget>) -> Seq<(Seq<char>, u64)> {
    s.map_values(|t: ScanTarget| t@)
}

/// Ascending by size: every earlier entry is no larger than every later one.
pub open spec fn ranked(s: Seq<ScanTarget>) -> bool {
    forall|i: int, j: int| #![trigger s[i], s[j]] 0 <= i <= j < s.len() ==> s[i].size <= s[j].size
}

/// A clipped size as the `u64` the report carries.
pub open spec fn clip64(n: nat) -> u64 {
    clip(n) as u64
}

/// The reportable pair a top-level child turns into: its path and its
/// aggregated size, clipped to `u64`.
pub open spec fn child_target(t: FsTree) -> (Seq<char>, u64) {
    (path_of(t), clip64(size_of(t)))
}

/// The reportable pairs of a list of top-level children, in listing order.
pub open spec fn child_targets(s: Seq<FsTree>) -> Seq<(Seq<char>, u64)> {
    s.map_values(|t: FsTree| child_target(t))
}

/// A target placed into a list after every entry whose size is no larger:
/// the position an ascending insertion gives it, with equal sizes keeping
/// their arrival order.
pub open spec fn spec_insert(s: Seq<ScanTarget>, t: ScanTarget) -> Seq<ScanTarget>
    decreases s,
{
    if s.len() == 0 {
        seq![t]
    } else if s[0].size <= t.size {
        seq![s[0]] + spec_insert(s.drop_first(), t)
    } else {
        seq![t] + s
    }
}

/// The ranked order of a list of targets: each inserted in turn by
/// [`spec_insert`], so the order is ascending by size and stable on ties.
pub open spec fn spec_rank(s: Seq<ScanTarget>) -> Seq<ScanTarget>
    decreases s,
{
    if s.len() == 0 {
        Seq::empty()
    } else {
        spec_insert(spec_rank(s.drop_last()), s.last())
    }
}

proof fn lemma_spec_insert_at(s: Seq<ScanTarget>, t: ScanTarget, p: int)
    requires
        0 <= p <= s.len(),
        forall|i: int| 0 <= i < p ==> s[i].size <= t.size,
        p < s.len() ==> s[p].size > t.size,
    ensures
        spec_insert(s, t) == s.insert(p, t),
    decreases s,
{
    if p == 0 {
        assert(spec_insert(s, t) =~= s.insert(0, t));
    } else {
        lemma_spec_insert_at(s.drop_first(), t, p - 1);
        assert(spec_insert(s, t) =~= s.insert(p, t));
    }
}

/// Inserts one target into an ascending list, after every entry whose size
/// is no larger, so that equal sizes keep their arrival order.
fn insert_ranked(v: &mut Vec<ScanTarget>, t: ScanTarget)
    requires
        ranked(old(v)@),
    ensures
        final(v)@ == spec_insert(old(v)@, t),
        ranked(final(v)@),
        target_views(final(v)@).to_multiset() == target_views(old(v)@).to_multiset().insert(t@),
        final(v)@.len() == old(v)@.len() + 1,
{
    let mut p: usize = 0;
    while p < v.len() && v[p].size <= t.size
        invariant
            p <= v@.len(),
            v@ == old(v)@,
            forall|i: int| 0 <= i < p ==> v@[i].size <= t.size,
        decreases v@.len() - p,
    {
        p = p + 1;
    }
    let ghost before = v@;
    let ghost pos = p as int;
    v.insert(p, t);
    proof {
        before.insert_ensures(pos, t);
        lemma_spec_insert_at(before, t, pos);
        assert forall|i: int, j: int| 0 <= i <= j < v@.len() implies v@[i].size <= v@[j].size by {
            if j < pos {
                assert(v@[i] == before[i] && v@[j] == before[j]);
            } else if i > pos {
                assert(v@[i] == before[i - 1] && v@[j] == before[j - 1]);
            } else if i < pos && j == pos {
                assert(v@[i] == before[i]);
            } else if i < pos && j > pos {
                assert(v@[i] == before[i] && v@[j] == before[j - 1]);
            } else if i == pos && j > pos {
                assert(v@[j] == before[j - 1]);
                assert(pos < before.len() ==> t.size < before[pos].size);
            }
        }
        assert(target_views(before.insert(pos, t)) =~= target_views(before).insert(pos, t@));
        vstd::seq_lib::to_multiset_insert(target_views(before), pos, t@);
    }
}

/// Orders the collected targets ascending by size, keeping every entry:
/// the result is exactly the stable insertion order of the input, and so
/// a permutation of it — ties in size lose nothing.
pub fn rank_targets(targets: Vec<ScanTarget>) -> (r: Vec<ScanTarget>)
    ensures
        r@ == spec_rank(targets@),
        ranked(r@),
        target_views(r@).to_multiset() == target_views(targets@).to_multiset(),
        r@.len() == targets@.len(),
{
    let mut rest = targets;
    let mut out: Vec<ScanTarget> = Vec::new();
    while rest.len() > 0
        invariant
            ranked(out@),
            out@ == spec_rank(targets@.take(targets@.len() - rest@.len())),
            rest@ == targets@.skip(targets@.len() - rest@.len()),
            target_views(out@).to_multiset().add(target_views(rest@).to_multiset())
                == target_views(targets@).to_multiset(),
            out@.len() + rest@.len() == targets@.len(),
        decreases rest@.len(),
    {
        let ghost prev_rest = rest@;
        let ghost done = targets@.len() - prev_rest.len();
        let t = rest.remove(0);
        proof {
            assert(rest@ =~= prev_rest.remove(0));
            assert(rest@ =~= targets@.skip(done + 1));
            assert(t == targets@[done]);
            assert(target_views(prev_rest.remove(0)) =~= target_views(prev_rest).remove(0));
            assert(target_views(prev_rest).remove(0).to_multiset()
                == target_views(prev_rest).to_multiset().remove(target_views(prev_rest)[0]));
            assert(target_views(prev_rest)[0] == t@);
        }
        insert_ranked(&mut out, t);
        proof {
            assert(targets@.take(done + 1).drop_last() =~= targets@.take(done));
            assert(targets@.take(done + 1).last() == targets@[done]);
            assert(out@ == spec_rank(targets@.take(done + 1)));
            assert(target_views(out@).to_multiset().add(target_views(rest@).to_multiset())
                =~= target_views(targets@).to_multiset());
        }
    }
    proof {
        assert(targets@.take(targets@.len() as int) =~= targets@);
        assert(target_views(rest@).to_multiset() =~= Multiset::empty());
        assert(target_views(out@).to_multiset().add(Multiset::empty())
            =~= target_views(out@).to_multiset());
    }
    out
}

/// The mathematical sum of the targets' sizes, in listing order.
pub open spec fn sum_targets(s: Seq<ScanTarget>) -> nat
    decreases s,
{
    if s.len() == 0 {
        0
    } else {
        s[0].size as nat + sum_targets(s.drop_first())
    }
}

proof fn lemma_sum_targets_push(s: Seq<ScanTarget>, x: ScanTarget)
    ensures
        sum_targets(s.push(x)) == sum_targets(s) + x.size,
    decreases s,
{
    if s.len() == 0 {
        assert(s.push(x).drop_first() =~= s);
    } else {
        assert(s.push(x).drop_first() =~= s.drop_first().push(x));
        lemma_sum_targets_push(s.drop_first(), x);
    }
}

/// The grand total: the sum of the entries' sizes, clipped to `u64`.
pub fn total_of(ts: &Vec<ScanTarget>) -> (r: u64)
    ensures
        r as nat == clip(sum_targets(ts@)),
{
    let mut total: u64 = 0;
    let mut i: usize = 0;
    while i < ts.len()
        invariant
            i <= ts@.len(),
            total as nat == clip(sum_targets(ts@.take(i as int))),
        decreases ts@.len() - i,
    {
        proof {
            assert(ts@.take(i as int + 1) =~= ts@.take(i as int).push(ts@[i as int]));
            lemma_sum_targets_push(ts@.take(i as int), ts@[i as int]);
        }
        total = sat_add(total, ts[i].size);
        i = i + 1;
    }
    proof {
        assert(ts@.take(ts@.len() as int) =~= ts@);
    }
    total
}

/// The grand total equals the arithmetic sum of the per-entry sizes
/// exactly, whenever that sum fits the report's 64-bit counter: clipping
/// never alters a representable total, and the size formatting has no hand
/// in it at all.
pub proof fn lemma_total_exact(s: Seq<ScanTarget>)
    requires
        sum_targets(s) <= u64::MAX,
    ensures
        clip(sum_targets(s)) == sum_targets(s),
{
}

/// The entry a top-level child turns into: its recorded path, sized by its
/// clipped aggregated byte count.
pub open spec fn spec_child_target(t: FsTree) -> ScanTarget {
    match t {
        FsTree::Leaf { path, .. } => ScanTarget { path, size: clip64(size_of(t)) },
        FsTree::Dir { path, .. } => ScanTarget { path, size: clip64(size_of(t)) },
    }
}

/// The entries of a list of top-level children, in listing order, before
/// ranking.
pub open spec fn spec_child_targets(s: Seq<FsTree>) -> Seq<ScanTarget> {
    s.map_values(|t: FsTree| spec_child_target(t))
}

proof fn lemma_spec_child_targets_push(s: Seq<FsTree>, x: FsTree)
    ensures
        spec_child_targets(s.push(x)) == spec_child_targets(s).push(spec_child_target(x)),
{
    assert(spec_child_targets(s.push(x)) =~= spec_child_targets(s).push(spec_child_target(x)));
}

/// A finished scan: the ranked entries, the clipped grand total of their
/// sizes, and every recoverable error met, in traversal order.
pub struct Report {
    pub entries: Vec<ScanTarget>,
    pub total: u64,
    pub errors: Vec<ErrorLine>,
}

/// Summarizes the scan root's immediate children: each becomes one entry
/// sized by its aggregated byte count (a child that was descended into by
/// the recursive sum under it, any other by its own recorded metadata,
/// zero if that failed), the entries are ordered ascending by size, and
/// the grand total is their clipped sum.
pub fn summarize(children: &Vec<FsTree>) -> (r: Report)
    ensures
        r.entries@ == spec_rank(spec_child_targets(children@)),
        ranked(r.entries@),
        target_views(r.entries@).to_multiset() == child_targets(children@).to_multiset(),
        r.entries@.len() == children@.len(),
        r.total as nat == clip(sum_targets(r.entries@)),
        error_views(r.errors@) == errors_of_seq(children@),
{
    let mut targets: Vec<ScanTarget> = Vec::new();
    let mut errors: Vec<ErrorLine> = Vec::new();
    let mut i: usize = 0;
    while i < children.len()
        invariant
            i <= children@.len(),
            targets@ == spec_child_targets(children@.take(i as int)),
            error_views(errors@) == errors_of_seq(children@.take(i as int)),
        decreases children@.len() - i,
    {
        let child = &children[i];
        proof {
            assert(children@.take(i as int + 1) =~= children@.take(i as int).push(children@[i as int]));
            crate::aggregate::lemma_errors_of_seq_push(children@.take(i as int), children@[i as int]);
        }
        let size: u64 = match child {
            FsTree::Leaf { path, meta } => {
                match meta {
                    Ok(m) => m.len,
                    Err(msg) => {
                        errors.push(ErrorLine { path: path.clone(), msg: msg.clone() });
                        0
                    }
                }
            }
            FsTree::Dir { .. } => {
                let (sz, child_errs) = aggregate(child);
                crate::aggregate::append_errors(&mut errors, &child_errs);
                sz
            }
        };
        let child_path = match child {
            FsTree::Leaf { path, .. } => path.clone(),
            FsTree::Dir { path, .. } => path.clone(),
        };
        let target = ScanTarget { path: child_path, size };
        let ghost prev_targets = targets@;
        targets.push(target);
        proof {
            assert(size == clip64(size_of(children@[i as int])));
            assert(target == spec_child_target(children@[i as int]));
            assert(targets@ == prev_targets.push(target));
            lemma_spec_child_targets_push(children@.take(i as int), children@[i as int]);
            assert(targets@ == spec_child_targets(children@.take(i as int + 1)));
            assert(error_views(errors@) =~= errors_of_seq(children@.take(i as int + 1)));
        }
        i = i + 1;
    }
    proof {
        assert(children@.take(children@.len() as int) =~= children@);
        assert(target_views(spec_child_targets(children@)) =~= child_targets(children@));
    }
    let entries = rank_targets(targets);
    let total = total_of(&entries);
    Report { entries, total, errors }
}

} // verus!
