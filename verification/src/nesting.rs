//! What every allowed trace looks like.
//!
//! The rules for a single call, taken together, give the properties that
//! callers rely on: the open regions always form one path from the editor
//! down to at most one part of one node; every call that closes a region
//! closes the one that was opened last and is still open; and a whole frame
//! closes every region that it opens.

use vstd::prelude::*;
use crate::calls::{
    lemma_refused_stays_refused, lemma_regions_after_push, open_regions, step, well_nested, Call,
    Region,
};

verus! {

/// Whether a region is a part of a node: its title bar, a pin, or an
/// attribute that cannot be connected.
pub open spec fn is_part_of_node(region: Region) -> bool {
    region != Region::Editor && region != Region::Node
}

/// The open regions are nothing, the editor, a node in the editor, or one
/// part of a node in the editor.
pub open spec fn is_nesting_path(open: Seq<Region>) -> bool {
    &&& open.len() <= 3
    &&& open.len() >= 1 ==> open[0] == Region::Editor
    &&& open.len() >= 2 ==> open[1] == Region::Node
    &&& open.len() >= 3 ==> is_part_of_node(open[2])
}

/// The regions open after the first `k` calls of an allowed trace.
pub open spec fn open_at(trace: Seq<Call>, k: int) -> Seq<Region> {
    open_regions(trace.take(k)).unwrap()
}

/// The call at `j` closes the region that the call at `i` opened: the kinds
/// agree, the region stayed open from `i` to `j` with the regions around it
/// untouched, and closing it leaves open what was open before it was opened.
pub open spec fn closes_what_opened(trace: Seq<Call>, i: int, j: int) -> bool {
    &&& 0 <= i < j < trace.len()
    &&& trace[i].opens() is Some
    &&& trace[j].closes()
    &&& trace[j].needs() == trace[i].opens()
    &&& open_at(trace, j + 1) == open_at(trace, i)
    &&& forall|k: int|
        i < k <= j ==> {
            &&& (#[trigger] open_at(trace, k)).len() > open_at(trace, i).len()
            &&& open_at(trace, k).take(open_at(trace, i).len() as int) == open_at(trace, i)
        }
}

/// One allowed step keeps the open regions on one path.
pub proof fn lemma_step_keeps_path(open: Seq<Region>, call: Call)
    requires
        is_nesting_path(open),
        step(open, call) is Some,
    ensures
        is_nesting_path(step(open, call).unwrap()),
{
}

/// Every beginning of an allowed trace is allowed.
pub proof fn lemma_beginnings_allowed(trace: Seq<Call>, k: int)
    requires
        open_regions(trace) is Some,
        0 <= k <= trace.len(),
    ensures
        open_regions(trace.take(k)) is Some,
{
    if open_regions(trace.take(k)) is None {
        lemma_refused_stays_refused(Seq::empty(), trace.take(k), trace.skip(k));
        assert(trace.take(k) + trace.skip(k) =~= trace);
    }
}

/// In an allowed trace, the regions open after call `k` come from those open
/// before it by that call's step.
pub proof fn lemma_open_at_next(trace: Seq<Call>, k: int)
    requires
        open_regions(trace) is Some,
        0 <= k < trace.len(),
    ensures
        step(open_at(trace, k), trace[k]) == Some(open_at(trace, k + 1)),
{
    lemma_beginnings_allowed(trace, k);
    lemma_beginnings_allowed(trace, k + 1);
    lemma_regions_after_push(Seq::empty(), trace.take(k), trace[k]);
    assert(trace.take(k).push(trace[k]) =~= trace.take(k + 1));
}

/// At most one region of each kind is open at a time: after any allowed trace
/// the open regions are nothing, the editor, a node in the editor, or one part
/// of a node in the editor.
pub proof fn lemma_open_regions_form_path(trace: Seq<Call>)
    requires
        open_regions(trace) is Some,
    ensures
        is_nesting_path(open_regions(trace).unwrap()),
    decreases trace.len(),
{
    if trace.len() > 0 {
        let shorter = trace.drop_last();
        assert(shorter =~= trace.take(trace.len() - 1));
        lemma_beginnings_allowed(trace, trace.len() - 1);
        lemma_open_regions_form_path(shorter);
        lemma_step_keeps_path(open_regions(shorter).unwrap(), trace.last());
    }
}

/// Walks back from `k` to the call that opened the region which the call at
/// `j` closes. From `k` to `j` that region and those around it are known to
/// have stayed open.
proof fn lemma_walk_back_to_opening(trace: Seq<Call>, j: int, k: int) -> (i: int)
    requires
        open_regions(trace) is Some,
        0 <= k <= j < trace.len(),
        open_at(trace, j).len() >= 1,
        forall|m: int|
            k <= m <= j ==> {
                &&& (#[trigger] open_at(trace, m)).len() >= open_at(trace, j).len()
                &&& open_at(trace, m).take(open_at(trace, j).len() as int) == open_at(trace, j)
            },
    ensures
        0 <= i < k,
        trace[i].opens() == Some(open_at(trace, j).last()),
        open_at(trace, i) == open_at(trace, j).drop_last(),
        forall|m: int|
            i < m <= j ==> {
                &&& (#[trigger] open_at(trace, m)).len() >= open_at(trace, j).len()
                &&& open_at(trace, m).take(open_at(trace, j).len() as int) == open_at(trace, j)
            },
    decreases k,
{
    let depth = open_at(trace, j).len() as int;
    let here = open_at(trace, k);
    assert(here.len() >= depth && here.take(depth) == open_at(trace, j));
    assert(k >= 1) by {
        if k == 0 {
            assert(trace.take(0) =~= Seq::<Call>::empty());
        }
    }
    let before = open_at(trace, k - 1);
    lemma_open_at_next(trace, k - 1);
    let call = trace[k - 1];
    assert(step(before, call) == Some(here));
    if before.len() >= depth {
        assert(before.take(depth) =~= here.take(depth));
        lemma_walk_back_to_opening(trace, j, k - 1)
    } else {
        assert(call.opens() is Some);
        assert(here =~= before.push(call.opens().unwrap()));
        assert(before.len() == depth - 1);
        assert(here.take(depth) =~= here);
        assert(before =~= open_at(trace, j).drop_last());
        k - 1
    }
}

/// Regions close in the reverse of the order they were opened in: in an
/// allowed trace, every call that closes a region closes the one opened by an
/// earlier call of the matching kind, which was the innermost one still open.
pub proof fn lemma_closes_innermost_open(trace: Seq<Call>, j: int) -> (i: int)
    requires
        open_regions(trace) is Some,
        0 <= j < trace.len(),
        trace[j].closes(),
    ensures
        closes_what_opened(trace, i, j),
{
    lemma_open_at_next(trace, j);
    let top = open_at(trace, j);
    assert(top.len() >= 1);
    assert(top.take(top.len() as int) =~= top);
    let i = lemma_walk_back_to_opening(trace, j, j);
    assert(open_at(trace, j + 1) == top.drop_last());
    assert forall|k: int| i < k <= j implies {
        &&& (#[trigger] open_at(trace, k)).len() > open_at(trace, i).len()
        &&& open_at(trace, k).take(open_at(trace, i).len() as int) == open_at(trace, i)
    } by {
        let at = open_at(trace, k);
        assert(at.len() >= top.len() && at.take(top.len() as int) == top);
        assert(at.take(top.len() - 1) =~= at.take(top.len() as int).drop_last());
    }
    i
}

/// Walks on from `k` to the call that closes the region which the call at `i`
/// opened. Up to `k` that region is known to have stayed open.
proof fn lemma_walk_on_to_closing(trace: Seq<Call>, i: int, k: int) -> (j: int)
    requires
        well_nested(trace),
        0 <= i < k <= trace.len(),
        trace[i].opens() is Some,
        forall|m: int|
            i < m <= k ==> {
                &&& (#[trigger] open_at(trace, m)).len() > open_at(trace, i).len()
                &&& open_at(trace, m).take(open_at(trace, i).len() as int + 1) == open_at(trace, i + 1)
            },
    ensures
        closes_what_opened(trace, i, j),
    decreases trace.len() - k,
{
    let depth = open_at(trace, i).len() as int;
    let here = open_at(trace, k);
    assert(here.len() > depth && here.take(depth + 1) == open_at(trace, i + 1));
    assert(k < trace.len()) by {
        if k == trace.len() {
            assert(trace.take(k) =~= trace);
        }
    }
    lemma_open_at_next(trace, i);
    lemma_open_at_next(trace, k);
    let opened = open_at(trace, i + 1);
    let after = open_at(trace, k + 1);
    assert(opened =~= open_at(trace, i).push(trace[i].opens().unwrap()));
    if after.len() > depth {
        assert(after.take(depth + 1) =~= here.take(depth + 1));
        lemma_walk_on_to_closing(trace, i, k + 1)
    } else {
        assert(trace[k].closes());
        assert(here.len() == depth + 1);
        assert(here.take(depth + 1) =~= here);
        assert(after =~= open_at(trace, i));
        assert forall|m: int| i < m <= k implies {
            &&& (#[trigger] open_at(trace, m)).len() > open_at(trace, i).len()
            &&& open_at(trace, m).take(open_at(trace, i).len() as int) == open_at(trace, i)
        } by {
            let at = open_at(trace, m);
            assert(at.take(depth + 1) == opened);
            assert(at.take(depth) =~= at.take(depth + 1).drop_last());
            assert(opened.drop_last() =~= open_at(trace, i));
        }
        k
    }
}

/// Every region that a well nested trace opens, it closes: a later call of
/// the matching kind closes it, after everything opened inside it has been
/// closed.
pub proof fn lemma_opened_region_is_closed(trace: Seq<Call>, i: int) -> (j: int)
    requires
        well_nested(trace),
        0 <= i < trace.len(),
        trace[i].opens() is Some,
    ensures
        closes_what_opened(trace, i, j),
{
    lemma_open_at_next(trace, i);
    let opened = open_at(trace, i + 1);
    assert(opened.take(open_at(trace, i).len() as int + 1) =~= opened);
    lemma_walk_on_to_closing(trace, i, i + 1)
}

} // verus!
