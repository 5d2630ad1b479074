use vstd::prelude::*;
use crate::segment::{accepted, justified, tiles, Segment, Verdicts};
use crate::window::{window, Window};

verus! {

/// A fit that answers each window in one way only.
pub type Oracle<A> = spec_fn(Window) -> Option<A>;

/// The verdicts of a fit that always answers as `acc` does.
pub open spec fn graph<A>(acc: Oracle<A>) -> Verdicts<A> {
    |w: Window, r: Option<A>| r == acc(w)
}

/// Every answer that `rel` allows is the one that `acc` gives.
pub open spec fn functional<A>(rel: Verdicts<A>, acc: Oracle<A>) -> bool {
    forall|w: Window, r: Option<A>| #[trigger] rel(w, r) ==> r == acc(w)
}

/// Where the scan from `first` stops when it has reached `last`: the end of
/// the first window, from `last` on, that is rejected or does not fit the
/// buffer.
pub open spec fn reach<A>(acc: Oracle<A>, len: int, first: int, last: int) -> int
    decreases len - last,
{
    if last < len && acc(window(first, last)).is_some() {
        reach(acc, len, first, last + 1)
    } else {
        last
    }
}

/// The segments that the greedy rule commits for the moves `first..len`.
pub open spec fn plan<A>(acc: Oracle<A>, len: int, min_match: int, first: int) -> Seq<Segment<A>>
    decreases len - first,
{
    if first < 0 || first >= len || min_match < 2 {
        Seq::empty()
    } else {
        let start = first + min_match - 1;
        let stop = reach(acc, len, first, start);
        if stop > start {
            proof {
                lemma_reach(acc, len, first, start);
            }
            seq![
                Segment::Arc {
                    first: first as usize,
                    last: (stop - 1) as usize,
                    arc: acc(window(first, stop - 1)).unwrap(),
                },
            ] + plan(acc, len, min_match, stop)
        } else {
            seq![Segment::Linear { index: first as usize }] + plan(acc, len, min_match, first + 1)
        }
    }
}

/// The scan stops at or after the window it started from and within the
/// buffer, accepts every window that it passes, and stops at a rejected
/// window unless the buffer ends first.
pub proof fn lemma_reach<A>(acc: Oracle<A>, len: int, first: int, last: int)
    ensures
        reach(acc, len, first, last) >= last,
        last <= len ==> reach(acc, len, first, last) <= len,
        forall|j: int|
            last <= j < reach(acc, len, first, last) ==> acc(#[trigger] window(first, j)).is_some(),
        reach(acc, len, first, last) < len ==> acc(
            window(first, reach(acc, len, first, last)),
        ).is_none(),
    decreases len - last,
{
    if last < len && acc(window(first, last)).is_some() {
        lemma_reach(acc, len, first, last + 1);
    }
}

/// A scan over accepted windows only stops where they end.
pub proof fn lemma_reach_stops<A>(acc: Oracle<A>, len: int, first: int, last: int, stop: int)
    requires
        last <= stop <= len,
        forall|j: int| last <= j < stop ==> acc(#[trigger] window(first, j)).is_some(),
        stop < len ==> acc(window(first, stop)).is_none(),
    ensures
        reach(acc, len, first, last) == stop,
    decreases stop - last,
{
    if last < stop {
        assert(acc(window(first, last)).is_some());
        lemma_reach_stops(acc, len, first, last + 1, stop);
    }
}

/// The plan consumes every move from `first` to the end of the buffer, each
/// once and in order.
pub proof fn lemma_plan_tiles<A>(acc: Oracle<A>, len: int, min_match: int, first: int)
    requires
        0 <= first <= len <= usize::MAX,
        min_match >= 2,
    ensures
        tiles(plan(acc, len, min_match, first), first, len),
    decreases len - first,
{
    if first < len {
        let start = first + min_match - 1;
        let stop = reach(acc, len, first, start);
        lemma_reach(acc, len, first, start);
        let next = if stop > start { stop } else { first + 1 };
        let segs = plan(acc, len, min_match, first);
        let rest = plan(acc, len, min_match, next);
        lemma_plan_tiles(acc, len, min_match, next);
        assert(segs.skip(1) =~= rest);
        assert(segs[0].start() == first && segs[0].end() + 1 == next);
    }
}

/// Every segment of the plan is one that the greedy rule may commit, for a
/// fit that answers as `acc` does.
pub proof fn lemma_plan_justified<A>(acc: Oracle<A>, len: int, min_match: int, first: int)
    requires
        0 <= first <= len <= usize::MAX,
        min_match >= 2,
    ensures
        forall|k: int|
            0 <= k < plan(acc, len, min_match, first).len() ==> justified(
                graph(acc),
                len,
                min_match,
                #[trigger] plan(acc, len, min_match, first)[k],
            ),
    decreases len - first,
{
    if first < len {
        let start = first + min_match - 1;
        let stop = reach(acc, len, first, start);
        lemma_reach(acc, len, first, start);
        let next = if stop > start { stop } else { first + 1 };
        let segs = plan(acc, len, min_match, first);
        let head = segs[0];
        let rest = plan(acc, len, min_match, next);
        lemma_plan_justified(acc, len, min_match, next);
        assert(segs =~= seq![head] + rest);
        if stop > start {
            assert forall|j: int| first + min_match - 1 <= j < stop - 1 implies accepted(
                graph(acc),
                #[trigger] window(first, j),
            ) by {
                let a = acc(window(first, j)).unwrap();
                assert(graph(acc)(window(first, j), Some(a)));
            }
            assert(acc(window(first, stop - 1)).is_some());
        }
        assert(justified(graph(acc), len, min_match, head));
        assert forall|k: int| 0 <= k < segs.len() implies justified(
            graph(acc),
            len,
            min_match,
            #[trigger] segs[k],
        ) by {
            if k > 0 {
                assert(segs[k] == rest[k - 1]);
            }
        }
    }
}

/// The greedy rule leaves no choice: for a fit that answers each window in
/// one way only, segments that consume the moves `first..len` in order and
/// are each justified are exactly the plan.
pub proof fn lemma_plan_unique<A>(
    rel: Verdicts<A>,
    acc: Oracle<A>,
    len: int,
    min_match: int,
    first: int,
    segs: Seq<Segment<A>>,
)
    requires
        min_match >= 2,
        len <= usize::MAX,
        functional(rel, acc),
        tiles(segs, first, len),
        forall|k: int| 0 <= k < segs.len() ==> justified(rel, len, min_match, #[trigger] segs[k]),
    ensures
        segs == plan(acc, len, min_match, first),
    decreases len - first,
{
    if first >= len {
        assert(segs =~= plan(acc, len, min_match, first));
    } else {
        let start = first + min_match - 1;
        let head = segs[0];
        let rest = segs.skip(1);
        assert(justified(rel, len, min_match, head));
        let next = head.end() + 1;
        assert forall|k: int| 0 <= k < rest.len() implies justified(
            rel,
            len,
            min_match,
            #[trigger] rest[k],
        ) by {
            assert(rest[k] == segs[k + 1]);
        }
        lemma_plan_unique(rel, acc, len, min_match, next, rest);
        match head {
            Segment::Arc { first: f, last, arc } => {
                assert forall|j: int| start <= j < last + 1 implies acc(
                    #[trigger] window(first, j),
                ).is_some() by {
                    if j < last {
                        assert(accepted(rel, window(f as int, j)));
                        let a = choose|a: A| rel(window(f as int, j), Some(a));
                        assert(rel(window(first, j), Some(a)));
                    } else {
                        assert(rel(window(first, j), Some(arc)));
                    }
                }
                if last + 1 < len {
                    assert(rel(window(first, last + 1), None));
                }
                lemma_reach_stops(acc, len, first, start, last + 1);
                assert(rel(window(first, last as int), Some(arc)));
            },
            Segment::Linear { index } => {
                if start < len {
                    assert(rel(window(first, start), None));
                    lemma_reach_stops(acc, len, first, start, start);
                }
            },
        }
        assert(segs =~= seq![head] + rest);
        assert(segs =~= plan(acc, len, min_match, first));
    }
}

/// Greedy maximality. Where the fit accepts every window from the shortest
/// one up to the one that ends at `longer`, the segment committed from that
/// start is an arc that reaches at least as far: no shorter arc, and no
/// linear move, is committed in its place.
pub proof fn lemma_greedy_maximal<A>(
    rel: Verdicts<A>,
    acc: Oracle<A>,
    len: int,
    min_match: int,
    seg: Segment<A>,
    longer: int,
)
    requires
        min_match >= 2,
        functional(rel, acc),
        justified(rel, len, min_match, seg),
        seg.start() + min_match - 1 <= longer < len,
        forall|j: int|
            seg.start() + min_match - 1 <= j <= longer ==> acc(
                #[trigger] window(seg.start(), j),
            ).is_some(),
    ensures
        seg is Arc,
        longer <= seg.end(),
{
    let start = seg.start() + min_match - 1;
    match seg {
        Segment::Arc { first, last, arc } => {
            if longer > last {
                assert(rel(window(first as int, last + 1), None));
                assert(acc(window(seg.start(), last + 1)).is_some());
            }
        },
        Segment::Linear { index } => {
            assert(rel(window(index as int, start), None));
            assert(acc(window(seg.start(), start)).is_some());
        },
    }
}

} // verus!
