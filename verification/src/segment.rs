use vstd::prelude::*;
use crate::window::{window, Window};

verus! {

/// One committed piece of output.
///
/// `Arc` replaces the moves `first..=last` by a single arc that ends at move
/// `last`; `arc` is whatever the fit reported for that window. `Linear`
/// passes move `index` through unchanged.
#[derive(Debug, PartialEq, Eq)]
pub enum Segment<A> {
    Arc { first: usize, last: usize, arc: A },
    Linear { index: usize },
}

/// The moves whose deposition a segment carries.
#[derive(Clone, Copy, Debug, PartialEq, Eq, Structural)]
pub enum Deposition {
    /// The amounts of the moves `first..=last`, added up.
    Total { first: usize, last: usize },
    /// The amount of the one move `index`, as it stands.
    Of { index: usize },
}

impl<A> Segment<A> {
    /// Index of the first move that the segment consumes.
    pub open spec fn start(self) -> int {
        match self {
            Segment::Arc { first, .. } => first as int,
            Segment::Linear { index } => index as int,
        }
    }

    /// Index of the last move that the segment consumes: the position of the
    /// machine once the segment is emitted.
    pub open spec fn end(self) -> int {
        match self {
            Segment::Arc { last, .. } => last as int,
            Segment::Linear { index } => index as int,
        }
    }

    /// Deposition of the segment under the given accounting.
    ///
    /// With relative amounts an arc carries the sum over the moves it
    /// consumes; with absolute amounts it carries the amount of its last
    /// move, which already includes the others. A linear move carries its
    /// own amount.
    pub open spec fn carried(self, relative: bool) -> Deposition {
        match self {
            Segment::Arc { first, last, .. } => if relative {
                Deposition::Total { first, last }
            } else {
                Deposition::Of { index: last }
            },
            Segment::Linear { index } => Deposition::Of { index },
        }
    }

    pub fn deposition(&self, relative: bool) -> (d: Deposition)
        ensures
            d == self.carried(relative),
    {
        match self {
            Segment::Arc { first, last, .. } => {
                if relative {
                    Deposition::Total { first: *first, last: *last }
                } else {
                    Deposition::Of { index: *last }
                }
            },
            Segment::Linear { index } => Deposition::Of { index: *index },
        }
    }

    pub fn start_index(&self) -> (i: usize)
        ensures
            i == self.start(),
    {
        match self {
            Segment::Arc { first, .. } => *first,
            Segment::Linear { index } => *index,
        }
    }

    pub fn end_index(&self) -> (i: usize)
        ensures
            i == self.end(),
    {
        match self {
            Segment::Arc { last, .. } => *last,
            Segment::Linear { index } => *index,
        }
    }
}

/// What is known of the fit: `rel(w, r)` holds when the fit may answer `r`
/// for the window `w`.
pub type Verdicts<A> = spec_fn(Window, Option<A>) -> bool;

/// Some answer of the fit for `w` accepts it.
pub open spec fn accepted<A>(rel: Verdicts<A>, w: Window) -> bool {
    exists|a: A| rel(w, Some(a))
}

/// The segment is one that the greedy rule may commit for a buffer of `len`
/// moves.
///
/// An arc consumes at least `min_match` moves, every
/// shorter window from the same start was accepted, its own window was
/// accepted with `arc`, and the next longer window, if the buffer holds one,
/// was rejected. A linear move is committed only where the shortest window
/// from that start does not fit the buffer or was rejected.
pub open spec fn justified<A>(rel: Verdicts<A>, len: int, min_match: int, seg: Segment<A>) -> bool {
    match seg {
        Segment::Arc { first, last, arc } => {
            &&& first + min_match - 1 <= last < len
            &&& forall|j: int|
                first + min_match - 1 <= j < last ==> accepted(rel, #[trigger] window(first as int, j))
            &&& rel(window(first as int, last as int), Some(arc))
            &&& last + 1 < len ==> rel(window(first as int, last + 1), None)
        },
        Segment::Linear { index } => {
            &&& index < len
            &&& index + min_match - 1 < len ==> rel(
                window(index as int, index + min_match - 1),
                None,
            )
        },
    }
}

/// The segments consume the moves `from..len`, each move once and in order.
pub open spec fn tiles<A>(segs: Seq<Segment<A>>, from: int, len: int) -> bool
    decreases segs.len(),
{
    if segs.len() == 0 {
        from == len
    } else {
        &&& segs[0].start() == from
        &&& from <= segs[0].end() < len
        &&& tiles(segs.skip(1), segs[0].end() + 1, len)
    }
}

/// Segments that consume `from..mid` still tile when one more segment takes
/// up at `mid`.
pub proof fn lemma_tiles_push<A>(segs: Seq<Segment<A>>, from: int, mid: int, seg: Segment<A>)
    requires
        tiles(segs, from, mid),
        seg.start() == mid,
        mid <= seg.end(),
    ensures
        tiles(segs.push(seg), from, seg.end() + 1),
    decreases segs.len(),
{
    let longer = segs.push(seg);
    if segs.len() == 0 {
        assert(longer.skip(1) =~= Seq::<Segment<A>>::empty());
        assert(tiles(longer.skip(1), seg.end() + 1, seg.end() + 1));
    } else {
        lemma_tiles_push(segs.skip(1), segs[0].end() + 1, mid, seg);
        assert(longer.skip(1) =~= segs.skip(1).push(seg));
        assert(longer[0] == segs[0]);
        lemma_tiles_bounds(segs.skip(1), segs[0].end() + 1, mid);
    }
}

/// Segments can only consume moves that lie ahead.
pub proof fn lemma_tiles_bounds<A>(segs: Seq<Segment<A>>, from: int, len: int)
    requires
        tiles(segs, from, len),
    ensures
        from <= len,
    decreases segs.len(),
{
    if segs.len() > 0 {
        lemma_tiles_bounds(segs.skip(1), segs[0].end() + 1, len);
    }
}

} // verus!
