use vstd::prelude::*;

verus! {

/// A candidate arc over the buffered moves.
///
/// The arc starts where the previous segment ended, passes near the moves
/// `first..last` (its interior samples) and ends at move `last`.
#[derive(Clone, Copy, Debug, PartialEq, Eq, Structural)]
pub struct Window {
    pub first: usize,
    pub last: usize,
}

/// The window with the given bounds, for indices that fit a `usize`.
pub open spec fn window(first: int, last: int) -> Window {
    Window { first: first as usize, last: last as usize }
}

impl Window {
    /// Number of interior samples.
    pub open spec fn interior_len(self) -> int {
        self.last - self.first
    }

    pub fn new(first: usize, last: usize) -> (w: Window)
        ensures
            w == window(first as int, last as int),
    {
        Window { first, last }
    }

    /// The move at whose end point the arc starts: the one before `first`,
    /// or none where the arc starts at the position that the machine had
    /// before the buffer.
    pub open spec fn origin(self) -> Option<usize> {
        if self.first == 0 {
            None
        } else {
            Some((self.first - 1) as usize)
        }
    }

    pub fn anchor(&self) -> (a: Option<usize>)
        ensures
            a == self.origin(),
    {
        if self.first == 0 {
            None
        } else {
            Some(self.first - 1)
        }
    }

    /// Number of interior samples; zero for a window whose bounds are
    /// reversed.
    pub fn interior(&self) -> (n: usize)
        ensures
            n == if self.first <= self.last { self.interior_len() } else { 0 },
    {
        if self.first <= self.last {
            self.last - self.first
        } else {
            0
        }
    }
}

} // verus!
