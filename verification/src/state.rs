use std::collections::VecDeque;
use vstd::prelude::*;
use crate::plan::{functional, plan, Oracle};
use crate::run::{answers, segment};
use crate::segment::{justified, tiles, Segment};
use crate::window::Window;

verus! {

/// Moves that are not yet committed to output, and the deposition
/// accounting in force.
///
/// The queue holds a run of consecutive linear moves in the order in which
/// they came in. `M` is whatever the caller keeps of a move.
pub struct State<M> {
    pub move_queue: VecDeque<M>,
    pub rel_extrusion: bool,
}

/// A run of moves taken off the queue, with the segments that replace it.
pub struct Flush<M, A> {
    /// The moves, in the order in which they were stored.
    pub moves: Vec<M>,
    /// The segments; their indices refer to `moves`.
    pub segments: Vec<Segment<A>>,
    /// Whether deposition amounts were relative when the run was flushed.
    pub relative: bool,
}

impl<M> State<M> {
    /// An empty queue, with absolute deposition amounts.
    pub fn new() -> (s: State<M>)
        ensures
            s.move_queue@ == Seq::<M>::empty(),
            !s.rel_extrusion,
    {
        State { move_queue: VecDeque::new(), rel_extrusion: false }
    }

    /// Appends a linear move to the run.
    pub fn store_move(&mut self, m: M)
        ensures
            final(self).move_queue@ == old(self).move_queue@.push(m),
            final(self).rel_extrusion == old(self).rel_extrusion,
    {
        self.move_queue.push_back(m);
    }

    /// Switches the deposition accounting.
    pub fn set_relative(&mut self, relative: bool)
        ensures
            final(self).move_queue@ == old(self).move_queue@,
            final(self).rel_extrusion == relative,
    {
        self.rel_extrusion = relative;
    }

    /// Number of moves in the queue.
    pub fn queued(&self) -> (n: usize)
        ensures
            n == self.move_queue@.len(),
    {
        self.move_queue.len()
    }

    /// The queued move at `index`, if there is one.
    pub fn peek(&self, index: usize) -> (m: Option<&M>)
        ensures
            m == if index < self.move_queue@.len() {
                Some(&self.move_queue@[index as int])
            } else {
                None
            },
    {
        if index < self.move_queue.len() {
            Some(&self.move_queue[index])
        } else {
            None
        }
    }

    /// Takes every move off the queue, in order.
    pub fn drain(&mut self) -> (moves: Vec<M>)
        ensures
            moves@ == old(self).move_queue@,
            final(self).move_queue@ == Seq::<M>::empty(),
            final(self).rel_extrusion == old(self).rel_extrusion,
    {
        let mut moves: Vec<M> = Vec::new();
        loop
            invariant
                moves@ + self.move_queue@ == old(self).move_queue@,
                self.rel_extrusion == old(self).rel_extrusion,
            ensures
                moves@ == old(self).move_queue@,
                self.move_queue@ == Seq::<M>::empty(),
                self.rel_extrusion == old(self).rel_extrusion,
            decreases self.move_queue@.len(),
        {
            let ghost before = self.move_queue@;
            match self.move_queue.pop_front() {
                Some(m) => {
                    moves.push(m);
                    assert(moves@ + self.move_queue@ =~= (moves@.drop_last() + before));
                },
                None => {
                    assert(moves@ =~= moves@ + self.move_queue@);
                    assert(self.move_queue@ =~= Seq::<M>::empty());
                    break ;
                },
            }
        }
        moves
    }

    /// Flushes the queue: cuts the whole run into segments and empties the
    /// queue.
    ///
    /// `fit` is asked about windows of the run as it stood on entry; see
    /// [`segment`] for which windows, and for what the segments are.
    pub fn process_moves<A, F: Fn(Window) -> Option<A>>(&mut self, min_match: usize, fit: F) -> (flush:
        Flush<M, A>)
        requires
            min_match >= 2,
            forall|w: Window|
                w.first + min_match - 1 <= w.last < old(self).move_queue@.len() ==> call_requires(
                    fit,
                    (w,),
                ),
        ensures
            final(self).move_queue@ == Seq::<M>::empty(),
            final(self).rel_extrusion == old(self).rel_extrusion,
            flush.moves@ == old(self).move_queue@,
            flush.relative == old(self).rel_extrusion,
            tiles(flush.segments@, 0, flush.moves@.len() as int),
            forall|k: int|
                0 <= k < flush.segments.len() ==> justified(
                    answers(fit),
                    flush.moves@.len() as int,
                    min_match as int,
                    #[trigger] flush.segments@[k],
                ),
            forall|acc: Oracle<A>| #[trigger]
                functional(answers(fit), acc) ==> flush.segments@ == plan(
                    acc,
                    flush.moves@.len() as int,
                    min_match as int,
                    0,
                ),
    {
        let len = self.move_queue.len();
        let segments = segment(len, min_match, fit);
        let relative = self.rel_extrusion;
        let moves = self.drain();
        Flush { moves, segments, relative }
    }
}

} // verus!
