use vstd::prelude::*;
use crate::segment::{accepted, justified, Segment, Verdicts};
use crate::window::{window, Window};

verus! {

/// What the caller reports to the segmenter.
pub enum Event<A> {
    /// The caller is ready for the next instruction: at the outset, and each
    /// time it has emitted a segment.
    Ready,
    /// The outcome of the fit over the window that was last handed out:
    /// the fitted arc, or `None` where the window is no arc.
    Verdict(Option<A>),
}

/// What the segmenter asks of the caller.
#[derive(Debug, PartialEq, Eq)]
pub enum Action<A> {
    /// Fit this window and report the verdict.
    Fit(Window),
    /// Emit this segment and move the cursor to its end, then report `Ready`.
    Emit(Segment<A>),
    /// The buffer is consumed.
    Finished,
}

/// State of the greedy scan over a buffer of `len` moves.
///
/// The moves before `first` are committed. While a window is out for
/// fitting, `trying` is its end and `best` the arc of the window one
/// shorter, the longest accepted so far from `first`.
pub struct Segmenter<A> {
    pub len: usize,
    pub min_match: usize,
    pub first: usize,
    pub trying: Option<usize>,
    pub best: Option<A>,
}

impl<A> Segmenter<A> {
    /// End of the shortest window from `first`.
    pub open spec fn shortest(self) -> int {
        self.first + self.min_match - 1
    }

    pub open spec fn wf(self) -> bool {
        &&& self.min_match >= 2
        &&& self.first <= self.len
        &&& match self.trying {
            Some(last) => {
                &&& self.shortest() <= last < self.len
                &&& (self.best is Some <==> self.shortest() < last)
            },
            None => self.best is None,
        }
    }

    /// The state before any move is committed.
    pub open spec fn initial(len: usize, min_match: usize) -> Segmenter<A> {
        Segmenter { len, min_match, first: 0, trying: None, best: None }
    }

    /// The state in which `first` is the next move to commit and no window
    /// is out.
    pub open spec fn idle_at(self, first: int) -> Segmenter<A> {
        Segmenter { first: first as usize, trying: None, best: None, ..self }
    }

    /// The transition: the state after `event`, and what is asked next.
    ///
    /// While a window is out, an accepting verdict extends it by one move, or
    /// commits it where the buffer ends; a rejecting verdict commits the
    /// longest window accepted before, or a single linear move where there
    /// is none. `Ready` asks for the same window again. While no window is
    /// out, any event starts the scan from `first` with the shortest window,
    /// commits a linear move where that window does not fit the buffer, and
    /// finishes where no move is left.
    pub open spec fn next(self, event: Event<A>) -> (Segmenter<A>, Action<A>) {
        match self.trying {
            Some(last) => match event {
                Event::Verdict(Some(arc)) => if last + 1 < self.len {
                    (
                        Segmenter { trying: Some((last + 1) as usize), best: Some(arc), ..self },
                        Action::Fit(window(self.first as int, last + 1)),
                    )
                } else {
                    (
                        self.idle_at(last + 1),
                        Action::Emit(Segment::Arc { first: self.first, last, arc }),
                    )
                },
                Event::Verdict(None) => match self.best {
                    Some(arc) => (
                        self.idle_at(last as int),
                        Action::Emit(
                            Segment::Arc { first: self.first, last: (last - 1) as usize, arc },
                        ),
                    ),
                    None => (
                        self.idle_at(self.first + 1),
                        Action::Emit(Segment::Linear { index: self.first }),
                    ),
                },
                Event::Ready => (self, Action::Fit(window(self.first as int, last as int))),
            },
            None => if self.first >= self.len {
                (self, Action::Finished)
            } else if self.shortest() < self.len {
                (
                    Segmenter { trying: Some(self.shortest() as usize), ..self },
                    Action::Fit(window(self.first as int, self.shortest())),
                )
            } else {
                (self.idle_at(self.first + 1), Action::Emit(Segment::Linear { index: self.first }))
            },
        }
    }

    /// What the verdicts received so far say of `rel`: every window shorter
    /// than the one that is out was accepted, and `best` is the arc that the
    /// fit gave for the longest of them.
    pub open spec fn agrees(self, rel: Verdicts<A>) -> bool {
        match self.trying {
            Some(last) => {
                &&& forall|j: int|
                    self.shortest() <= j < last ==> accepted(
                        rel,
                        #[trigger] window(self.first as int, j),
                    )
                &&& match self.best {
                    Some(arc) => rel(window(self.first as int, last - 1), Some(arc)),
                    None => true,
                }
            },
            None => true,
        }
    }

    /// A segmenter for a buffer of `len` moves, where an arc consumes at
    /// least `min_match` of them.
    pub fn new(len: usize, min_match: usize) -> (s: Segmenter<A>)
        requires
            min_match >= 2,
        ensures
            s == Self::initial(len, min_match),
            s.wf(),
    {
        Segmenter { len, min_match, first: 0, trying: None, best: None }
    }

    /// Index of the first move that is not yet committed.
    pub fn committed(&self) -> (n: usize)
        ensures
            n == self.first,
    {
        self.first
    }

    /// The window that is out for fitting, if any.
    pub fn pending(&self) -> (w: Option<Window>)
        ensures
            w == match self.trying {
                Some(last) => Some(window(self.first as int, last as int)),
                None => None,
            },
    {
        match self.trying {
            Some(last) => Some(Window::new(self.first, last)),
            None => None,
        }
    }

    /// Takes one event and answers with the next instruction.
    ///
    /// Every window that is handed out ends within the buffer and holds at
    /// least `min_match - 1` interior samples, so the fit is never asked
    /// about an empty interior.
    pub fn step(self, event: Event<A>) -> (r: (Segmenter<A>, Action<A>))
        requires
            self.wf(),
        ensures
            r == self.next(event),
            r.0.wf(),
            r.0.len == self.len,
            r.0.min_match == self.min_match,
            match r.1 {
                Action::Fit(w) => {
                    &&& w.first == self.first
                    &&& w.first + self.min_match - 1 <= w.last < self.len
                    &&& w.interior_len() >= 1
                },
                Action::Emit(seg) => {
                    &&& seg.start() == self.first
                    &&& seg.start() <= seg.end() < self.len
                    &&& r.0.first == seg.end() + 1
                },
                Action::Finished => self.first == self.len,
            },
    {
        let Segmenter { len, min_match, first, trying, best } = self;
        match trying {
            Some(last) => match event {
                Event::Verdict(Some(arc)) => {
                    if last + 1 < len {
                        (
                            Segmenter {
                                len,
                                min_match,
                                first,
                                trying: Some(last + 1),
                                best: Some(arc),
                            },
                            Action::Fit(Window::new(first, last + 1)),
                        )
                    } else {
                        (
                            Segmenter { len, min_match, first: last + 1, trying: None, best: None },
                            Action::Emit(Segment::Arc { first, last, arc }),
                        )
                    }
                },
                Event::Verdict(None) => match best {
                    Some(arc) => (
                        Segmenter { len, min_match, first: last, trying: None, best: None },
                        Action::Emit(Segment::Arc { first, last: last - 1, arc }),
                    ),
                    None => (
                        Segmenter { len, min_match, first: first + 1, trying: None, best: None },
                        Action::Emit(Segment::Linear { index: first }),
                    ),
                },
                Event::Ready => (
                    Segmenter { len, min_match, first, trying: Some(last), best },
                    Action::Fit(Window::new(first, last)),
                ),
            },
            None => {
                if first >= len {
                    (Segmenter { len, min_match, first, trying: None, best }, Action::Finished)
                } else if min_match - 1 < len - first {
                    let last: usize = first + (min_match - 1);
                    (
                        Segmenter { len, min_match, first, trying: Some(last), best },
                        Action::Fit(Window::new(first, last)),
                    )
                } else {
                    (
                        Segmenter { len, min_match, first: first + 1, trying: None, best: None },
                        Action::Emit(Segment::Linear { index: first }),
                    )
                }
            },
        }
    }
}

/// Each step commits only what the greedy rule allows.
///
/// Where the verdicts reported so far are answers of the fit, and so is the
/// verdict in `event`, the state after the step keeps to the fit's answers,
/// and a segment that the step emits is justified by them.
pub proof fn lemma_step_justified<A>(s: Segmenter<A>, event: Event<A>, rel: Verdicts<A>)
    requires
        s.wf(),
        s.agrees(rel),
        match (s.trying, event) {
            (Some(last), Event::Verdict(v)) => rel(window(s.first as int, last as int), v),
            _ => true,
        },
    ensures
        s.next(event).0.wf(),
        s.next(event).0.agrees(rel),
        match s.next(event).1 {
            Action::Emit(seg) => justified(rel, s.len as int, s.min_match as int, seg),
            _ => true,
        },
{
    let (n, action) = s.next(event);
    match (s.trying, event) {
        (Some(last), Event::Verdict(Some(arc))) => {
            if last + 1 < s.len {
                assert forall|j: int| n.shortest() <= j < last + 1 implies accepted(
                    rel,
                    #[trigger] window(n.first as int, j),
                ) by {
                    if j == last {
                        assert(rel(window(s.first as int, j), Some(arc)));
                    }
                }
            }
        },
        _ => {},
    }
}

} // verus!
