use vstd::prelude::*;
use crate::plan::{functional, lemma_plan_unique, plan, Oracle};
use crate::segment::{justified, lemma_tiles_push, tiles, Segment, Verdicts};
use crate::segmenter::{lemma_step_justified, Action, Event, Segmenter};
use crate::window::Window;

verus! {

/// The answers that the fit `fit` may give.
pub open spec fn answers<A, F: Fn(Window) -> Option<A>>(fit: F) -> Verdicts<A> {
    |w: Window, r: Option<A>| call_ensures(fit, (w,), r)
}

/// Rank of an instruction in the order in which a run gets through them.
spec fn rank<A>(action: Action<A>) -> int {
    match action {
        Action::Emit(_) => 2,
        Action::Fit(_) => 1,
        Action::Finished => 0,
    }
}

/// Distance of a window that is out from the end of the buffer; more than
/// any such distance while none is out.
spec fn slack<A>(state: Segmenter<A>) -> int {
    match state.trying {
        Some(last) => state.len - last,
        None => state.len + 1,
    }
}

/// Cuts a buffer of `len` moves into segments, asking `fit` about one window
/// at a time.
///
/// `fit` is only ever asked about windows that end within the buffer and
/// hold at least `min_match - 1` interior samples. The segments consume the
/// whole buffer in order, and each of them is justified by answers that
/// `fit` gave. Where `fit` answers each window in one way only, the result is
/// the greedy plan for those answers.
pub fn segment<A, F: Fn(Window) -> Option<A>>(len: usize, min_match: usize, fit: F) -> (segs: Vec<
    Segment<A>,
>)
    requires
        min_match >= 2,
        forall|w: Window| w.first + min_match - 1 <= w.last < len ==> call_requires(fit, (w,)),
    ensures
        tiles(segs@, 0, len as int),
        forall|k: int|
            0 <= k < segs.len() ==> justified(
                answers(fit),
                len as int,
                min_match as int,
                #[trigger] segs@[k],
            ),
        forall|acc: Oracle<A>| #[trigger]
            functional(answers(fit), acc) ==> segs@ == plan(acc, len as int, min_match as int, 0),
{
    let ghost rel = answers(fit);
    let mut segs: Vec<Segment<A>> = Vec::new();
    let (mut state, mut action) = Segmenter::new(len, min_match).step(Event::Ready);
    proof {
        lemma_step_justified(Segmenter::<A>::initial(len, min_match), Event::Ready, rel);
    }
    loop
        invariant
            rel == answers(fit),
            min_match >= 2,
            forall|w: Window| w.first + min_match - 1 <= w.last < len ==> call_requires(fit, (w,)),
            state.wf(),
            state.len == len,
            state.min_match == min_match,
            state.agrees(rel),
            forall|k: int|
                0 <= k < segs.len() ==> justified(
                    rel,
                    len as int,
                    min_match as int,
                    #[trigger] segs@[k],
                ),
            match action {
                Action::Fit(w) => {
                    &&& tiles(segs@, 0, state.first as int)
                    &&& w.first == state.first
                    &&& state.trying == Some(w.last)
                },
                Action::Emit(seg) => {
                    &&& tiles(segs@, 0, seg.start())
                    &&& seg.start() <= seg.end()
                    &&& state.first == seg.end() + 1
                    &&& state.trying is None
                    &&& justified(rel, len as int, min_match as int, seg)
                },
                Action::Finished => {
                    &&& tiles(segs@, 0, len as int)
                    &&& state.trying is None
                },
            },
        decreases len - state.first, slack(state), rank(action),
    {
        let event = match action {
            Action::Fit(w) => {
                let v = fit(w);
                Event::Verdict(v)
            },
            Action::Emit(seg) => {
                proof {
                    lemma_tiles_push(segs@, 0, seg.start(), seg);
                }
                let ghost before = segs@;
                segs.push(seg);
                assert forall|k: int| 0 <= k < segs.len() implies justified(
                    rel,
                    len as int,
                    min_match as int,
                    #[trigger] segs@[k],
                ) by {
                    if k < before.len() {
                        assert(segs@[k] == before[k]);
                    }
                }
                Event::Ready
            },
            Action::Finished => {
                assert forall|acc: Oracle<A>| #[trigger]
                    functional(answers(fit), acc) implies segs@ == plan(
                    acc,
                    len as int,
                    min_match as int,
                    0,
                ) by {
                    lemma_plan_unique(rel, acc, len as int, min_match as int, 0, segs@);
                }
                return segs;
            },
        };
        proof {
            lemma_step_justified(state, event, rel);
        }
        let (next_state, next_action) = state.step(event);
        state = next_state;
        action = next_action;
    }
}

} // verus!
