use arcfit::segment::Segment;
use arcfit::state::State;
use arcfit::window::Window;

#[test]
fn new_state_is_empty_and_absolute() {
    let st: State<i32> = State::new();
    assert_eq!(st.queued(), 0);
    assert!(!st.rel_extrusion);
    assert_eq!(st.peek(0), None);
}

#[test]
fn store_move_appends_in_order() {
    let mut st = State::new();
    st.store_move(10);
    st.store_move(20);
    st.store_move(30);
    assert_eq!(st.queued(), 3);
    assert_eq!(st.peek(0), Some(&10));
    assert_eq!(st.peek(2), Some(&30));
    assert_eq!(st.peek(3), None);
}

#[test]
fn drain_hands_out_the_moves_and_empties_the_queue() {
    let mut st = State::new();
    st.store_move('a');
    st.store_move('b');
    assert_eq!(st.drain(), vec!['a', 'b']);
    assert_eq!(st.queued(), 0);
    assert_eq!(st.drain(), Vec::<char>::new());
}

#[test]
fn process_moves_flushes_the_whole_run() {
    let mut st = State::new();
    for i in 0..6 {
        st.store_move(i * 2);
    }
    st.set_relative(true);
    let flush = st.process_moves(4, |w: Window| if w.last < 5 { Some(w.last) } else { None });
    assert_eq!(flush.moves, vec![0, 2, 4, 6, 8, 10]);
    assert!(flush.relative);
    assert_eq!(
        flush.segments,
        vec![Segment::Arc { first: 0, last: 4, arc: 4 }, Segment::Linear { index: 5 }]
    );
    assert_eq!(st.queued(), 0);
    assert!(st.rel_extrusion);
}

#[test]
fn process_moves_on_an_empty_queue_emits_nothing() {
    let mut st: State<u8> = State::new();
    let flush = st.process_moves(4, |_w: Window| Some(()));
    assert!(flush.moves.is_empty());
    assert!(flush.segments.is_empty());
    assert!(!flush.relative);
}

#[test]
fn set_relative_keeps_the_queue() {
    let mut st = State::new();
    st.store_move(1u8);
    st.set_relative(true);
    assert!(st.rel_extrusion);
    assert_eq!(st.queued(), 1);
    st.set_relative(false);
    assert!(!st.rel_extrusion);
    assert_eq!(st.peek(0), Some(&1));
}
