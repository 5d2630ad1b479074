//! Decision core of an arc fitter for streams of short straight moves.
//!
//! A run of buffered moves is cut greedily into arcs and single linear
//! moves. Whether a window of moves is close enough to a circle is decided by
//! a numeric fit that the caller supplies; everything that follows from those
//! verdicts is decided, and proved, here: which windows are tried, in what
//! order, which segments come out, and which moves each of them consumes.

pub mod window;
pub mod segment;
pub mod plan;
pub mod segmenter;
pub mod run;
pub mod state;
pub mod pattern;
pub mod lines;
