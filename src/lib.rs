//! Discrete core of a Monte Carlo path tracer: the decision machine that
//! drives one light path, the band-parallel render job that assembles the
//! RGB8 frame, and the hand-off of a finished frame to a PNG encoder.
pub mod encode;
pub mod frame;
pub mod path;
