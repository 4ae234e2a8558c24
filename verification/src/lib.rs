//! Core of a falling-block puzzle game: piece geometry and rotation, a
//! fixed-size board with line clearing, a seven-bag piece sequencer,
//! collision and drop resolution, and the session state machine with
//! scoring. Everything here is verified; presentation and input belong
//! to the caller.

pub mod board;
pub mod piece;
pub mod resolver;
pub mod score;
pub mod session;
pub mod shuffle_bag;
