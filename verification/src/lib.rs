//! A Galton board: balls fall through rows of pegs, are deflected left or
//! right at random, and pile up in bins whose counts are drawn as a bar chart.
//!
//! The walk uses the bin policy: a ball's bin is the number of pegs that sent
//! it to the right, so a board with `n` rows of pegs has `n + 1` bins and no
//! ball ever needs to be clamped to the edge.
//!
//! - [`board`] holds the board, its simulation and its picture;
//! - [`walk`] and [`tally`] say what a walk and a frequency table are;
//! - [`render`] draws a table as a bar chart on a buffer of [`canvas`];
//! - [`chance`] supplies the coin flips.

pub mod board;
pub mod canvas;
pub mod chance;
pub mod render;
pub mod tally;
pub mod walk;
