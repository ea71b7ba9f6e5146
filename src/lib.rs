//! Conway's Game of Life on a fixed square board, with a verified
//! generation-update engine.
pub mod creature;
pub mod matrix;
