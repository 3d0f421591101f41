//! Conway's Game of Life on a fixed square grid whose border is read by
//! clamping: a neighbour coordinate that falls outside the grid is pulled to
//! the nearest valid index.

pub mod config;
pub mod game;
pub mod grid;
pub mod patterns;
