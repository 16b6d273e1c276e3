//! A four-in-a-row board game engine: the grid, column drops under gravity,
//! and win detection anchored at the last piece placed.

pub mod board;
