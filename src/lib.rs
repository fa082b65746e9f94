//! Grid corruption spread: a timer-driven, randomized flood over a tile grid.
//!
//! Each time the corruption clock fires, one live candidate tile is picked at
//! random and turned into a corrupted tile, its four axis-aligned neighbours
//! join the candidate set, and the clock's period shrinks by a fixed factor.
//! A firing that finds no live candidate changes nothing but the countdown.

pub mod tile;
pub mod grid;
pub mod candidates;
pub mod clock;
pub mod spread;
mod random;
pub mod stage;
pub mod music;
