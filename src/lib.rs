//! A verified solver for the hexagonal rotation puzzle: 37 cells, each holding a value mod 6,
//! where a poke turns a cell and its six neighbours by one step. Beside it live the pieces of
//! the automation around the game that are plain computation: the older 4x4 arrow puzzle and
//! its solver, the player's decisions, screen sampling and touch-event encoding.

pub mod hex;
pub mod expert;
pub mod laws;
pub mod puzzle;
pub mod enumerate_2d;
pub mod player;
pub mod gui;
pub mod android;
pub mod solve;
pub mod device;
pub mod solvable;
