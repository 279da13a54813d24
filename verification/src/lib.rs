//! A small grid-based arcade game: a player token moves horizontally along
//! the bottom row of a fixed-size grid while enemy tokens spawn at the top
//! and fall one row per tick. A collision ends the game; a restart command
//! revives the player. The simulation rules and the renderer are verified;
//! terminal input and output live outside this crate.

pub mod geom;
pub mod world;
pub mod input;
pub mod render;
