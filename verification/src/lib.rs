//! Replays a recorded terminal session through a terminal emulator and
//! extracts a deduplicated log of game-relevant lines.

pub mod classifier;
pub mod container;
pub mod logger;
pub mod replay;
pub mod sampler;
pub mod screen;
pub mod terminal;
pub mod text;
