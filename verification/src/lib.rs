//! Turns decoded video frames into grids of terminal glyphs and plans how the
//! two sinks, a live terminal player and a re-encoder, present them.

pub mod args;
pub mod ascii_set;
pub mod converter;
pub mod decoder;
pub mod encoder;
pub mod frame;
pub mod player;
pub mod queues;
pub mod shutdown;
pub mod sink;
pub mod term;
pub mod utils;
