//! A rhythm-game chart model built from an already-parsed MIDI event stream.
//!
//! The library classifies tracks by name, accumulates absolute tick
//! positions from per-event deltas, buckets note events into difficulty
//! lanes, builds an ordered tempo map, and converts the song's tick span
//! into a wall-clock duration in whole seconds.

pub mod duration;
pub mod midi;
pub mod moonsong;
pub mod parsers;
