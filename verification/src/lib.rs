//! Timed text to CEA-608 byte pairs: the encoding of a text cue into CEA-608
//! codes and the assignment of a frame-quantized timestamp to every code.

pub mod cea608;
pub mod element;
pub mod encoder;
pub mod frame;
pub mod scheduler;
pub mod time;
