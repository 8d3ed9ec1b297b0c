//! WAVE (RIFF) file encoding and decoding, and the integer logic of simple
//! sound synthesis helpers, with machine-checked contracts.

pub mod header;
pub mod le_bytes;
pub mod pcm;
pub mod wave;
pub mod synth;
