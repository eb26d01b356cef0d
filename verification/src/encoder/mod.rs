//! What the encoder writes into an audio file besides the audio.

pub mod tags;
