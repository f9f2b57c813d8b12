//! Verified core of a speech-to-text helper: speech segmentation over
//! microphone chunks, WAV framing, request planning for the audio API,
//! and the output/clipboard decisions that surround typing the result.

pub mod energy;
pub mod wav;
pub mod speech;
pub mod detector;
pub mod capture;
pub mod text;
pub mod openai;
pub mod config;
pub mod typing;
pub mod clipboard;
pub mod session;
pub mod daemon;
