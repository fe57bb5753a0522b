//! A terminal music browser: the library scan, the playback-session rules and
//! the browsing state machine, each stated and proved; the terminal, the audio
//! device and the file system are driven by the program around it.

pub mod library;
pub mod engine;
pub mod controller;
