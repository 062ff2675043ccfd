//! The single-bot bridge: stream-json decoding, command parsing and
//! message helpers.

pub mod bot;
pub mod run;
pub mod commands;
pub mod stream;
pub mod types;
pub mod voice;
