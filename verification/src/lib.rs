//! Verified core of a Telegram bridge for a command-line coding agent:
//! message formatting and splitting, command parsing, stream-json event
//! decoding and configuration value handling.

pub mod text;
pub mod nitro;
pub mod telecode;
