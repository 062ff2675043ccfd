//! The multi-agent bot: types, configuration values, formatting and menus.

pub mod config;
pub mod format;
pub mod multi;
pub mod agents;
pub mod routing;
pub mod store;
pub mod types;
pub mod engine;
pub mod menu;
pub mod markup;
