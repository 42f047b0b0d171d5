//! The interactive dashboard: its data, filtering, selection, command parsing,
//! key handling, input state and layout arithmetic.
pub mod format;
pub mod input;
pub mod command;
pub mod filter;
pub mod render;
pub mod selection;
pub mod state;
pub mod theme;
pub mod types;
