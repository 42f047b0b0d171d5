//! Session management for OpenCode sessions kept alive in tmux: the saved
//! session model, the dashboard's filtering, selection and input handling, the
//! command parser, list rendering and the small parsers for tmux and `/proc`.
pub mod text;
pub mod cli;
pub mod session;
pub mod session_list;
pub mod paths;
pub mod config;
pub mod directory_identity;
pub mod list_output;
pub mod tmux;
pub mod opencode_db;
pub mod storage;
pub mod service;
pub mod commands;
pub mod tui;
