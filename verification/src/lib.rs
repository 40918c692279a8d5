//! Core logic of a small launcher for the frp client: the simple
//! configuration form and the TOML it writes and reads, log-line
//! cleaning and formatting, path choices and the launcher's state
//! transitions.
pub mod text;
pub mod toml_doc;
pub mod config;
pub mod frpc;
pub mod app_info;
pub mod palette;
pub mod paths;
pub mod log_buffer;
pub mod toasts;
pub mod state;
