//! Verified core of a terminal system monitor: parsers for kernel and
//! service status text, port discovery from command lines and container port
//! mappings, WebSocket framing, HTTP chunked decoding, bounded sample
//! histories and the state machines behind the interactive views.
pub mod app;
pub mod config;
pub mod setup;
pub mod localization;
pub mod models;
pub mod order;
pub mod text;
pub mod collectors;
pub mod ui;
