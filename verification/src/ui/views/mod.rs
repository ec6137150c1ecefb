//! State and text of the full-screen views.
pub mod container_detail;
pub mod container_logs;
pub mod main_view;
pub mod process_detail;
pub mod swarm;
