//! State of the table widgets.
pub mod container_table;
pub mod process_table;
