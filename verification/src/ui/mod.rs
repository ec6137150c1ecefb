//! State and rules behind the interactive views.
pub mod history;
pub mod theme;
pub mod views;
pub mod widgets;
