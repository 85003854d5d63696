//! The web interface: its pages and the decisions behind its forms.
pub mod ui;
pub mod forms;
pub mod actions;
