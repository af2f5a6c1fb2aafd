//! What the user interface shows, as far as it can be computed without one.

pub mod app;
pub mod settings_window;
pub mod tree_view;
