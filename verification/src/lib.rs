//! Core of a live log viewer: a child process's output streams are read line
//! by line, handed through a bounded delivery queue to a consumer-side store,
//! and filtered by a case-insensitive search query for display, with the view
//! auto-following new output unless the user has scrolled away.

pub mod autoscroll;
pub mod capture;
pub mod queue;
pub mod store;
pub mod text;
