//! Boards: named groups of chat sessions with per-board session status
//! tracking, ordering and selection.

pub mod status;
pub mod text;
pub mod thread_id;
pub mod model;
pub mod ordering;
pub mod state;
pub mod store;
pub mod laws;
pub mod sync;
pub mod ui;
pub mod flow;
