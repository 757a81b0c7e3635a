//! Handle bookkeeping for a tree of native windows: the registry that maps
//! identifiers to OS handles and back, the per-handle data arena, the window
//! builder's decisions, the child walker and the message router.

pub mod controls;
pub mod error;
pub mod events;
pub mod handle;
pub mod handle_data;
pub mod ui;
pub mod window_helper;
