//! Structured views of a working tree's uncommitted changes: a per-file
//! aggregation of line-level change events, and the navigation state of a
//! two-pane viewer over the result.

pub mod diff;
pub mod order;
pub mod diff_laws;
pub mod nav;
pub mod nav_laws;
