//! Bookkeeping for named git worktrees: the registry of managed worktrees,
//! its on-disk encoding, name resolution, and the decisions taken by the
//! create, delete and open operations.
pub mod error;
pub mod registry;
pub mod resolve;
pub mod delete;
pub mod names;
pub mod create;
pub mod open;
pub mod codec;
