//! Verified core of a daemon that gives every git worktree its own colour.
use vstd::prelude::*;

pub use vstd::hash_set::StringHashSet;

pub mod text;
pub mod hex;
pub mod color;
pub mod allocator;
pub mod keyed;
pub mod lines;
pub mod state;
pub mod git;
pub mod paths;
pub mod config;
pub mod cursor;
pub mod ghostty;
pub mod protocol;
pub mod daemon;
pub mod render;
pub mod resolve;
