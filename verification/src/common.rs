//! Data structures shared by the cache implementations.

pub mod builder_utils;
pub mod deque;
pub mod deques;
pub mod entry;
