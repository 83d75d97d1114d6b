//! A cache for asynchronous programs, and its builder.

pub mod builder;
pub mod cache;
