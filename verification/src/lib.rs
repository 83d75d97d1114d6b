//! Cache configuration and the access-order / write-order queues of a
//! concurrent cache, with their contracts proved by Verus.

pub mod common;
pub mod future;
pub mod notification;
pub mod policy;
pub mod time;
