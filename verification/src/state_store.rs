//! Stores for the view of the routing information base.

pub mod memory;
pub mod store;
