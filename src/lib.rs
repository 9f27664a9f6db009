//! Resource identity, lifecycle and topic-group join engine of a time-series store.

pub mod actions;
pub mod groups;
pub mod info;
pub mod lifecycle;
pub mod names;
pub mod resources;
pub mod time;
