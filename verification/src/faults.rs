//! Fault implementations.

pub mod any;
pub mod byzantine;
pub mod clock;
pub mod network;
pub mod resource;
