//! The clock ports in one place.

pub use crate::fault::{MalcolmClock, MockClock, RealClock};
