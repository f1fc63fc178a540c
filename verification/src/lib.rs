//! Chaos engineering: fault injection for distributed systems and services.
//!
//! Faults are injected or dry-run in a context, bundled into scenarios, recorded,
//! replayed and sealed, held against budgets, and reported. Real numbers are held by
//! their bit patterns: arithmetic on them, random distributions and all input and
//! output belong to the program around this library.

pub mod assertions;
pub mod cli;
pub mod environment;
pub mod fault;
pub mod faults;
pub mod json;
pub mod laws;
pub mod macro_dsl;
pub mod message;
pub mod metrics;
pub mod names;
pub mod presets;
pub mod replay;
pub mod report_formats;
pub mod rng;
pub mod rootcause;
pub mod scalar;
pub mod scenario;
pub mod search;
pub mod test_util;
pub mod text;
pub mod topology;
pub mod tracing_layer;
pub mod traits;
pub mod types;

pub use tracing_layer::MalcolmLayer;
pub use types::{DryRunReport, FaultEvent, FaultResult, SkipReason};
