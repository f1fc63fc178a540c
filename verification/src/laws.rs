//! What holds of the library as a whole.
//!
//! Each law says of all inputs what a result must satisfy, or how two results relate,
//! in terms of the inputs themselves: places in a list, members of a set, pieces of a text.

pub mod arguments;
pub mod budgets;
pub mod causes;
pub mod conclusions;
pub mod envelopes;
pub mod graphs;
pub mod lists;
pub mod models;
pub mod payloads;
pub mod points;
pub mod previews;
pub mod records;
pub mod reports;
pub mod runs;
pub mod scenarios;
pub mod searches;
pub mod settings;
pub mod traces;
pub mod words;
