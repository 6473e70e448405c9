//! Election administration and voting logic: the ballot, the voter registry,
//! ballot encryption, vote tallying and winner declaration.

pub mod ballot;
pub mod crypto;
pub mod database;
pub mod eligibility;
pub mod model;
pub mod registry;
pub mod results;
pub mod samples;
pub mod session;
pub mod text;
