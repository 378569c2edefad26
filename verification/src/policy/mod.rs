//! Capability policy: workspace path rules, capability grants, the policy engine and its audit records.

pub mod audit;
pub mod engine;
pub mod grant;
pub mod path;
pub mod types;
