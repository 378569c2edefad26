//! Sandbox decisions: profiles, path policies, seatbelt profiles and the
//! audited source-ingest context.

pub mod policy;
pub mod ingest;
