//! The wiki: sources, their parsed frames, and transactional wiki patches.

pub mod source;
pub mod pdf;
pub mod raw;
pub mod markdown;
pub mod ingest;
pub mod commit;
pub mod patch;
