//! Mining of source files for structural query captures: grouping of raw
//! captures per file, the job dispatcher's state machine, and the per-file
//! step that parses, matches and groups.
pub mod aggregate;
pub mod job;
pub mod engine;
