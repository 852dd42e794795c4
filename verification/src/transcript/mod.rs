//! Transcripts: what they say, who says it, and how far that can be relied on.
pub mod blocks;
pub mod classify;
pub mod conventions;
pub mod error;
pub mod format;
pub mod functions;
pub mod gaps;
pub mod graph;
pub mod language;
pub mod laws;
pub mod markers;
pub mod models;
pub mod omni;
pub mod omni_models;
pub mod parser;
pub mod people;
pub mod preflight;
pub mod profile;
pub mod quality;
pub mod quotes;
pub mod readings;
pub mod redactions;
pub mod registry;
pub mod source;
pub mod speaker;
pub mod verification;
