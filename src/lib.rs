//! Filtering of a build tool's structured diagnostic stream: classification of
//! each output line, a cutoff policy for collection, and the processing that
//! orders, deduplicates and bounds what is finally shown.
pub mod collector;
pub mod cutoff;
pub mod emitter;
pub mod laws;
pub mod message;
pub mod processor;
pub mod settings;
