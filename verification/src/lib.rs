//! Filtering of paired-end FASTQ reads.
//!
//! Two mate-matched streams of FASTQ lines are walked in lockstep; each
//! record pair is evaluated against an ordered chain of acceptance rules
//! (a length threshold, an optional tile-id exclusion, an optional read-id
//! exclusion) and routed verbatim to either a "kept" or a "filtered" sink,
//! while run counters are accumulated and rendered into a plain-text report.

pub mod checker;
pub mod engine;
pub mod laws;
pub mod order;
pub mod paths;
pub mod record;
pub mod stats;
pub mod text;

pub use record::FastqEntry;
