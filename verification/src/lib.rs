//! Normalization engine for game version metadata.
//!
//! Vendor version descriptors are turned into canonical launcher components:
//! platform rules are evaluated against a fixed operating-system universe,
//! library downloads are deduplicated with hash-consistency checks, native
//! classifiers are expanded per platform, legacy argument placeholders are
//! rewritten into the launcher's own vocabulary, and known-bad transitive
//! dependencies are patched from a fixed table of corrected metadata.

pub mod args;
pub mod component;
pub mod coordinate;
pub mod forge;
pub mod hashing;
pub mod index;
pub mod ledger;
pub mod intermediary;
pub mod mojang;
pub mod patch;
pub mod quilt;
pub mod source;
pub mod rules;
pub mod strutil;
