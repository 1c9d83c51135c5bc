//! Selects files from a candidate list according to configurable
//! ignore/include rules, and formats the chosen contents into a single
//! document.
//!
//! The core is the selection engine: glob-style ignore patterns, a
//! hidden-file rule with explicit include-hidden exceptions, and literal
//! file/directory overrides, combined by a fixed precedence algorithm.

pub mod aggregator;
pub mod config;
pub mod ignore_rules;
pub mod pattern;
pub mod text;
