//! Build-time structural reflection with conditional gating.
//!
//! The library scans a model of a parsed source tree, records which
//! declarations exist as canonical flag strings, and lets later phases gate
//! code on the presence of those flags: a declaration can be retained or
//! omitted (item mode), or a function can be kept callable but made to fail
//! with a descriptive message when the symbol it probes is missing
//! (function-fallback mode).
//!
//! The crate also carries the sorting exercise that the framework is used to
//! grade: a strategy trait with verified bubble-sort and merge-sort
//! implementations, a context that runs the configured strategy, and a policy
//! that picks a strategy from the input size.

pub mod bubble_sort;
pub mod context;
pub mod date;
pub mod extract;
pub mod gate;
pub mod merge_sort;
pub mod model;
pub mod naming;
pub mod policy;
pub mod sort_strategy;
pub mod store;
pub mod walk;
