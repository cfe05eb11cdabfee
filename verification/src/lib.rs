//! The sequential, verified core of a module-graph lint pipeline.
//!
//! The crate decides; its callers do the outside work. A caller reads and
//! parses files, resolves import specifiers, runs the rules and renders
//! diagnostics, and hands the outcomes to the functions of this crate, which
//! say what happens next: whether a path is to be processed at all, which
//! import targets still have to be visited, whether a file is linted or only
//! traversed, which diagnostics are counted and which of them are shown.
//!
//! What holds of every run is stated and proved in `traversal`, `order` and
//! `workers`: no file is processed twice, a record in the cache is never
//! replaced, every import is followed to its end also round a cycle, and
//! neither the order of the entry paths nor the number of workers changes
//! what is processed and counted.
//!
//! Beside the pipeline stand two pieces of the analysis that it drives, each
//! on plain values: how declarations bind their names (`binder`), and the
//! rule against unused variables (`no_unused_vars`).

pub mod file_identity;
pub mod diagnostic;
pub mod line_guard;
pub mod diagnostic_service;
pub mod cache_state;
pub mod module_map;
pub mod source_file;
pub mod service;
pub mod project;
pub mod runner;
pub mod traversal;
pub mod order;
pub mod workers;
pub mod binder;
pub mod no_unused_vars;
