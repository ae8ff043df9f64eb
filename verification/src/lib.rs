//! Disk-usage reporting library.
//!
//! Reports, for each immediate child of a scanned directory, an aggregated
//! byte size (recursively summed for subdirectories), sorted ascending by
//! size, followed by a grand total.
//!
//! The library works on an in-memory snapshot of a file tree ([`model::FsTree`]):
//! the surrounding program walks the real filesystem, consulting
//! [`classify::should_visit`] to decide where to descend, and hands the
//! resulting snapshot to the verified aggregation and reporting functions.

pub mod model;
pub mod classify;
pub mod aggregate;
pub mod report;
pub mod render;
pub mod laws;
