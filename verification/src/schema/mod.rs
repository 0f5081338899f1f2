//! Schema evolution: event schema lock files, change detection between the
//! lock file and the current code, and upcast generation for non-breaking
//! changes.

pub mod lock;
pub mod diff;
pub mod upcast;
