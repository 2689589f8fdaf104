//! The structured log records of a device sync.
pub mod ui;
