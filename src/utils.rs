//! Small data structures used by the change filter.
pub mod recent_strings;
