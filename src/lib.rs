//! Change-event filtering for a directory watcher: an ignore matcher built on
//! glob patterns, a per-path history of recent content fingerprints, and the
//! batch scan that decides which notification, if any, triggers the command.
pub mod filter;
pub mod fingerprint;
pub mod history;
pub mod ignore;
pub mod text;
pub mod utils;
