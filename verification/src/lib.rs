//! i3nator manages named, persisted window-manager "projects": each project
//! restores a saved layout onto a workspace and launches a set of configured
//! applications, optionally driving text or keystrokes into them after launch.
//!
//! This crate holds the verified core: configuration parsing and validation,
//! command splitting, layout classification, working-directory precedence,
//! start planning, and the interactive verify/retry state machine. All
//! filesystem, IPC and process side effects are performed by callers on the
//! plain values this crate computes.

pub mod configfiles;
pub mod emit;
pub mod errors;
pub mod inputs;
pub mod parse;
pub mod project;
pub mod session;
pub mod shlex;
pub mod toml_doc;
pub mod types;
pub mod workdir;
