//! Verified core of `donttouch`: a tool that protects a configured set of
//! files in a project tree from modification by toggling their read-only
//! permission bit and by blocking version-control operations that touch them.
//!
//! Every invocation re-derives a single runtime state from plain values probed
//! from the filesystem, dispatches one command against that state, and returns
//! a structured result together with the filesystem effects to apply.

pub mod config;
pub mod context;
pub mod dispatch;
pub mod fileset;
pub mod guard;
pub mod hooks;
pub mod inject;
pub mod ops;
pub mod pattern;
pub mod perm;
pub mod text;

