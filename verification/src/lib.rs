//! A dotfiles synchronization engine built on symlink packages.
//!
//! The library plans and describes every change: the ignore matcher,
//! the package planner, the operation executor, the conflict resolver
//! and the reconciliation daemon's state machine are all pure
//! functions over snapshots of the filesystem, with their behaviour
//! stated in contracts.  The runtime around the library gathers those
//! snapshots and carries out the actions the library decides on.

pub mod config;
pub mod daemon;
pub mod error;
pub mod ignore;
pub mod remote;
pub mod secrets;
pub mod service;
pub mod stow;
pub mod strutil;
