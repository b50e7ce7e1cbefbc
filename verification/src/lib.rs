//! Core of a small package installer: it classifies a target package against
//! the installed set reported by the system package manager, derives the
//! action to run (install, upgrade or remove), builds the elevated command
//! line for it, and models the merged output stream of the running action.
//!
//! All process spawning and reading is done by the surrounding program; this
//! crate holds the parsing, the classification, the argument construction and
//! the bookkeeping of the line stream, each with a proved contract.

pub mod action;
pub mod listing;
pub mod pkg;
pub mod probe;
pub mod stream;

pub use pkg::{DNFAction, PackageEntry, PackageState};
