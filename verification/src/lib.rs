//! gwt: a git worktree manager, as a verified library.
use vstd::prelude::*;

pub mod cd_target;
pub mod cli;
pub mod commands;
pub mod completion;
pub mod config;
pub mod git;
pub mod hooks;
pub mod paths;
pub mod repo;
pub mod text;
pub mod tui;

verus! {

} // verus!
