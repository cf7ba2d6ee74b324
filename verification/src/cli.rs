//! The command line, as values.
//!
//! The parser itself is the program's; these are what it hands over.
use vstd::prelude::*;

verus! {

pub struct Cli {
    pub command: Command,
}

pub enum Command {
    /// Create a worktree for a branch, creating the branch if needed
    Add(AddArgs),
    /// List the worktrees of this repository (alias `ls`)
    List(ListArgs),
    /// Print the path of a worktree (with shell integration, changes into it)
    Cd(CdArgs),
    /// Remove a worktree (alias `rm`)
    Remove(RemoveArgs),
    /// Look over the worktrees you are done with and remove the ones you pick
    Clean(CleanArgs),
    /// Write a .gwt.toml template to the main worktree
    Init(InitArgs),
    /// Print shell integration (cd support and completions) for eval
    ShellInit(ShellArgs),
    /// Print a completion script only
    Completion(ShellArgs),
    /// Write man pages
    Man(ManArgs),
}

pub struct AddArgs {
    /// Branch to check out. Created when it does not exist yet
    pub branch: String,
    /// Start point for a newly created branch (commit, tag or branch)
    pub from: Option<String>,
    /// Path of the worktree, overriding the configured base_dir layout
    pub path: Option<String>,
    /// Fail instead of creating a branch that does not exist
    pub no_create: bool,
    /// Skip pre_create and post_create hooks
    pub no_hooks: bool,
    /// Check out the branch even if another worktree already has it
    pub force: bool,
    /// Print only the worktree path
    pub quiet: bool,
}

pub struct ListArgs {
    /// Print only worktree paths, one per line
    pub paths: bool,
    /// Print the table even in a terminal
    pub plain: bool,
}

pub struct CdArgs {
    /// Worktree or branch name. Defaults to the main worktree
    pub name: Option<String>,
}

pub struct RemoveArgs {
    /// Worktree or branch name
    pub name: String,
    /// Remove the branch as well when it is merged into the main worktree
    pub with_branch: bool,
    /// Remove even when the worktree has uncommitted changes
    pub force: bool,
    /// Skip pre_remove and post_remove hooks
    pub no_hooks: bool,
}

pub struct CleanArgs {
    /// Delete each removed worktree's branch too, when it is merged
    pub with_branch: bool,
    /// Remove dirty worktrees and unmerged branches as well
    pub force: bool,
    /// Skip pre_remove and post_remove hooks
    pub no_hooks: bool,
}

pub struct InitArgs {
    /// Overwrite an existing .gwt.toml
    pub force: bool,
}

pub struct ShellArgs {
    /// Shell to generate the script for
    pub shell: Shell,
}

pub struct ManArgs {
    /// Directory to write the pages to
    pub out_dir: String,
}

#[derive(PartialEq, Eq, Structural, Clone, Copy, Debug)]
pub enum Shell {
    Bash,
    Zsh,
    Fish,
}

} // verus!
