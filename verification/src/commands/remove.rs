//! `gwt remove` — delete a worktree, optionally with its branch.
use vstd::prelude::*;

use crate::git::Worktree;
use crate::paths::{same_path, same_path_spec, starts_with, starts_with_spec};
use crate::repo::Repo;
use crate::text::{push_str, views};

verus! {

/// What a removal is allowed to do.
pub struct RemoveOptions {
    /// Remove despite uncommitted changes, and delete an unmerged branch.
    pub force: bool,
    /// Delete the branch along with the worktree.
    pub with_branch: bool,
    /// Keep git quiet — the interactive picker owns the terminal.
    pub quiet: bool,
    /// Skip the `pre_remove` and `post_remove` hooks.
    pub no_hooks: bool,
}

/// What stands in the way of removing a worktree.
#[derive(PartialEq, Eq, Structural, Clone, Copy, Debug)]
pub enum Blocker {
    /// It is the main worktree.
    MainWorktree,
    /// gwt runs inside it.
    Inside,
    /// It has uncommitted changes (and the removal is not forced).
    Dirty,
}

impl Blocker {
    pub open spec fn reason_spec(self) -> Seq<char> {
        match self {
            Blocker::MainWorktree => "this is the main worktree"@,
            Blocker::Inside => "you are inside this worktree"@,
            Blocker::Dirty => "it has uncommitted changes"@,
        }
    }

    pub fn reason(&self) -> (r: &'static str)
        ensures
            r@ == self.reason_spec(),
    {
        match self {
            Blocker::MainWorktree => "this is the main worktree",
            Blocker::Inside => "you are inside this worktree",
            Blocker::Dirty => "it has uncommitted changes",
        }
    }
}

/// Why a removal did not go through.
pub enum RemoveError {
    /// Refused before anything was touched; the worktree's path and why.
    Blocked { path: String, blocker: Blocker },
    /// `gwt remove` on the main worktree.
    MainWorktree,
    /// `gwt remove` on the worktree gwt runs in, at this path.
    Inside(String),
    /// `gwt remove` on a worktree with uncommitted changes, at this path.
    Dirty(String),
    /// `--with-branch` on a worktree that had no branch.
    NoBranch,
    /// `--with-branch` on a branch that is not merged, without `--force`.
    NotMerged(String),
}

/// What refuses a removal, first match first: the main worktree, the one gwt
/// runs in (even forced), then uncommitted changes unless forced.
pub open spec fn blocker_spec(repo: Repo, path: Seq<char>, force: bool, dirty: bool) -> Option<
    Blocker,
> {
    if same_path_spec(path, repo.main@) {
        Some(Blocker::MainWorktree)
    } else if starts_with_spec(repo.cwd@, path) {
        Some(Blocker::Inside)
    } else if !force && dirty {
        Some(Blocker::Dirty)
    } else {
        None
    }
}

/// Refuses removals that would leave the user stranded or lose work.
///
/// `dirty` is whether the worktree has uncommitted changes; it is not read
/// when `force` is set. Split out so the picker can show the same reasons
/// before asking for confirmation, rather than discovering them after the
/// fact.
pub fn removal_blocker(repo: &Repo, worktree: &Worktree, force: bool, dirty: bool) -> (r: Option<
    Blocker,
>)
    ensures
        r == blocker_spec(*repo, worktree.path@, force, dirty),
{
    if same_path(worktree.path.as_str(), repo.main.as_str()) {
        return Some(Blocker::MainWorktree);
    }
    if starts_with(repo.cwd.as_str(), worktree.path.as_str()) {
        return Some(Blocker::Inside);
    }
    if !force && dirty {
        return Some(Blocker::Dirty);
    }
    None
}

/// The arguments of `git worktree remove`.
pub open spec fn remove_args_spec(path: Seq<char>, force: bool) -> Seq<Seq<char>> {
    if force {
        seq!["worktree"@, "remove"@, "--force"@, path]
    } else {
        seq!["worktree"@, "remove"@, path]
    }
}

/// The first step of a removal: the refusal, or the git command that deletes
/// the worktree.
pub fn remove_worktree(repo: &Repo, worktree: &Worktree, opts: &RemoveOptions, dirty: bool) -> (r:
    Result<Vec<String>, RemoveError>)
    ensures
        match blocker_spec(*repo, worktree.path@, opts.force, dirty) {
            Some(b) => r matches Err(RemoveError::Blocked { path, blocker }) && blocker == b
                && path@ == worktree.path@,
            None => r matches Ok(args) && views(args@) == remove_args_spec(
                worktree.path@,
                opts.force,
            ),
        },
{
    if let Some(blocker) = removal_blocker(repo, worktree, opts.force, dirty) {
        return Err(RemoveError::Blocked { path: worktree.path.clone(), blocker });
    }
    let mut args: Vec<String> = Vec::new();
    args.push(String::from_str("worktree"));
    args.push(String::from_str("remove"));
    if opts.force {
        args.push(String::from_str("--force"));
    }
    args.push(worktree.path.clone());
    assert(views(args@) =~= remove_args_spec(worktree.path@, opts.force));
    Ok(args)
}

/// The second step, once the worktree is gone: the git command that deletes
/// its branch, if one was asked for.
///
/// `merged` is whether the branch is merged into `HEAD` of the main
/// worktree by ancestry, `squashed` whether it is there by content, as a
/// squash or rebase merge leaves it (see `git::squash_merged`); neither is
/// read when the removal is forced. `git branch -d` runs the ancestry test
/// that misses a squash merge, so such a branch goes with `-D`, as does a
/// forced one; a branch merged by ancestry goes with `-d`.
pub fn branch_removal(
    worktree: &Worktree,
    opts: &RemoveOptions,
    merged: bool,
    squashed: bool,
) -> (r: Result<Option<Vec<String>>, RemoveError>)
    ensures
        !opts.with_branch ==> r matches Ok(None),
        opts.with_branch && worktree.branch is None ==> r matches Err(RemoveError::NoBranch),
        opts.with_branch && worktree.branch is Some && !opts.force && !merged && !squashed ==> (
        r matches Err(RemoveError::NotMerged(b)) && b@ == worktree.branch->0@),
        opts.with_branch && worktree.branch is Some && (opts.force || merged || squashed) ==> (
        r matches Ok(Some(args)) && views(args@) == seq![
            "branch"@,
            if opts.force || !merged {
                "-D"@
            } else {
                "-d"@
            },
            worktree.branch->0@,
        ]),
{
    if !opts.with_branch {
        return Ok(None);
    }
    let branch = match &worktree.branch {
        Some(b) => b,
        None => {
            return Err(RemoveError::NoBranch);
        },
    };
    if !opts.force && !merged && !squashed {
        return Err(RemoveError::NotMerged(branch.clone()));
    }
    let flag = if opts.force || !merged {
        "-D"
    } else {
        "-d"
    };
    let args = vec![String::from_str("branch"), String::from_str(flag), branch.clone()];
    assert(views(args@) =~= seq![
        "branch"@,
        if opts.force || !merged {
            "-D"@
        } else {
            "-d"@
        },
        worktree.branch->0@,
    ]);
    Ok(Some(args))
}

/// What `gwt remove` refuses, in its own wording: the main worktree, the one
/// gwt runs in, or one with uncommitted changes unless forced.
pub fn check_remove(repo: &Repo, worktree: &Worktree, force: bool, dirty: bool) -> (r: Result<
    (),
    RemoveError,
>)
    ensures
        match blocker_spec(*repo, worktree.path@, force, dirty) {
            None => r is Ok,
            Some(Blocker::MainWorktree) => r matches Err(RemoveError::MainWorktree),
            Some(Blocker::Inside) => r matches Err(RemoveError::Inside(p)) && p@ == worktree.path@,
            Some(Blocker::Dirty) => r matches Err(RemoveError::Dirty(p)) && p@ == worktree.path@,
        },
{
    match removal_blocker(repo, worktree, force, dirty) {
        None => Ok(()),
        Some(Blocker::MainWorktree) => Err(RemoveError::MainWorktree),
        Some(Blocker::Inside) => Err(RemoveError::Inside(worktree.path.clone())),
        Some(Blocker::Dirty) => Err(RemoveError::Dirty(worktree.path.clone())),
    }
}

/// The main worktree is never removed: forced or not, clean or dirty, the
/// answer is the same refusal.
pub proof fn lemma_main_worktree_is_refused(repo: Repo, force: bool, dirty: bool)
    ensures
        blocker_spec(repo, repo.main@, force, dirty) == Some(Blocker::MainWorktree),
{
}

/// Nor is the worktree gwt runs in. `--force` lifts exactly one refusal, the
/// one that rests on uncommitted changes, and leaves the others standing.
pub proof fn lemma_force_lifts_only_dirty(repo: Repo, path: Seq<char>, dirty: bool)
    ensures
        starts_with_spec(repo.cwd@, path) ==> blocker_spec(repo, path, true, dirty) is Some,
        blocker_spec(repo, path, true, dirty) == (match blocker_spec(repo, path, false, dirty) {
            Some(Blocker::Dirty) => None,
            other => other,
        }),
        blocker_spec(repo, path, true, dirty) != Some(Blocker::Dirty),
{
}

impl RemoveError {
    /// What went wrong, in a sentence.
    pub fn message(&self) -> (r: String)
        ensures
            self matches RemoveError::Blocked { path, blocker } ==> r@ == "cannot remove "@ + path@
                + ": "@ + blocker.reason_spec(),
            self matches RemoveError::NotMerged(b) ==> r@ == "branch `"@ + b@
                + "` is not merged into HEAD of the main worktree; pass --force to delete it anyway"@,
            self matches RemoveError::Dirty(p) ==> r@ == p@
                + " has uncommitted changes. Commit them or pass --force"@,
            self matches RemoveError::MainWorktree ==> r@ == "refusing to remove the main worktree"@,
            self matches RemoveError::Inside(p) ==> r@ == "you are inside "@ + p@
                + ". Move out of it first (try `gwt cd @`)"@,
            self matches RemoveError::NoBranch ==> r@ == "the worktree had no branch to remove"@,
    {
        match self {
            RemoveError::Blocked { path, blocker } => {
                let mut m = String::from_str("cannot remove ");
                push_str(&mut m, path.as_str());
                push_str(&mut m, ": ");
                push_str(&mut m, blocker.reason());
                m
            },
            RemoveError::MainWorktree => String::from_str("refusing to remove the main worktree"),
            RemoveError::Inside(p) => {
                let mut m = String::from_str("you are inside ");
                push_str(&mut m, p.as_str());
                push_str(&mut m, ". Move out of it first (try `gwt cd @`)");
                m
            },
            RemoveError::Dirty(p) => {
                let mut m = p.clone();
                push_str(&mut m, " has uncommitted changes. Commit them or pass --force");
                m
            },
            RemoveError::NoBranch => String::from_str("the worktree had no branch to remove"),
            RemoveError::NotMerged(b) => {
                let mut m = String::from_str("branch `");
                push_str(&mut m, b.as_str());
                push_str(
                    &mut m,
                    "` is not merged into HEAD of the main worktree; pass --force to delete it anyway",
                );
                m
            },
        }
    }
}

} // verus!
