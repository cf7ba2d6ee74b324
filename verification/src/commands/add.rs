//! `gwt add` — create a worktree, creating the branch when it does not exist.
use vstd::prelude::*;

use crate::config::{base_dir_spec, opt_view, ConfigError};
use crate::git::{wt_views, Worktree, WorktreeView};
use crate::paths::{join_path, join_paths, normalize, normalize_spec};
use crate::repo::Repo;
use crate::text::{push_str, strip_prefix, trim, trim_str, views};

verus! {

/// How the branch of the new worktree is obtained.
pub enum Plan {
    /// Check out an existing local branch.
    Existing,
    /// Create a local branch tracking this remote-tracking branch.
    Track(String),
    /// Create a new branch from this start point.
    Create(String),
}

/// Why a worktree cannot be added.
pub enum AddError {
    /// The branch name is empty (or only whitespace).
    EmptyBranch,
    /// A name git would read as an option.
    LeadingDash { what: &'static str, value: String },
    /// Another worktree already has the branch checked out, at this path.
    AlreadyCheckedOut { branch: String, path: String },
    /// Something already exists where the worktree would go.
    PathExists(String),
    /// `--from` for a branch that already exists.
    ExistsWithFrom(String),
    /// `--no-create` together with `--from`.
    NoCreateWithFrom,
    /// `--no-create` for a branch that exists neither locally nor remotely.
    DoesNotExist(String),
    /// The layout of worktrees could not be worked out.
    Config(ConfigError),
}

pub open spec fn starts_with_dash(s: Seq<char>) -> bool {
    s.len() > 0 && s[0] == '-'
}

/// Refuses a name git would read as an option.
///
/// gwt puts `--` in front of the paths and refs it passes, but `git worktree
/// add` turns around and runs `git branch` itself, and that call is git's own.
/// No ref may begin with a dash anyway, so nothing legitimate is turned away.
pub fn reject_leading_dash(what: &'static str, value: &str) -> (r: Result<(), AddError>)
    ensures
        r is Ok <==> !starts_with_dash(value@),
        r matches Err(AddError::LeadingDash { what: w, value: v }) ==> w == what && v@ == value@,
        r matches Err(e) ==> e is LeadingDash,
{
    let v = crate::text::to_chars(value);
    if v.len() > 0 && v[0] == '-' {
        return Err(AddError::LeadingDash { what, value: String::from_str(value) });
    }
    Ok(())
}

/// The branch as given on the command line, trimmed; refused when empty or
/// when it starts with a dash.
pub fn branch_arg(raw: &str) -> (r: Result<String, AddError>)
    ensures
        match r {
            Ok(b) => b@ == trim(raw@) && b@.len() > 0 && !starts_with_dash(b@),
            Err(AddError::EmptyBranch) => trim(raw@).len() == 0,
            Err(AddError::LeadingDash { what, value }) => trim(raw@).len() > 0 && starts_with_dash(
                trim(raw@),
            ) && what@ == "branch name"@ && value@ == trim(raw@),
            Err(_) => false,
        },
{
    let branch = trim_str(raw);
    if branch.as_str().is_empty() {
        return Err(AddError::EmptyBranch);
    }
    reject_leading_dash("branch name", branch.as_str())?;
    Ok(branch)
}

/// Whether the remote-tracking branches have to be looked up: only when no
/// start point was given and there is no local branch of that name.
pub fn needs_remote_lookup(from: Option<&str>, local_exists: bool) -> (r: bool)
    ensures
        r == (from is None && !local_exists),
{
    from.is_none() && !local_exists
}

/// How the branch is obtained, in this order: an existing local branch is
/// checked out; exactly one matching remote branch is tracked; otherwise a
/// new branch is cut from `HEAD`, or from `--from` when given.
///
/// `remotes` are the remote-tracking branches matching the name; they are
/// only read when [`needs_remote_lookup`] says so.
pub fn decide_plan(
    branch: &str,
    from: Option<&str>,
    no_create: bool,
    local_exists: bool,
    remotes: &Vec<String>,
) -> (r: Result<Plan, AddError>)
    ensures
        from is Some && local_exists ==> (r matches Err(AddError::ExistsWithFrom(b)) && b@
            == branch@),
        from is Some && !local_exists && no_create ==> r matches Err(AddError::NoCreateWithFrom),
        from is Some && !local_exists && !no_create ==> (r matches Ok(Plan::Create(s)) && s@
            == from->0@),
        from is None && local_exists ==> r matches Ok(Plan::Existing),
        from is None && !local_exists && remotes.len() == 1 ==> (r matches Ok(Plan::Track(t))
            && t@ == remotes@[0]@),
        from is None && !local_exists && remotes.len() != 1 && no_create ==> (r matches Err(
            AddError::DoesNotExist(b),
        ) && b@ == branch@),
        from is None && !local_exists && remotes.len() != 1 && !no_create ==> (r matches Ok(
            Plan::Create(s),
        ) && s@ == "HEAD"@),
{
    if let Some(start) = from {
        if local_exists {
            return Err(AddError::ExistsWithFrom(String::from_str(branch)));
        }
        if no_create {
            return Err(AddError::NoCreateWithFrom);
        }
        return Ok(Plan::Create(String::from_str(start)));
    }
    if local_exists {
        return Ok(Plan::Existing);
    }
    if remotes.len() == 1 {
        return Ok(Plan::Track(remotes[0].clone()));
    }
    if no_create {
        return Err(AddError::DoesNotExist(String::from_str(branch)));
    }
    Ok(Plan::Create(String::from_str("HEAD")))
}

/// The ref after the path: the branch to check out, or the point the new
/// branch is cut from.
pub open spec fn start_ref(plan: Plan, branch: Seq<char>) -> Seq<char> {
    match plan {
        Plan::Existing => branch,
        Plan::Track(remote) => remote@,
        Plan::Create(start) => start@,
    }
}

/// The arguments of `git worktree add` for a plan.
pub open spec fn git_args_spec(
    plan: Plan,
    branch: Seq<char>,
    path: Seq<char>,
    force: bool,
    quiet: bool,
) -> Seq<Seq<char>> {
    seq!["worktree"@, "add"@] + (if force {
        seq!["--force"@]
    } else {
        seq![]
    }) + (if quiet {
        seq!["--quiet"@]
    } else {
        seq![]
    }) + match plan {
        Plan::Existing => seq![],
        Plan::Track(_) => seq!["--track"@, "-b"@, branch],
        Plan::Create(_) => seq!["-b"@, branch],
    } + seq!["--"@, path, start_ref(plan, branch)]
}

/// What `git worktree add` is told, plan by plan. It always reads
/// `worktree add [--force] [--quiet] ... -- <path> <ref>`, and:
/// - a new branch (`Create`) is always made: `-b <branch>` comes just before
///   `--`, and the start point is the last argument, whatever the flags;
/// - a remote branch (`Track`) is tracked: `--track -b <branch>`, then the
///   remote-tracking branch last;
/// - an existing branch is checked out as it is: nothing but the flags
///   before `--`, and the branch itself last.
pub proof fn lemma_the_plan_decides_the_branch(
    plan: Plan,
    branch: Seq<char>,
    path: Seq<char>,
    force: bool,
    quiet: bool,
)
    ensures
        ({
            let a = git_args_spec(plan, branch, path, force, quiet);
            let n = a.len() as int;
            let flags = (if force { 1int } else { 0int }) + (if quiet { 1int } else { 0int });
            &&& n >= 5
            &&& a[0] == "worktree"@ && a[1] == "add"@
            &&& force ==> a[2] == "--force"@
            &&& quiet ==> a[2 + (if force { 1int } else { 0int })] == "--quiet"@
            &&& a[n - 3] == "--"@ && a[n - 2] == path
            &&& plan matches Plan::Create(start) ==> (n == 7 + flags && a[n - 5] == "-b"@ && a[n
                - 4] == branch && a[n - 1] == start@)
            &&& plan matches Plan::Track(remote) ==> (n == 8 + flags && a[n - 6] == "--track"@
                && a[n - 5] == "-b"@ && a[n - 4] == branch && a[n - 1] == remote@)
            &&& plan is Existing ==> (n == 5 + flags && a[n - 1] == branch)
        }),
{
    let a = git_args_spec(plan, branch, path, force, quiet);
    let f: Seq<Seq<char>> = if force { seq!["--force"@] } else { seq![] };
    let q: Seq<Seq<char>> = if quiet { seq!["--quiet"@] } else { seq![] };
    let m: Seq<Seq<char>> = match plan {
        Plan::Existing => seq![],
        Plan::Track(_) => seq!["--track"@, "-b"@, branch],
        Plan::Create(_) => seq!["-b"@, branch],
    };
    let t = seq!["--"@, path, start_ref(plan, branch)];
    let h = seq!["worktree"@, "add"@];
    assert(a == h + f + q + m + t);
    assert((h + f + q + m + t)[0] == h[0]);
    assert((h + f + q + m + t)[1] == h[1]);
    if force {
        assert((h + f + q + m + t)[2] == f[0]);
    }
    if quiet {
        assert((h + f + q + m + t)[2 + f.len() as int] == q[0]);
    }
    let n = a.len() as int;
    assert(a[n - 3] == t[0] && a[n - 2] == t[1] && a[n - 1] == t[2]);
    match plan {
        Plan::Create(_) => {
            assert(a[n - 5] == m[0] && a[n - 4] == m[1]);
        },
        Plan::Track(_) => {
            assert(a[n - 6] == m[0] && a[n - 5] == m[1] && a[n - 4] == m[2]);
        },
        Plan::Existing => {},
    }
}

fn push_arg(args: &mut Vec<String>, a: &str)
    ensures
        views(final(args)@) == views(old(args)@).push(a@),
{
    let ghost before = views(args@);
    args.push(String::from_str(a));
    assert(views(args@) =~= before.push(a@));
}

/// Past `--` everything is a path or a ref. Nothing here comes from a shell,
/// so this is not about quoting: it is about a name that starts with a dash
/// being a name git rejects rather than an option git obeys.
pub fn git_args(plan: &Plan, branch: &str, path: &str, force: bool, quiet: bool) -> (r: Vec<String>)
    ensures
        views(r@) == git_args_spec(*plan, branch@, path@, force, quiet),
        views(r@).len() >= 5,
        views(r@).last() == start_ref(*plan, branch@),
        views(r@)[views(r@).len() - 2] == path@,
        views(r@)[views(r@).len() - 3] == "--"@,
{
    let mut args: Vec<String> = Vec::new();
    push_arg(&mut args, "worktree");
    push_arg(&mut args, "add");
    assert(views(args@) =~= seq!["worktree"@, "add"@]);
    let ghost a0 = views(args@);
    if force {
        push_arg(&mut args, "--force");
    }
    let ghost a1 = views(args@);
    assert(a1 =~= a0 + (if force {
        seq!["--force"@]
    } else {
        seq![]
    }));
    if quiet {
        push_arg(&mut args, "--quiet");
    }
    let ghost a2 = views(args@);
    assert(a2 =~= a1 + (if quiet {
        seq!["--quiet"@]
    } else {
        seq![]
    }));
    let start = match plan {
        Plan::Existing => String::from_str(branch),
        Plan::Track(remote) => {
            push_arg(&mut args, "--track");
            push_arg(&mut args, "-b");
            push_arg(&mut args, branch);
            remote.clone()
        },
        Plan::Create(start) => {
            push_arg(&mut args, "-b");
            push_arg(&mut args, branch);
            start.clone()
        },
    };
    let ghost a3 = views(args@);
    assert(a3 =~= a2 + match *plan {
        Plan::Existing => seq![],
        Plan::Track(_) => seq!["--track"@, "-b"@, branch@],
        Plan::Create(_) => seq!["-b"@, branch@],
    });
    push_arg(&mut args, "--");
    push_arg(&mut args, path);
    let ghost before = views(args@);
    args.push(start);
    assert(views(args@) =~= before.push(start_ref(*plan, branch@)));
    assert(views(args@) =~= a3 + seq!["--"@, path@, start_ref(*plan, branch@)]);
    args
}

/// Where the new worktree goes: `--path` resolved against where gwt runs,
/// or the configured layout.
pub fn target_path(repo: &Repo, path: Option<&str>, branch: &str) -> (r: Result<String, AddError>)
    ensures
        match path {
            Some(p) => r matches Ok(t) && t@ == normalize_spec(join_path(repo.cwd@, p@)),
            None => match base_dir_spec(repo.config, repo.main@, opt_view(repo.home)) {
                Ok(b) => r matches Ok(t) && t@ == join_path(b, branch@),
                Err(e) => r == Err::<String, AddError>(AddError::Config(e)),
            },
        },
{
    match path {
        Some(p) => {
            let joined = join_paths(repo.cwd.as_str(), p);
            Ok(normalize(joined.as_str()))
        },
        None => match repo.worktree_path_for(branch) {
            Ok(t) => Ok(t),
            Err(e) => Err(AddError::Config(e)),
        },
    }
}

/// The first worktree that has `branch` checked out.
pub open spec fn checked_out_index(ws: Seq<WorktreeView>, branch: Seq<char>) -> int
    decreases ws.len(),
{
    if ws.len() == 0 {
        -1
    } else if ws[0].branch == Some(branch) {
        0
    } else {
        let k = checked_out_index(ws.drop_first(), branch);
        if k < 0 {
            -1
        } else {
            k + 1
        }
    }
}

proof fn lemma_checked_out_index(ws: Seq<WorktreeView>, branch: Seq<char>, k: int)
    requires
        0 <= k <= ws.len(),
        forall|j: int| 0 <= j < k ==> ws[j].branch != Some(branch),
        k < ws.len() ==> ws[k].branch == Some(branch),
    ensures
        checked_out_index(ws, branch) == (if k < ws.len() {
            k
        } else {
            -1
        }),
    decreases ws.len(),
{
    if ws.len() > 0 && k > 0 {
        let d = ws.drop_first();
        assert forall|j: int| 0 <= j < k - 1 implies d[j].branch != Some(branch) by {
            assert(d[j] == ws[j + 1]);
        }
        lemma_checked_out_index(d, branch, k - 1);
    }
}

/// Refuses a branch another worktree already has, unless forced.
pub fn check_not_checked_out(worktrees: &Vec<Worktree>, branch: &str, force: bool) -> (r: Result<
    (),
    AddError,
>)
    ensures
        force ==> r is Ok,
        !force ==> (r is Ok <==> checked_out_index(wt_views(worktrees@), branch@) < 0),
        r matches Err(AddError::AlreadyCheckedOut { branch: b, path }) ==> b@ == branch@ && path@
            == wt_views(worktrees@)[checked_out_index(wt_views(worktrees@), branch@)].path,
        r matches Err(e) ==> e is AlreadyCheckedOut,
{
    if force {
        return Ok(());
    }
    let ghost ws = wt_views(worktrees@);
    let mut i: usize = 0;
    while i < worktrees.len()
        invariant
            i <= worktrees.len(),
            !force,
            ws == wt_views(worktrees@),
            forall|j: int| 0 <= j < i ==> ws[j].branch != Some(branch@),
        decreases worktrees.len() - i,
    {
        assert(ws[i as int] == worktrees@[i as int]@);
        let hit = match &worktrees[i].branch {
            Some(b) => crate::text::eq(b.as_str(), branch),
            None => false,
        };
        if hit {
            proof {
                lemma_checked_out_index(ws, branch@, i as int);
            }
            return Err(
                AddError::AlreadyCheckedOut {
                    branch: String::from_str(branch),
                    path: worktrees[i].path.clone(),
                },
            );
        }
        i = i + 1;
    }
    proof {
        lemma_checked_out_index(ws, branch@, ws.len() as int);
    }
    Ok(())
}

/// What `gwt add` says about the branch once git has made the worktree.
pub fn plan_message(plan: &Plan, branch: &str) -> (r: String)
    ensures
        r@ == match *plan {
            Plan::Existing => "Checked out existing branch `"@ + branch@ + "`"@,
            Plan::Track(remote) => "Created branch `"@ + branch@ + "` tracking `"@ + remote@
                + "`"@,
            Plan::Create(start) => "Created branch `"@ + branch@ + "` from `"@ + start@ + "`"@,
        },
{
    match plan {
        Plan::Existing => {
            let mut m = String::from_str("Checked out existing branch `");
            push_str(&mut m, branch);
            push_str(&mut m, "`");
            m
        },
        Plan::Track(remote) => {
            let mut m = String::from_str("Created branch `");
            push_str(&mut m, branch);
            push_str(&mut m, "` tracking `");
            push_str(&mut m, remote.as_str());
            push_str(&mut m, "`");
            m
        },
        Plan::Create(start) => {
            let mut m = String::from_str("Created branch `");
            push_str(&mut m, branch);
            push_str(&mut m, "` from `");
            push_str(&mut m, start.as_str());
            push_str(&mut m, "`");
            m
        },
    }
}

impl AddError {
    /// What went wrong, in a sentence.
    pub fn message(&self) -> (r: String)
        ensures
            self matches AddError::AlreadyCheckedOut { branch, path } ==> r@ == "branch `"@
                + branch@ + "` is already checked out at "@ + path@,
            self matches AddError::DoesNotExist(b) ==> r@ == "branch `"@ + b@
                + "` does not exist (--no-create was given)"@,
            self matches AddError::EmptyBranch ==> r@ == "branch name must not be empty"@,
            self matches AddError::LeadingDash { what, value } ==> r@ == what@
                + " must not start with `-`: `"@ + value@ + "`"@,
            self matches AddError::PathExists(p) ==> r@ == "path already exists: "@ + p@,
            self matches AddError::ExistsWithFrom(b) ==> r@ == "branch `"@ + b@
                + "` already exists; omit --from to check it out"@,
            self matches AddError::NoCreateWithFrom ==> r@ == "--no-create conflicts with --from"@,
            self matches AddError::Config(e) ==> r@ == e.message_spec(),
    {
        match self {
            AddError::EmptyBranch => String::from_str("branch name must not be empty"),
            AddError::LeadingDash { what, value } => {
                let mut m = String::from_str(what);
                push_str(&mut m, " must not start with `-`: `");
                push_str(&mut m, value.as_str());
                push_str(&mut m, "`");
                m
            },
            AddError::AlreadyCheckedOut { branch, path } => {
                let mut m = String::from_str("branch `");
                push_str(&mut m, branch.as_str());
                push_str(&mut m, "` is already checked out at ");
                push_str(&mut m, path.as_str());
                m
            },
            AddError::PathExists(p) => {
                let mut m = String::from_str("path already exists: ");
                push_str(&mut m, p.as_str());
                m
            },
            AddError::ExistsWithFrom(b) => {
                let mut m = String::from_str("branch `");
                push_str(&mut m, b.as_str());
                push_str(&mut m, "` already exists; omit --from to check it out");
                m
            },
            AddError::NoCreateWithFrom => String::from_str("--no-create conflicts with --from"),
            AddError::DoesNotExist(b) => {
                let mut m = String::from_str("branch `");
                push_str(&mut m, b.as_str());
                push_str(&mut m, "` does not exist (--no-create was given)");
                m
            },
            AddError::Config(e) => e.message(),
        }
    }
}

} // verus!
