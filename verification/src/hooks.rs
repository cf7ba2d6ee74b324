//! The hooks declared in `.gwt.toml`: where each one acts, and what is said
//! about it while they run.
use vstd::prelude::*;

use crate::config::Hook;
use crate::paths::{
    comps, is_abs, is_absolute, join_path, join_paths, normalize, normalize_spec, starts_with,
    starts_with_spec,
};
use crate::text::{decimal, decimal_string, end_trimmed_lines, end_trimmed_nonempty, from_utf8_lossy,
    join, join_with, lines, push_str, utf8_lossy, views};

verus! {

/// Everything a hook is allowed to know about the worktree being created or
/// removed.
pub struct HookContext {
    pub main_worktree: String,
    pub worktree_path: String,
    /// Worktree name as used on the command line (branch name).
    pub name: String,
    pub branch: String,
}

pub open spec fn env_views(v: Seq<(String, String)>) -> Seq<(Seq<char>, Seq<char>)> {
    v.map_values(|p: (String, String)| (p.0@, p.1@))
}

impl HookContext {
    /// The variables every hook sees.
    pub open spec fn env_spec(&self) -> Seq<(Seq<char>, Seq<char>)> {
        seq![
            ("GWT_MAIN_WORKTREE"@, self.main_worktree@),
            ("GWT_WORKTREE_PATH"@, self.worktree_path@),
            ("GWT_WORKTREE_NAME"@, self.name@),
            ("GWT_BRANCH"@, self.branch@),
        ]
    }

    pub fn env(&self) -> (r: Vec<(String, String)>)
        ensures
            env_views(r@) == self.env_spec(),
    {
        let r = vec![
            (String::from_str("GWT_MAIN_WORKTREE"), self.main_worktree.clone()),
            (String::from_str("GWT_WORKTREE_PATH"), self.worktree_path.clone()),
            (String::from_str("GWT_WORKTREE_NAME"), self.name.clone()),
            (String::from_str("GWT_BRANCH"), self.branch.clone()),
        ];
        assert(env_views(r@) =~= self.env_spec());
        r
    }
}

#[derive(PartialEq, Eq, Structural, Clone, Copy, Debug)]
pub enum Phase {
    PreCreate,
    PostCreate,
    PreRemove,
    PostRemove,
}

impl Phase {
    pub open spec fn label_spec(self) -> Seq<char> {
        match self {
            Phase::PreCreate => "pre_create"@,
            Phase::PostCreate => "post_create"@,
            Phase::PreRemove => "pre_remove"@,
            Phase::PostRemove => "post_remove"@,
        }
    }

    pub fn label(&self) -> (r: &'static str)
        ensures
            r@ == self.label_spec(),
    {
        match self {
            Phase::PreCreate => "pre_create",
            Phase::PostCreate => "post_create",
            Phase::PreRemove => "pre_remove",
            Phase::PostRemove => "post_remove",
        }
    }

    pub open spec fn no_worktree_reason_spec(self) -> Seq<char> {
        match self {
            Phase::PreCreate => "the worktree does not exist yet"@,
            Phase::PreRemove => "the worktree is about to be deleted"@,
            _ => "the worktree is already gone"@,
        }
    }

    /// Why this phase has nothing to copy into or link from.
    ///
    /// Only `post_create` hands a hook a worktree that is both there and
    /// still wanted; the other three are told apart in the error so a
    /// misplaced `copy` says what is actually wrong with it.
    pub fn no_worktree_reason(&self) -> (r: &'static str)
        requires
            *self != Phase::PostCreate,
        ensures
            r@ == self.no_worktree_reason_spec(),
    {
        match self {
            Phase::PreCreate => "the worktree does not exist yet",
            Phase::PreRemove => "the worktree is about to be deleted",
            _ => "the worktree is already gone",
        }
    }

    pub fn copy(&self) -> (r: Phase)
        ensures
            r == *self,
    {
        match self {
            Phase::PreCreate => Phase::PreCreate,
            Phase::PostCreate => Phase::PostCreate,
            Phase::PreRemove => Phase::PreRemove,
            Phase::PostRemove => Phase::PostRemove,
        }
    }
}

/// How much of a hook run reaches the terminal.
#[derive(PartialEq, Eq, Structural, Clone, Copy, Debug)]
pub enum Reporting {
    /// Name each hook as it starts, and let it write to the terminal.
    Announce,
    /// Say nothing, but still let hooks write to the terminal (`--quiet`).
    Quiet,
    /// Say nothing and capture what hooks print, for the picker: it owns an
    /// alternate screen in raw mode, where stray output lands in the middle
    /// of the list with its line breaks mangled. A failing hook's last words
    /// are put in the error instead, which is what the picker shows.
    Captured,
}

/// Why a hook cannot run.
pub enum HookError {
    /// A `copy` or `symlink` hook outside `post_create`.
    NotHere { kind: &'static str, phase: Phase },
    /// A hook path that is absolute.
    AbsolutePath(String),
    /// A hook path that leads out of the worktree it belongs to.
    Escapes(String),
}

/// What a hook comes down to, for whoever carries it out.
pub enum HookAction {
    /// Copy `src` (in the main worktree) to `dst` (in the new one).
    Copy { src: String, dst: String },
    /// Make `dst` (in the new worktree) a link to `src` (in the main one).
    Symlink { src: String, dst: String },
    /// Run `command` through `/bin/sh -c` in `cwd` with `env` added, capturing
    /// its output when `capture` is set.
    Run { command: String, cwd: String, env: Vec<(String, String)>, capture: bool },
}

/// `rel` joined onto `base`, resolved lexically, and required to stay below
/// `base`.
pub open spec fn resolve_inside_spec(base: Seq<char>, rel: Seq<char>) -> Option<Seq<char>> {
    if is_abs(rel) {
        None
    } else {
        let joined = normalize_spec(join_path(base, rel));
        if starts_with_spec(joined, base) {
            Some(joined)
        } else {
            None
        }
    }
}

/// Joins `rel` onto `base` and refuses to escape it.
///
/// Hook paths come from a file in the repository, so a stray `../..` should be
/// reported rather than silently writing outside the worktree.
pub fn resolve_inside(base: &str, rel: &str) -> (r: Result<String, HookError>)
    ensures
        match r {
            Ok(p) => resolve_inside_spec(base@, rel@) == Some(p@) && starts_with_spec(p@, base@),
            Err(HookError::AbsolutePath(x)) => is_abs(rel@) && x@ == rel@,
            Err(HookError::Escapes(x)) => !is_abs(rel@) && resolve_inside_spec(base@, rel@) is None
                && x@ == rel@,
            Err(HookError::NotHere { .. }) => false,
        },
{
    if is_absolute(rel) {
        return Err(HookError::AbsolutePath(String::from_str(rel)));
    }
    let joined = join_paths(base, rel);
    let joined = normalize(joined.as_str());
    if !starts_with(joined.as_str(), base) {
        return Err(HookError::Escapes(String::from_str(rel)));
    }
    Ok(joined)
}

/// The error for a hook path `rel` that `resolve_inside` refuses: an
/// absolute path is named as such, any other as one that escapes.
pub open spec fn refusal(rel: Seq<char>, e: HookError) -> bool {
    if is_abs(rel) {
        e matches HookError::AbsolutePath(x) && x@ == rel
    } else {
        e matches HookError::Escapes(x) && x@ == rel
    }
}

/// Where a hook's paths point, or why it cannot run at all.
pub open spec fn plan_ok(
    hook: Hook,
    phase: Phase,
    ctx: HookContext,
    reporting: Reporting,
    action: HookAction,
) -> bool {
    match hook {
        Hook::Copy { from, to } => {
            &&& phase == Phase::PostCreate
            &&& action matches HookAction::Copy { src, dst }
            &&& resolve_inside_spec(ctx.main_worktree@, from@) == Some(src@)
            &&& resolve_inside_spec(ctx.worktree_path@, Hook::target_spec(from@, to)) == Some(dst@)
        },
        Hook::Symlink { from, to } => {
            &&& phase == Phase::PostCreate
            &&& action matches HookAction::Symlink { src, dst }
            &&& resolve_inside_spec(ctx.main_worktree@, from@) == Some(src@)
            &&& resolve_inside_spec(ctx.worktree_path@, Hook::target_spec(from@, to)) == Some(dst@)
        },
        Hook::Command { command, env, work_dir } => {
            &&& action matches HookAction::Run { command: c, cwd, env: e, capture }
            &&& c@ == command@
            &&& env_views(e@) == ctx.env_spec() + env_views(env@)
            &&& capture == (reporting == Reporting::Captured)
            &&& match work_dir {
                None => cwd@ == run_base(phase, ctx),
                Some(d) => resolve_inside_spec(run_base(phase, ctx), d@) == Some(cwd@),
            }
        },
    }
}

/// A hook runs where its work is: in the worktree while there is one, in the
/// main worktree before it exists and after it is gone.
pub open spec fn run_base(phase: Phase, ctx: HookContext) -> Seq<char> {
    match phase {
        Phase::PostCreate | Phase::PreRemove => ctx.worktree_path@,
        Phase::PreCreate | Phase::PostRemove => ctx.main_worktree@,
    }
}

/// Hooks cannot escape their worktree: whatever a planned hook reads, writes
/// or runs in lies below the worktree it belongs to — a copy's source below
/// the main worktree and its destination below the new one, a command's
/// directory below the worktree the phase runs it in.
pub proof fn lemma_hook_paths_stay_inside(
    hook: Hook,
    phase: Phase,
    ctx: HookContext,
    reporting: Reporting,
    action: HookAction,
)
    requires
        plan_ok(hook, phase, ctx, reporting, action),
    ensures
        action matches HookAction::Copy { src, dst } ==> starts_with_spec(
            src@,
            ctx.main_worktree@,
        ) && starts_with_spec(dst@, ctx.worktree_path@),
        action matches HookAction::Symlink { src, dst } ==> starts_with_spec(
            src@,
            ctx.main_worktree@,
        ) && starts_with_spec(dst@, ctx.worktree_path@),
        action matches HookAction::Run { cwd, .. } ==> starts_with_spec(
            cwd@,
            run_base(phase, ctx),
        ),
{
    let b = run_base(phase, ctx);
    assert(comps(b).take(comps(b).len() as int) =~= comps(b));
}

/// Whether a hook can run at all: `copy` and `symlink` need `post_create`,
/// and every path must stay inside its worktree.
pub open spec fn plan_possible(hook: Hook, phase: Phase, ctx: HookContext) -> bool {
    match hook {
        Hook::Copy { from, to } | Hook::Symlink { from, to } => phase == Phase::PostCreate
            && resolve_inside_spec(ctx.main_worktree@, from@) is Some && resolve_inside_spec(
            ctx.worktree_path@,
            Hook::target_spec(from@, to),
        ) is Some,
        Hook::Command { work_dir, .. } => match work_dir {
            None => true,
            Some(d) => resolve_inside_spec(run_base(phase, ctx), d@) is Some,
        },
    }
}

fn target_of<'a>(from: &'a String, to: &'a Option<String>) -> (r: &'a String)
    ensures
        r@ == Hook::target_spec(from@, *to),
{
    match to {
        Some(t) => t,
        None => from,
    }
}

fn copy_env(env: &Vec<(String, String)>) -> (r: Vec<(String, String)>)
    ensures
        env_views(r@) == env_views(env@),
{
    let mut out: Vec<(String, String)> = Vec::new();
    let mut i: usize = 0;
    while i < env.len()
        invariant
            i <= env.len(),
            env_views(out@) == env_views(env@).take(i as int),
        decreases env.len() - i,
    {
        let ghost before = env_views(out@);
        out.push((env[i].0.clone(), env[i].1.clone()));
        assert(env_views(out@) =~= before.push((env@[i as int].0@, env@[i as int].1@)));
        assert(env_views(env@).take(i + 1) =~= env_views(env@).take(i as int).push(
            (env@[i as int].0@, env@[i as int].1@),
        ));
        i = i + 1;
    }
    assert(env_views(env@).take(env.len() as int) == env_views(env@));
    out
}

/// What running `hook` in `phase` comes down to: the paths it reads and
/// writes, or the command, directory and environment it runs with.
pub fn plan_hook(hook: &Hook, phase: &Phase, ctx: &HookContext, reporting: &Reporting) -> (r:
    Result<HookAction, HookError>)
    ensures
        r is Ok <==> plan_possible(*hook, *phase, *ctx),
        r matches Ok(a) ==> plan_ok(*hook, *phase, *ctx, *reporting, a),
        !(hook is Command) && *phase != Phase::PostCreate ==> (r matches Err(
            HookError::NotHere { kind, phase: p },
        ) && kind@ == hook.kind_spec() && p == *phase),
        match *hook {
            Hook::Copy { from, to } | Hook::Symlink { from, to } => *phase == Phase::PostCreate
                ==> if resolve_inside_spec(ctx.main_worktree@, from@) is None {
                r matches Err(e) && refusal(from@, e)
            } else if resolve_inside_spec(ctx.worktree_path@, Hook::target_spec(from@, to)) is None {
                r matches Err(e) && refusal(Hook::target_spec(from@, to), e)
            } else {
                r is Ok
            },
            Hook::Command { work_dir, .. } => match work_dir {
                Some(d) => resolve_inside_spec(run_base(*phase, *ctx), d@) is None ==> (
                r matches Err(e) && refusal(d@, e)),
                None => r is Ok,
            },
        },
{
    match hook {
        Hook::Copy { from, to } => {
            if *phase != Phase::PostCreate {
                return Err(HookError::NotHere { kind: hook.kind(), phase: phase.copy() });
            }
            let src = resolve_inside(ctx.main_worktree.as_str(), from.as_str())?;
            let dst = resolve_inside(ctx.worktree_path.as_str(), target_of(from, to).as_str())?;
            Ok(HookAction::Copy { src, dst })
        },
        Hook::Symlink { from, to } => {
            if *phase != Phase::PostCreate {
                return Err(HookError::NotHere { kind: hook.kind(), phase: phase.copy() });
            }
            let src = resolve_inside(ctx.main_worktree.as_str(), from.as_str())?;
            let dst = resolve_inside(ctx.worktree_path.as_str(), target_of(from, to).as_str())?;
            Ok(HookAction::Symlink { src, dst })
        },
        Hook::Command { command, env, work_dir } => {
            let base: &String = match phase {
                Phase::PostCreate | Phase::PreRemove => &ctx.worktree_path,
                Phase::PreCreate | Phase::PostRemove => &ctx.main_worktree,
            };
            let cwd = match work_dir {
                Some(dir) => resolve_inside(base.as_str(), dir.as_str())?,
                None => base.clone(),
            };
            let mut vars = ctx.env();
            let mut extra = copy_env(env);
            vars.append(&mut extra);
            assert(env_views(vars@) =~= ctx.env_spec() + env_views(env@));
            Ok(
                HookAction::Run {
                    command: command.clone(),
                    cwd,
                    env: vars,
                    capture: *reporting == Reporting::Captured,
                },
            )
        },
    }
}

/// The last few lines a captured hook wrote to stderr: its non-blank lines
/// without trailing whitespace, at most the last three, after `": "` and
/// joined by `"; "`; nothing when it wrote nothing but blanks.
pub open spec fn tail_spec(stderr: Seq<u8>) -> Seq<char> {
    let ls = end_trimmed_nonempty(lines(utf8_lossy(stderr)));
    if ls.len() == 0 {
        seq![]
    } else {
        let start = if ls.len() > 3 {
            ls.len() - 3
        } else {
            0
        };
        ": "@ + join(ls.skip(start), "; "@)
    }
}

/// Captured output is otherwise thrown away, and "exited with status 1" on
/// its own tells you nothing about which command gave up or why.
pub fn tail(stderr: &[u8]) -> (r: String)
    ensures
        r@ == tail_spec(stderr@),
{
    let text = from_utf8_lossy(stderr);
    let ls = end_trimmed_lines(text.as_str());
    if ls.len() == 0 {
        return String::new();
    }
    let start = if ls.len() > 3 {
        ls.len() - 3
    } else {
        0
    };
    let mut kept: Vec<String> = Vec::new();
    let mut i = start;
    while i < ls.len()
        invariant
            start <= i <= ls.len(),
            views(kept@) == views(ls@).subrange(start as int, i as int),
        decreases ls.len() - i,
    {
        let ghost before = views(kept@);
        kept.push(ls[i].clone());
        assert(views(kept@) =~= before.push(ls@[i as int]@));
        assert(views(ls@).subrange(start as int, i + 1) =~= views(ls@).subrange(
            start as int,
            i as int,
        ).push(ls@[i as int]@));
        i = i + 1;
    }
    assert(views(ls@).subrange(start as int, ls.len() as int) == views(ls@).skip(start as int));
    let mut r = String::from_str(": ");
    let joined = join_with(&kept, "; ");
    push_str(&mut r, joined.as_str());
    r
}

/// `i+1/n`, the position of hook `i` (from zero) among `n`.
pub fn position(i: usize, n: usize) -> (r: String)
    requires
        i < n,
    ensures
        r@ == decimal((i + 1) as nat) + "/"@ + decimal(n as nat),
{
    let mut r = decimal_string(i + 1);
    push_str(&mut r, "/");
    let total = decimal_string(n);
    push_str(&mut r, total.as_str());
    r
}

/// The line that opens a phase: `Running pre_create hooks...`.
pub fn announce_line(phase: &Phase) -> (r: String)
    ensures
        r@ == "Running "@ + phase.label_spec() + " hooks..."@,
{
    let mut r = String::from_str("Running ");
    push_str(&mut r, phase.label());
    push_str(&mut r, " hooks...");
    r
}

/// The line naming hook `i` of `hooks` as it starts: `  [1/2] npm install`.
pub fn progress_line(hooks: &Vec<Hook>, i: usize) -> (r: String)
    requires
        i < hooks.len(),
    ensures
        r@ == "  ["@ + decimal((i + 1) as nat) + "/"@ + decimal(hooks.len() as nat) + "] "@
            + hooks@[i as int].summary_spec(),
{
    let mut r = String::from_str("  [");
    let pos = position(i, hooks.len());
    push_str(&mut r, pos.as_str());
    push_str(&mut r, "] ");
    let s = hooks[i].summary();
    push_str(&mut r, s.as_str());
    r
}

/// Said when hook `i` of `n` failed and some never ran:
/// `        stopped here; 1 of 3 did not run`. Nothing when it was the last.
pub fn stopped_line(i: usize, n: usize) -> (r: Option<String>)
    requires
        i < n,
    ensures
        (r is None) <==> (i + 1 == n),
        r matches Some(s) ==> s@ == "        stopped here; "@ + decimal((n - (i + 1)) as nat)
            + " of "@ + decimal(n as nat) + " did not run"@,
{
    let left = n - (i + 1);
    if left == 0 {
        return None;
    }
    let mut r = String::from_str("        stopped here; ");
    let l = decimal_string(left);
    push_str(&mut r, l.as_str());
    push_str(&mut r, " of ");
    let t = decimal_string(n);
    push_str(&mut r, t.as_str());
    push_str(&mut r, " did not run");
    Some(r)
}

/// What a failure of hook `i` is reported as: `post_create hook 2/3 failed:
/// npm install`.
pub fn failure_context(phase: &Phase, hooks: &Vec<Hook>, i: usize) -> (r: String)
    requires
        i < hooks.len(),
    ensures
        r@ == phase.label_spec() + " hook "@ + decimal((i + 1) as nat) + "/"@ + decimal(
            hooks.len() as nat,
        ) + " failed: "@ + hooks@[i as int].summary_spec(),
{
    let mut r = String::from_str(phase.label());
    push_str(&mut r, " hook ");
    let pos = position(i, hooks.len());
    push_str(&mut r, pos.as_str());
    push_str(&mut r, " failed: ");
    let s = hooks[i].summary();
    push_str(&mut r, s.as_str());
    r
}

/// What a run of hooks does next.
pub enum HookStep {
    /// Run hook `index`; when announcing, first print `heading` (before the
    /// first hook only) and then `line`.
    Run { index: usize, heading: Option<String>, line: Option<String> },
    /// Every hook ran.
    Finished,
    /// A hook failed: print `stopped` when there is one, and fail with the
    /// hook's error in `context`. The hooks after it never run.
    Stop { stopped: Option<String>, context: String },
}

/// The next step of running `hooks` in order, once the first `done` have run
/// and `failed` tells whether the last of them failed.
///
/// Hooks run one after another, in the order given, and the first failure
/// ends the run: nothing is rolled back, and the rest are said not to run.
pub fn hook_step(hooks: &Vec<Hook>, phase: &Phase, reporting: &Reporting, done: usize, failed: bool) -> (r:
    HookStep)
    requires
        done <= hooks.len(),
        failed ==> done >= 1,
    ensures
        failed ==> (r matches HookStep::Stop { stopped, context } && context@
            == phase.label_spec() + " hook "@ + decimal(done as nat) + "/"@ + decimal(
            hooks.len() as nat,
        ) + " failed: "@ + hooks@[done - 1].summary_spec() && (stopped is Some <==> (
            *reporting == Reporting::Announce && done < hooks.len())) && (stopped matches Some(
            t,
        ) ==> t@ == "        stopped here; "@ + decimal((hooks.len() - done) as nat) + " of "@
            + decimal(hooks.len() as nat) + " did not run"@)),
        !failed && done == hooks.len() ==> r is Finished,
        !failed && done < hooks.len() ==> (r matches HookStep::Run { index, heading, line } && index
            == done && (heading is Some <==> (*reporting == Reporting::Announce && done == 0)) && (
        heading matches Some(h) ==> h@ == "Running "@ + phase.label_spec() + " hooks..."@) && (
        line is Some <==> *reporting == Reporting::Announce) && (line matches Some(l) ==> l@
            == "  ["@ + decimal((done + 1) as nat) + "/"@ + decimal(hooks.len() as nat) + "] "@
            + hooks@[done as int].summary_spec())),
{
    let announce = *reporting == Reporting::Announce;
    if failed {
        let stopped = if announce {
            stopped_line(done - 1, hooks.len())
        } else {
            None
        };
        return HookStep::Stop { stopped, context: failure_context(phase, hooks, done - 1) };
    }
    if done == hooks.len() {
        return HookStep::Finished;
    }
    let heading = if announce && done == 0 {
        Some(announce_line(phase))
    } else {
        None
    };
    let line = if announce {
        Some(progress_line(hooks, done))
    } else {
        None
    };
    HookStep::Run { index: done, heading, line }
}

impl HookError {
    /// What went wrong, in a sentence.
    pub fn message(&self) -> (r: String)
        ensures
            self matches HookError::AbsolutePath(x) ==> r@ == "absolute paths are not allowed in hooks: "@
                + x@,
            self matches HookError::Escapes(x) ==> r@ == "path escapes the worktree: "@ + x@,
            self matches HookError::NotHere { kind, phase } ==> r@ == "`"@ + kind@
                + "` hooks are only supported in post_create ("@ + (if phase == Phase::PostCreate {
                "the worktree is there"@
            } else {
                phase.no_worktree_reason_spec()
            }) + ")"@,
    {
        match self {
            HookError::NotHere { kind, phase } => {
                let mut m = String::from_str("`");
                push_str(&mut m, kind);
                push_str(&mut m, "` hooks are only supported in post_create (");
                let reason = if *phase == Phase::PostCreate {
                    "the worktree is there"
                } else {
                    phase.no_worktree_reason()
                };
                push_str(&mut m, reason);
                push_str(&mut m, ")");
                m
            },
            HookError::AbsolutePath(rel) => {
                let mut m = String::from_str("absolute paths are not allowed in hooks: ");
                push_str(&mut m, rel.as_str());
                m
            },
            HookError::Escapes(rel) => {
                let mut m = String::from_str("path escapes the worktree: ");
                push_str(&mut m, rel.as_str());
                m
            },
        }
    }
}

} // verus!
