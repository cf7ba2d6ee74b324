//! What gwt reads from git, and what it asks git to do.
//!
//! Running git is the caller's business; this module holds the arguments
//! that go to it and the reading of what comes back.
use vstd::prelude::*;

use crate::paths::{file_name, file_name_spec};
use crate::text::{
    contains, contains_str, index_of, lines, lines_of, non_empty_lines, opt_views, parse_usize,
    parse_usize_str, split, split_on, strip_prefix, strip_prefix_str, string_of, to_chars,
    trim, trim_end, trim_end_char, trim_end_char_str, trim_end_str, trim_start_char,
    trim_start_char_str, trim_str, trimmed_nonempty, views, from_utf8_lossy, push_str, utf8_lossy, lemma_index_of_at, lemma_trim_bounds,
};

verus! {

/// Environment variables that pin git to a particular repository or index.
///
/// gwt always means "the repository containing this directory", so it works
/// that out from the path it was handed, not from whatever a caller exported.
/// The case that matters is being run from a git hook: git gives its hooks a
/// `GIT_DIR`, and git reads that before it looks at the working directory, so
/// without this every call would land on the hook's repository instead.
///
/// Deliberately absent are `GIT_CONFIG_GLOBAL` and its relatives. Which
/// repository to act on is gwt's business; how git is configured is the
/// user's.
pub const REPO_ENV: [&'static str; 7] = [
    "GIT_DIR",
    "GIT_WORK_TREE",
    "GIT_COMMON_DIR",
    "GIT_INDEX_FILE",
    "GIT_OBJECT_DIRECTORY",
    "GIT_ALTERNATE_OBJECT_DIRECTORIES",
    "GIT_PREFIX",
];

/// A single entry of `git worktree list --porcelain`.
pub struct Worktree {
    pub path: String,
    pub head: Option<String>,
    /// Short branch name (`refs/heads/` stripped), `None` when detached or bare.
    pub branch: Option<String>,
    pub bare: bool,
    pub detached: bool,
    pub locked: bool,
}

/// A worktree entry as values.
pub ghost struct WorktreeView {
    pub path: Seq<char>,
    pub head: Option<Seq<char>>,
    pub branch: Option<Seq<char>>,
    pub bare: bool,
    pub detached: bool,
    pub locked: bool,
}

impl View for Worktree {
    type V = WorktreeView;

    open spec fn view(&self) -> WorktreeView {
        WorktreeView {
            path: self.path@,
            head: opt_views(self.head),
            branch: opt_views(self.branch),
            bare: self.bare,
            detached: self.detached,
            locked: self.locked,
        }
    }
}

pub open spec fn wt_views(ws: Seq<Worktree>) -> Seq<WorktreeView> {
    ws.map_values(|w: Worktree| w@)
}

fn copy_opt(o: &Option<String>) -> (r: Option<String>)
    ensures
        r == *o,
{
    match o {
        Some(s) => Some(s.clone()),
        None => None,
    }
}

impl Worktree {
    /// The same entry, field by field.
    pub fn duplicate(&self) -> (r: Worktree)
        ensures
            r@ == self@,
    {
        Worktree {
            path: self.path.clone(),
            head: copy_opt(&self.head),
            branch: copy_opt(&self.branch),
            bare: self.bare,
            detached: self.detached,
            locked: self.locked,
        }
    }

    /// The name used to refer to this worktree on the command line: the
    /// branch name if it has one, otherwise the directory name.
    pub open spec fn name_spec(w: WorktreeView) -> Seq<char> {
        match w.branch {
            Some(b) => b,
            None => match file_name_spec(w.path) {
                Some(n) => n,
                None => w.path,
            },
        }
    }

    pub fn name(&self) -> (r: String)
        ensures
            r@ == Self::name_spec(self@),
    {
        match &self.branch {
            Some(b) => b.clone(),
            None => match file_name(self.path.as_str()) {
                Some(n) => n,
                None => self.path.clone(),
            },
        }
    }

    /// The commit abbreviated to its first seven characters, or `-`.
    pub open spec fn short_head_spec(w: WorktreeView) -> Seq<char> {
        match w.head {
            Some(sha) => if sha.len() > 7 {
                sha.take(7)
            } else {
                sha
            },
            None => seq!['-'],
        }
    }

    pub fn short_head(&self) -> (r: String)
        ensures
            r@ == Self::short_head_spec(self@),
    {
        match &self.head {
            Some(sha) => {
                let v = to_chars(sha.as_str());
                let n = if v.len() > 7 {
                    7
                } else {
                    v.len()
                };
                let r = string_of(&v, 0, n);
                assert(v@.len() <= 7 ==> v@.subrange(0, n as int) == v@);
                r
            },
            None => {
                let r = String::from_str("-");
                proof {
                    reveal_strlit("-");
                    assert("-"@ =~= seq!['-']);
                }
                r
            },
        }
    }
}

/// `(key, value)` of a porcelain line, split at the first space.
pub open spec fn split_key(line: Seq<char>) -> (Seq<char>, Seq<char>) {
    let i = index_of(line, ' ');
    if i < 0 {
        (line, seq![])
    } else {
        (line.take(i), line.skip(i + 1))
    }
}

pub open spec fn new_entry(path: Seq<char>) -> WorktreeView {
    WorktreeView {
        path,
        head: None,
        branch: None,
        bare: false,
        detached: false,
        locked: false,
    }
}

/// The branch of a `branch` line: `refs/heads/` dropped when it is there.
pub open spec fn short_branch(value: Seq<char>) -> Seq<char> {
    match strip_prefix(value, "refs/heads/"@) {
        Some(b) => b,
        None => value,
    }
}

/// An attribute line applied to the entry it belongs to; unknown keys are
/// ignored.
pub open spec fn apply_attr(w: WorktreeView, key: Seq<char>, value: Seq<char>) -> WorktreeView {
    if key == "HEAD"@ {
        WorktreeView { head: Some(value), ..w }
    } else if key == "branch"@ {
        WorktreeView { branch: Some(short_branch(value)), ..w }
    } else if key == "bare"@ {
        WorktreeView { bare: true, ..w }
    } else if key == "detached"@ {
        WorktreeView { detached: true, ..w }
    } else if key == "locked"@ {
        WorktreeView { locked: true, ..w }
    } else {
        w
    }
}

pub open spec fn flush(done: Seq<WorktreeView>, cur: Option<WorktreeView>) -> Seq<WorktreeView> {
    match cur {
        Some(w) => done.push(w),
        None => done,
    }
}

/// One line of porcelain output: a blank line closes the entry, a `worktree`
/// line opens the next, and any other line describes the open entry (and is
/// ignored when none is open).
pub open spec fn porcelain_step(
    st: (Seq<WorktreeView>, Option<WorktreeView>),
    raw: Seq<char>,
) -> (Seq<WorktreeView>, Option<WorktreeView>) {
    let line = trim_end(raw);
    if line.len() == 0 {
        (flush(st.0, st.1), None)
    } else {
        let kv = split_key(line);
        if kv.0 == "worktree"@ {
            (flush(st.0, st.1), Some(new_entry(kv.1)))
        } else {
            match st.1 {
                None => st,
                Some(w) => (st.0, Some(apply_attr(w, kv.0, kv.1))),
            }
        }
    }
}

pub open spec fn porcelain_fold(ls: Seq<Seq<char>>) -> (Seq<WorktreeView>, Option<WorktreeView>)
    decreases ls.len(),
{
    if ls.len() == 0 {
        (seq![], None)
    } else {
        porcelain_step(porcelain_fold(ls.drop_last()), ls.last())
    }
}

/// The entries of `git worktree list --porcelain`, in order.
pub open spec fn worktree_list_spec(porcelain: Seq<char>) -> Seq<WorktreeView> {
    let st = porcelain_fold(lines(porcelain));
    flush(st.0, st.1)
}

fn split_key_exec(line: &str) -> (r: (String, String))
    ensures
        (r.0@, r.1@) == split_key(line@),
{
    let v = to_chars(line);
    let i = crate::text::find_char(&v, 0, v.len(), ' ');
    assert(v@.subrange(0, v.len() as int) == v@);
    if i < v.len() {
        let k = string_of(&v, 0, i);
        let val = string_of(&v, i + 1, v.len());
        assert(k@ == v@.take(i as int));
        assert(val@ == v@.skip(i + 1));
        (k, val)
    } else {
        (string_of(&v, 0, v.len()), String::new())
    }
}

fn push_current(done: &mut Vec<Worktree>, cur: Option<Worktree>)
    ensures
        wt_views(final(done)@) == flush(wt_views(old(done)@), match cur {
            Some(w) => Some(w@),
            None => None,
        }),
{
    match cur {
        Some(w) => {
            let ghost before = wt_views(done@);
            done.push(w);
            assert(wt_views(done@) =~= before.push(w@));
        },
        None => {},
    }
}

pub open spec fn opt_wt(o: Option<Worktree>) -> Option<WorktreeView> {
    match o {
        Some(w) => Some(w@),
        None => None,
    }
}

fn apply_attr_exec(w: &mut Worktree, key: &str, value: String)
    ensures
        final(w)@ == apply_attr(old(w)@, key@, value@),
{
    if crate::text::eq(key, "HEAD") {
        w.head = Some(value);
    } else if crate::text::eq(key, "branch") {
        let b = match strip_prefix_str(value.as_str(), "refs/heads/") {
            Some(b) => b,
            None => value,
        };
        w.branch = Some(b);
    } else if crate::text::eq(key, "bare") {
        w.bare = true;
    } else if crate::text::eq(key, "detached") {
        w.detached = true;
    } else if crate::text::eq(key, "locked") {
        w.locked = true;
    }
}

fn porcelain_step_exec(done: &mut Vec<Worktree>, cur: &mut Option<Worktree>, raw: &String)
    ensures
        (wt_views(final(done)@), opt_wt(*final(cur))) == porcelain_step(
            (wt_views(old(done)@), opt_wt(*old(cur))),
            raw@,
        ),
{
    let line = trim_end_str(raw.as_str());
    if line.as_str().is_empty() {
        let c = cur.take();
        push_current(done, c);
        return ;
    }
    let (key, value) = split_key_exec(line.as_str());
    if crate::text::eq(key.as_str(), "worktree") {
        let c = cur.take();
        push_current(done, c);
        *cur = Some(
            Worktree {
                path: value,
                head: None,
                branch: None,
                bare: false,
                detached: false,
                locked: false,
            },
        );
    } else {
        match cur {
            None => {},
            Some(w) => {
                apply_attr_exec(w, key.as_str(), value);
            },
        }
    }
}

/// Reads `git worktree list --porcelain`.
pub fn parse_worktree_list(porcelain: &str) -> (r: Vec<Worktree>)
    ensures
        wt_views(r@) == worktree_list_spec(porcelain@),
{
    let ls = lines_of(porcelain);
    let mut done: Vec<Worktree> = Vec::new();
    let mut cur: Option<Worktree> = None;
    let mut i: usize = 0;
    while i < ls.len()
        invariant
            i <= ls.len(),
            (wt_views(done@), opt_wt(cur)) == porcelain_fold(views(ls@).take(i as int)),
        decreases ls.len() - i,
    {
        assert(views(ls@).take(i + 1).drop_last() == views(ls@).take(i as int));
        assert(views(ls@).take(i + 1).last() == ls@[i as int]@);
        porcelain_step_exec(&mut done, &mut cur, &ls[i]);
        i = i + 1;
    }
    assert(views(ls@).take(ls.len() as int) == views(ls@));
    push_current(&mut done, cur);
    done
}

/// The main worktree of a repository: the first entry of `worktree list`.
pub open spec fn main_worktree_spec(in_repo: bool, porcelain: Seq<char>) -> Result<
    Seq<char>,
    GitError,
> {
    if !in_repo {
        Err(GitError::NotARepository)
    } else if worktree_list_spec(porcelain).len() == 0 {
        Err(GitError::NoMainWorktree)
    } else {
        Ok(worktree_list_spec(porcelain)[0].path)
    }
}

/// Why gwt could not work out the repository.
pub enum GitError {
    /// `git rev-parse --git-dir` failed where gwt was run.
    NotARepository,
    /// `git worktree list` named no worktree at all.
    NoMainWorktree,
}

impl GitError {
    /// What went wrong, in a sentence.
    pub fn message(&self) -> (r: String)
        ensures
            self matches GitError::NotARepository ==> r@ == "not inside a git repository"@,
            self matches GitError::NoMainWorktree ==> r@ == "could not determine the main worktree"@,
    {
        match self {
            GitError::NotARepository => String::from_str("not inside a git repository"),
            GitError::NoMainWorktree => String::from_str("could not determine the main worktree"),
        }
    }
}

/// The main worktree of the repository, given whether `git rev-parse
/// --git-dir` succeeded and what `git worktree list --porcelain` printed.
///
/// Every path in the configuration is resolved against it, so that gwt
/// behaves the same no matter which worktree it is invoked from.
pub fn main_worktree(in_repo: bool, porcelain: &str) -> (r: Result<String, GitError>)
    ensures
        match r {
            Ok(p) => main_worktree_spec(in_repo, porcelain@) == Ok::<Seq<char>, GitError>(p@),
            Err(e) => main_worktree_spec(in_repo, porcelain@) == Err::<Seq<char>, GitError>(e),
        },
{
    if !in_repo {
        return Err(GitError::NotARepository);
    }
    let list = parse_worktree_list(porcelain);
    if list.len() == 0 {
        return Err(GitError::NoMainWorktree);
    }
    assert(wt_views(list@)[0] == list@[0]@);
    Ok(list[0].path.clone())
}

/// What a successful git call printed, as gwt reads it: decoded, without
/// trailing whitespace.
pub fn output_text(stdout: &[u8]) -> (r: String)
    ensures
        r@ == trim_end(utf8_lossy(stdout@)),
{
    let text = from_utf8_lossy(stdout);
    trim_end_str(text.as_str())
}

/// The error for a git call that failed: `git failed: ` and what git said
/// on stderr, trimmed.
pub fn failure_text(stderr: &[u8]) -> (r: String)
    ensures
        r@ == "git failed: "@ + trim(utf8_lossy(stderr@)),
{
    let text = from_utf8_lossy(stderr);
    let mut r = String::from_str("git failed: ");
    let t = trim_str(text.as_str());
    push_str(&mut r, t.as_str());
    r
}

/// Progress git printed on stdout during a call made for its effect, to be
/// passed on to stderr; nothing when it printed only whitespace.
///
/// gwt's own stdout is reserved for paths, so that `gwt add --quiet` and
/// `gwt cd` stay usable in command substitution.
pub fn chatter(stdout: &[u8]) -> (r: Option<String>)
    ensures
        trim(utf8_lossy(stdout@)).len() == 0 ==> r is None,
        trim(utf8_lossy(stdout@)).len() > 0 ==> (r matches Some(t) && t@ == utf8_lossy(stdout@)),
{
    let text = from_utf8_lossy(stdout);
    let t = trim_str(text.as_str());
    if t.as_str().is_empty() {
        None
    } else {
        Some(text)
    }
}

/// The first line of `s`, or nothing when it has none.
pub open spec fn first_line(s: Seq<char>) -> Seq<char> {
    if lines(s).len() > 0 {
        lines(s)[0]
    } else {
        seq![]
    }
}

/// Whether a branch is in `HEAD` by content though not by ancestry, as a
/// squash or rebase merge leaves it: merging it into `HEAD` (what `git
/// merge-tree --write-tree HEAD <branch>` printed, `None` when that failed,
/// on a conflict or on a git without it) gives `HEAD`'s own tree, and the
/// branch changes something against the merge base. A branch that changes
/// nothing merges into anything without effect, which proves nothing.
pub open spec fn squash_merged_spec(
    merge_tree: Option<Seq<char>>,
    head_tree: Seq<char>,
    branch_tree: Seq<char>,
    base_tree: Seq<char>,
) -> bool {
    &&& merge_tree is Some
    &&& head_tree.len() > 0
    &&& first_line(merge_tree->0) == head_tree
    &&& branch_tree != base_tree
}

pub fn squash_merged(
    merge_tree: &Option<String>,
    head_tree: &str,
    branch_tree: &str,
    base_tree: &str,
) -> (r: bool)
    ensures
        r == squash_merged_spec(opt_views(*merge_tree), head_tree@, branch_tree@, base_tree@),
{
    match merge_tree {
        None => false,
        Some(out) => {
            if head_tree.is_empty() {
                return false;
            }
            let ls = lines_of(out.as_str());
            let same = if ls.len() > 0 {
                assert(views(ls@)[0] == ls@[0]@);
                crate::text::eq(ls[0].as_str(), head_tree)
            } else {
                false
            };
            same && !crate::text::eq(branch_tree, base_tree)
        },
    }
}

/// The tree of a revision, as git names it: `<rev>^{tree}`.
pub fn tree_of(rev: &str) -> (r: String)
    ensures
        r@ == rev@ + "^{tree}"@,
{
    let mut r = String::from_str(rev);
    push_str(&mut r, "^{tree}");
    r
}

/// Arguments of the query that lists the worktrees.
pub fn worktree_list_args() -> (r: Vec<&'static str>)
    ensures
        r@.len() == 3,
        r@[0]@ == "worktree"@,
        r@[1]@ == "list"@,
        r@[2]@ == "--porcelain"@,
{
    vec!["worktree", "list", "--porcelain"]
}

/// The ref a local branch would have.
pub fn local_branch_ref(branch: &str) -> (r: String)
    ensures
        r@ == "refs/heads/"@ + branch@,
{
    let mut r = String::from_str("refs/heads/");
    crate::text::push_str(&mut r, branch);
    r
}

/// The pattern of remote-tracking branches whose name after the remote is
/// `branch`.
pub fn remote_branch_pattern(branch: &str) -> (r: String)
    ensures
        r@ == "refs/remotes/*/"@ + branch@,
{
    let mut r = String::from_str("refs/remotes/*/");
    crate::text::push_str(&mut r, branch);
    r
}

/// Names in `for-each-ref` output: one per line, blank lines skipped.
///
/// Returns entries such as `origin/feature/foo` for the remote query, and
/// branch names for the local ones.
pub fn remote_branches_matching(output: &str) -> (r: Vec<String>)
    ensures
        views(r@) == lines(output@).filter(|l: Seq<char>| l.len() > 0),
{
    let ls = lines_of(output);
    let mut out: Vec<String> = Vec::new();
    let mut i: usize = 0;
    while i < ls.len()
        invariant
            i <= ls.len(),
            views(out@) == views(ls@).take(i as int).filter(|l: Seq<char>| l.len() > 0),
        decreases ls.len() - i,
    {
        let ghost before = views(out@);
        let ghost pre = views(ls@).take(i + 1);
        assert(pre.drop_last() == views(ls@).take(i as int));
        assert(pre.last() == ls@[i as int]@);
        reveal_with_fuel(Seq::<_>::filter, 1);
        if !ls[i].as_str().is_empty() {
            out.push(ls[i].clone());
            assert(views(out@) =~= before.push(ls@[i as int]@));
        }
        i = i + 1;
    }
    assert(views(ls@).take(ls.len() as int) == views(ls@));
    out
}

/// All local branch names, from `for-each-ref refs/heads`.
pub fn local_branches(output: &str) -> (r: Vec<String>)
    ensures
        views(r@) == trimmed_nonempty(lines(output@)),
{
    non_empty_lines(output)
}

/// Everything that can serve as a start point for a new branch: branches,
/// tags and remote-tracking branches, one per line.
pub fn start_points(output: &str) -> (r: Vec<String>)
    ensures
        views(r@) == trimmed_nonempty(lines(output@)),
{
    non_empty_lines(output)
}

/// Every branch already contained in `HEAD` of the main worktree, from
/// `git branch --merged HEAD`.
///
/// The picker asks about each worktree in turn; one call answers them all.
pub fn merged_branches(output: &str) -> (r: Vec<String>)
    ensures
        views(r@) == trimmed_nonempty(lines(output@)),
{
    non_empty_lines(output)
}

/// `true` if `git status --porcelain` reported anything: staged or
/// unstaged changes.
pub fn is_dirty(status: &str) -> (r: bool)
    ensures
        r == (status@.len() > 0),
{
    !status.is_empty()
}

/// `true` if `branch` is among the branches merged into `HEAD` of the main
/// worktree.
pub fn is_merged(merged: &Vec<String>, branch: &str) -> (r: bool)
    ensures
        r == views(merged@).contains(branch@),
{
    let mut i: usize = 0;
    while i < merged.len()
        invariant
            i <= merged.len(),
            forall|j: int| 0 <= j < i ==> merged@[j]@ != branch@,
        decreases merged.len() - i,
    {
        if crate::text::eq(merged[i].as_str(), branch) {
            assert(views(merged@)[i as int] == branch@);
            return true;
        }
        i = i + 1;
    }
    assert forall|j: int| 0 <= j < views(merged@).len() implies views(merged@)[j] != branch@ by {
        assert(views(merged@)[j] == merged@[j]@);
    }
    false
}

/// `(origin/feature/foo, feature/foo)` from one line of
/// `for-each-ref --format=%(refname:short)%09%(refname:strip=3) refs/remotes`,
/// or nothing: a line without a tab, an empty short name, and `<remote>/HEAD`
/// (a symbolic ref, not a branch anyone would check out) are skipped.
pub open spec fn remote_row(line: Seq<char>) -> Option<(Seq<char>, Seq<char>)> {
    let i = index_of(line, '\t');
    if i < 0 {
        None
    } else {
        let full = line.take(i);
        let short = line.skip(i + 1);
        if short == "HEAD"@ || short.len() == 0 {
            None
        } else {
            Some((full, short))
        }
    }
}

pub open spec fn remote_rows(ls: Seq<Seq<char>>) -> Seq<(Seq<char>, Seq<char>)>
    decreases ls.len(),
{
    if ls.len() == 0 {
        seq![]
    } else {
        match remote_row(ls.last()) {
            Some(p) => remote_rows(ls.drop_last()).push(p),
            None => remote_rows(ls.drop_last()),
        }
    }
}

pub open spec fn pair_views(v: Seq<(String, String)>) -> Seq<(Seq<char>, Seq<char>)> {
    v.map_values(|p: (String, String)| (p.0@, p.1@))
}

/// Remote-tracking branches as `(origin/feature/foo, feature/foo)`.
///
/// `refname:strip=3` drops `refs/remotes/<remote>/`, which keeps slashes in
/// the branch name intact.
pub fn remote_branches(output: &str) -> (r: Vec<(String, String)>)
    ensures
        pair_views(r@) == remote_rows(lines(output@)),
{
    let ls = lines_of(output);
    let mut out: Vec<(String, String)> = Vec::new();
    let mut i: usize = 0;
    while i < ls.len()
        invariant
            i <= ls.len(),
            pair_views(out@) == remote_rows(views(ls@).take(i as int)),
        decreases ls.len() - i,
    {
        let ghost before = pair_views(out@);
        assert(views(ls@).take(i + 1).drop_last() == views(ls@).take(i as int));
        assert(views(ls@).take(i + 1).last() == ls@[i as int]@);
        let v = to_chars(ls[i].as_str());
        let t = crate::text::find_char(&v, 0, v.len(), '\t');
        assert(v@.subrange(0, v.len() as int) == v@);
        if t < v.len() {
            let full = string_of(&v, 0, t);
            let short = string_of(&v, t + 1, v.len());
            assert(full@ == v@.take(t as int));
            assert(short@ == v@.skip(t + 1));
            if !crate::text::eq(short.as_str(), "HEAD") && !short.as_str().is_empty() {
                out.push((full, short));
                assert(pair_views(out@) =~= before.push((v@.take(t as int), v@.skip(t + 1))));
            }
        }
        i = i + 1;
    }
    assert(views(ls@).take(ls.len() as int) == views(ls@));
    out
}

/// Where a branch stands against the remote branch it tracks.
#[derive(PartialEq, Eq, Structural, Debug, Clone, Copy)]
pub enum Tracking {
    /// No upstream: the branch has never left this machine.
    Untracked,
    /// An upstream is configured, but it is no longer on the remote.
    Gone,
    /// Every commit is on the upstream.
    Pushed,
    /// This many commits are on the branch and not on its upstream.
    Ahead(usize),
}

/// The first part of `[ahead 1, behind 2]` that reads `ahead N`, with the
/// word taken off.
pub open spec fn first_ahead(parts: Seq<Seq<char>>) -> Option<Seq<char>>
    decreases parts.len(),
{
    if parts.len() == 0 {
        None
    } else {
        match strip_prefix(trim(parts[0]), "ahead "@) {
            Some(n) => Some(n),
            None => first_ahead(parts.drop_first()),
        }
    }
}

/// Reads one row of `for-each-ref` output.
///
/// `%(upstream:track)` is empty both for a branch with no upstream and for one
/// that is level with it, so the upstream name is what tells those apart.
/// `[ahead 3]`, `[ahead 1, behind 2]`, `[behind 2]`, or empty: behind on its
/// own is still fully pushed, since the remote has everything this branch has.
pub open spec fn tracking_spec(upstream: Seq<char>, track: Seq<char>) -> Tracking {
    if upstream.len() == 0 {
        Tracking::Untracked
    } else if contains(track, "gone"@) {
        Tracking::Gone
    } else {
        match first_ahead(split(trim_start_char(track, '['), ',')) {
            None => Tracking::Pushed,
            Some(n) => match parse_usize(trim_end_char(n, ']')) {
                Some(k) => Tracking::Ahead(k),
                None => Tracking::Pushed,
            },
        }
    }
}

pub fn parse_tracking(upstream: &str, track: &str) -> (r: Tracking)
    ensures
        r == tracking_spec(upstream@, track@),
{
    if upstream.is_empty() {
        return Tracking::Untracked;
    }
    if contains_str(track, "gone") {
        return Tracking::Gone;
    }
    let opened = trim_start_char_str(track, '[');
    let parts = split_on(opened.as_str(), ',');
    let mut i: usize = 0;
    assert(views(parts@).skip(0) == views(parts@));
    while i < parts.len()
        invariant
            i <= parts.len(),
            upstream@.len() > 0,
            !contains(track@, "gone"@),
            views(parts@) == split(trim_start_char(track@, '['), ','),
            first_ahead(views(parts@)) == first_ahead(views(parts@).skip(i as int)),
        decreases parts.len() - i,
    {
        let ghost rest = views(parts@).skip(i as int);
        assert(rest[0] == parts@[i as int]@);
        let part = trim_str(parts[i].as_str());
        match strip_prefix_str(part.as_str(), "ahead ") {
            Some(n) => {
                let digits = trim_end_char_str(n.as_str(), ']');
                return match parse_usize_str(digits.as_str()) {
                    Some(k) => Tracking::Ahead(k),
                    None => Tracking::Pushed,
                };
            },
            None => {
                assert(rest.drop_first() == views(parts@).skip(i + 1));
            },
        }
        i = i + 1;
    }
    assert(views(parts@).skip(parts.len() as int).len() == 0);
    Tracking::Pushed
}

/// One row of `for-each-ref --format=%(refname:short)\t%(upstream:short)\t
/// %(upstream:track) refs/heads/`: a branch needs a name and an upstream
/// field; a missing track field reads as empty.
pub open spec fn tracking_row(line: Seq<char>) -> Option<(Seq<char>, Tracking)> {
    let f = split(line, '\t');
    if f.len() < 2 || f[0].len() == 0 {
        None
    } else {
        Some((f[0], tracking_spec(f[1], if f.len() > 2 { f[2] } else { seq![] })))
    }
}

pub open spec fn tracking_rows(ls: Seq<Seq<char>>) -> Seq<(Seq<char>, Tracking)>
    decreases ls.len(),
{
    if ls.len() == 0 {
        seq![]
    } else {
        match tracking_row(ls.last()) {
            Some(p) => tracking_rows(ls.drop_last()).push(p),
            None => tracking_rows(ls.drop_last()),
        }
    }
}

pub open spec fn track_views(v: Seq<(String, Tracking)>) -> Seq<(Seq<char>, Tracking)> {
    v.map_values(|p: (String, Tracking)| (p.0@, p.1))
}

/// How every local branch stands against its upstream, one row per branch
/// in the order git listed them.
///
/// One call for the whole repository, and the ahead count comes free with it.
pub fn tracking(output: &str) -> (r: Vec<(String, Tracking)>)
    ensures
        track_views(r@) == tracking_rows(lines(output@)),
{
    let ls = lines_of(output);
    let mut out: Vec<(String, Tracking)> = Vec::new();
    let mut i: usize = 0;
    while i < ls.len()
        invariant
            i <= ls.len(),
            track_views(out@) == tracking_rows(views(ls@).take(i as int)),
        decreases ls.len() - i,
    {
        let ghost before = track_views(out@);
        assert(views(ls@).take(i + 1).drop_last() == views(ls@).take(i as int));
        assert(views(ls@).take(i + 1).last() == ls@[i as int]@);
        let f = split_on(ls[i].as_str(), '\t');
        if f.len() >= 2 && !f[0].as_str().is_empty() {
            assert(views(f@)[0] == f@[0]@);
            assert(views(f@)[1] == f@[1]@);
            let t = if f.len() > 2 {
                assert(views(f@)[2] == f@[2]@);
                parse_tracking(f[1].as_str(), f[2].as_str())
            } else {
                parse_tracking(f[1].as_str(), "")
            };
            proof {
                if f.len() <= 2 {
                    reveal_strlit("");
                    assert(""@ =~= Seq::<char>::empty());
                }
            }
            out.push((f[0].clone(), t));
            assert(track_views(out@) =~= before.push((f@[0]@, t)));
        } else {
            proof {
                if f.len() >= 2 {
                    assert(views(f@)[0] == f@[0]@);
                }
            }
        }
        i = i + 1;
    }
    assert(views(ls@).take(ls.len() as int) == views(ls@));
    out
}

/// What the rows say of `branch`: the last row naming it, as a map keyed by
/// branch would keep it, or `Untracked` when none does.
pub open spec fn tracking_of_spec(rows: Seq<(Seq<char>, Tracking)>, branch: Seq<char>) -> Tracking
    decreases rows.len(),
{
    if rows.len() == 0 {
        Tracking::Untracked
    } else if rows.last().0 == branch {
        rows.last().1
    } else {
        tracking_of_spec(rows.drop_last(), branch)
    }
}

proof fn lemma_no_row(rows: Seq<(Seq<char>, Tracking)>, branch: Seq<char>)
    requires
        forall|i: int| 0 <= i < rows.len() ==> (#[trigger] rows[i]).0 != branch,
    ensures
        tracking_of_spec(rows, branch) == Tracking::Untracked,
    decreases rows.len(),
{
    if rows.len() > 0 {
        let init = rows.drop_last();
        assert(rows[rows.len() - 1].0 != branch);
        assert forall|i: int| 0 <= i < init.len() implies (#[trigger] init[i]).0 != branch by {
            assert(init[i] == rows[i]);
        }
        lemma_no_row(init, branch);
    }
}

proof fn lemma_last_row(rows: Seq<(Seq<char>, Tracking)>, branch: Seq<char>, i: int)
    requires
        0 <= i < rows.len(),
        rows[i].0 == branch,
        forall|j: int| i < j < rows.len() ==> (#[trigger] rows[j]).0 != branch,
    ensures
        tracking_of_spec(rows, branch) == rows[i].1,
    decreases rows.len(),
{
    if i < rows.len() - 1 {
        let init = rows.drop_last();
        assert(rows[rows.len() - 1].0 != branch);
        assert(init[i] == rows[i]);
        assert forall|j: int| i < j < init.len() implies (#[trigger] init[j]).0 != branch by {
            assert(init[j] == rows[j]);
        }
        lemma_last_row(init, branch, i);
    }
}

/// A branch is judged by its own row, the last one git printed for it:
/// other branches' rows never count, and a branch with no row has no
/// upstream.
pub proof fn lemma_tracking_of_reads_the_branchs_row(
    rows: Seq<(Seq<char>, Tracking)>,
    branch: Seq<char>,
)
    ensures
        (forall|i: int| 0 <= i < rows.len() ==> (#[trigger] rows[i]).0 != branch)
            ==> tracking_of_spec(rows, branch) == Tracking::Untracked,
        forall|i: int|
            0 <= i < rows.len() && (#[trigger] rows[i]).0 == branch && (forall|j: int|
                i < j < rows.len() ==> rows[j].0 != branch) ==> tracking_of_spec(rows, branch)
                == rows[i].1,
{
    if forall|i: int| 0 <= i < rows.len() ==> (#[trigger] rows[i]).0 != branch {
        lemma_no_row(rows, branch);
    }
    assert forall|i: int|
        0 <= i < rows.len() && (#[trigger] rows[i]).0 == branch && (forall|j: int|
            i < j < rows.len() ==> rows[j].0 != branch) implies tracking_of_spec(rows, branch)
        == rows[i].1 by {
        lemma_last_row(rows, branch, i);
    }
}

/// `%(upstream:track)` is empty both for a branch with no upstream and for
/// one level with it; the upstream name tells them apart. No upstream means
/// never pushed, whatever the track says; an upstream with nothing to report
/// means every commit is on it; an upstream reported gone is gone.
pub proof fn lemma_tracking_reads_the_upstream(upstream: Seq<char>, track: Seq<char>)
    ensures
        upstream.len() == 0 ==> tracking_spec(upstream, track) == Tracking::Untracked,
        upstream.len() > 0 && track.len() == 0 ==> tracking_spec(upstream, track)
            == Tracking::Pushed,
        upstream.len() > 0 && contains(track, "gone"@) ==> tracking_spec(upstream, track)
            == Tracking::Gone,
{
    if upstream.len() > 0 && track.len() == 0 {
        reveal_strlit("gone");
        assert(!contains(track, "gone"@));
        let e = Seq::<char>::empty();
        assert(track == e);
        assert(trim_start_char(e, '[') == e);
        lemma_index_of_at(e, ',', 0);
        assert(split(e, ',') == seq![e]);
        reveal_strlit("ahead ");
        lemma_trim_bounds(e);
        assert(trim(e).len() == 0);
        assert(strip_prefix(trim(e), "ahead "@) is None);
        assert(seq![e][0] == e);
        assert(seq![e].drop_first() == Seq::<Seq<char>>::empty());
        assert(first_ahead(Seq::<Seq<char>>::empty()) is None);
        assert(first_ahead(seq![e]) is None);
    }
}

pub fn tracking_of(rows: &Vec<(String, Tracking)>, branch: &str) -> (r: Tracking)
    ensures
        r == tracking_of_spec(track_views(rows@), branch@),
{
    let mut i = rows.len();
    assert(track_views(rows@).take(i as int) == track_views(rows@));
    while i > 0
        invariant
            i <= rows.len(),
            tracking_of_spec(track_views(rows@), branch@) == tracking_of_spec(
                track_views(rows@).take(i as int),
                branch@,
            ),
        decreases i,
    {
        let ghost pre = track_views(rows@).take(i as int);
        assert(pre.last() == (rows@[i - 1].0@, rows@[i - 1].1));
        assert(pre.drop_last() == track_views(rows@).take(i - 1));
        if crate::text::eq(rows[i - 1].0.as_str(), branch) {
            return copy_tracking(&rows[i - 1].1);
        }
        i = i - 1;
    }
    Tracking::Untracked
}

fn copy_tracking(t: &Tracking) -> (r: Tracking)
    ensures
        r == *t,
{
    match t {
        Tracking::Untracked => Tracking::Untracked,
        Tracking::Gone => Tracking::Gone,
        Tracking::Pushed => Tracking::Pushed,
        Tracking::Ahead(n) => Tracking::Ahead(*n),
    }
}

} // verus!
