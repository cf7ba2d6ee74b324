//! The repository gwt works on, and worktree name resolution.
use vstd::prelude::*;

use crate::config::{base_dir_spec, opt_view, Config, ConfigError};
use crate::git::{wt_views, Worktree, WorktreeView};
use crate::paths::{
    below_at, file_name, file_name_spec, is_below_at, join_path, join_paths, same_path,
    same_path_spec,
};
use crate::text::{join, join_with, push_str, trim_end_char, trim_end_char_str, views};

verus! {

/// Name that always refers to the main worktree.
pub const MAIN_ALIAS: &'static str = "@";

pub struct Repo {
    /// Where gwt was run.
    pub cwd: String,
    /// The main worktree — all configuration paths are relative to it.
    pub main: String,
    /// The user's home directory, which `~` in `base_dir` stands for.
    pub home: Option<String>,
    pub config: Config,
}

/// Why a name could not be resolved to a worktree.
pub enum ResolveError {
    /// `git worktree list` listed nothing.
    NoWorktrees,
    /// The base directory could not be worked out.
    Config(ConfigError),
    /// More than one worktree answers to the name, at these paths.
    Ambiguous { name: String, paths: Vec<String> },
    /// No worktree answers to the name; these are the names there are.
    NotFound { name: String, known: Vec<String> },
}

/// A resolution failure as values.
pub ghost enum ResolveErrorView {
    NoWorktrees,
    Config(ConfigError),
    Ambiguous(Seq<char>, Seq<Seq<char>>),
    NotFound(Seq<char>, Seq<Seq<char>>),
}

impl View for ResolveError {
    type V = ResolveErrorView;

    open spec fn view(&self) -> ResolveErrorView {
        match self {
            ResolveError::NoWorktrees => ResolveErrorView::NoWorktrees,
            ResolveError::Config(e) => ResolveErrorView::Config(*e),
            ResolveError::Ambiguous { name, paths } => ResolveErrorView::Ambiguous(
                name@,
                views(paths@),
            ),
            ResolveError::NotFound { name, known } => ResolveErrorView::NotFound(
                name@,
                views(known@),
            ),
        }
    }
}

/// A worktree whose branch is `name`.
pub open spec fn by_branch(w: WorktreeView, name: Seq<char>) -> bool {
    w.branch == Some(name)
}

/// A worktree found at `name` below the base directory (and not by branch).
pub open spec fn by_relpath(w: WorktreeView, base: Seq<char>, name: Seq<char>) -> bool {
    !by_branch(w, name) && is_below_at(w.path, base, name)
}

/// A worktree whose directory is called `name` (and found no other way).
pub open spec fn by_dirname(w: WorktreeView, base: Seq<char>, name: Seq<char>) -> bool {
    !by_branch(w, name) && !by_relpath(w, base, name) && file_name_spec(w.path) == Some(name)
}

pub open spec fn paths_of(ws: Seq<WorktreeView>) -> Seq<Seq<char>> {
    ws.map_values(|w: WorktreeView| w.path)
}

/// The label of a worktree in lists: `@` for the main one, its name otherwise.
pub open spec fn display_name_spec(w: WorktreeView, main: WorktreeView) -> Seq<char> {
    if same_path_spec(w.path, main.path) {
        MAIN_ALIAS@
    } else {
        Worktree::name_spec(w)
    }
}

/// The first class of matches that is not empty decides: one match is the
/// answer, several are ambiguous.
pub open spec fn pick_class(
    ws: Seq<WorktreeView>,
    base: Seq<char>,
    name: Seq<char>,
) -> Result<WorktreeView, ResolveErrorView> {
    let b = ws.filter(|w: WorktreeView| by_branch(w, name));
    let r = ws.filter(|w: WorktreeView| by_relpath(w, base, name));
    let d = ws.filter(|w: WorktreeView| by_dirname(w, base, name));
    if b.len() == 1 {
        Ok(b[0])
    } else if b.len() > 1 {
        Err(ResolveErrorView::Ambiguous(name, paths_of(b)))
    } else if r.len() == 1 {
        Ok(r[0])
    } else if r.len() > 1 {
        Err(ResolveErrorView::Ambiguous(name, paths_of(r)))
    } else if d.len() == 1 {
        Ok(d[0])
    } else if d.len() > 1 {
        Err(ResolveErrorView::Ambiguous(name, paths_of(d)))
    } else {
        Err(
            ResolveErrorView::NotFound(
                name,
                ws.map_values(|w: WorktreeView| display_name_spec(w, ws[0])),
            ),
        )
    }
}

/// What a user-supplied name refers to.
///
/// `None` and `@` mean the main worktree. Otherwise the name, without trailing
/// slashes, is matched against branch names first, then against paths below
/// the base directory, then against directory names.
pub open spec fn resolve_spec(
    ws: Seq<WorktreeView>,
    name: Option<Seq<char>>,
    base: Result<Seq<char>, ConfigError>,
) -> Result<WorktreeView, ResolveErrorView> {
    if ws.len() == 0 {
        Err(ResolveErrorView::NoWorktrees)
    } else if name is None || name->0 == MAIN_ALIAS@ {
        Ok(ws[0])
    } else {
        match base {
            Err(e) => Err(ResolveErrorView::Config(e)),
            Ok(b) => pick_class(ws, b, trim_end_char(name->0, '/')),
        }
    }
}

pub open spec fn resolve_view(r: Result<Worktree, ResolveError>) -> Result<
    WorktreeView,
    ResolveErrorView,
> {
    match r {
        Ok(w) => Ok(w@),
        Err(e) => Err(e@),
    }
}

pub open spec fn base_view(r: Result<String, ConfigError>) -> Result<Seq<char>, ConfigError> {
    match r {
        Ok(b) => Ok(b@),
        Err(e) => Err(e),
    }
}

/// A bare `gwt cd` and `gwt cd @` name the same worktree, the main one.
pub proof fn lemma_alias_names_main(ws: Seq<WorktreeView>, base: Result<Seq<char>, ConfigError>)
    requires
        ws.len() > 0,
    ensures
        resolve_spec(ws, None, base) == Ok::<WorktreeView, ResolveErrorView>(ws[0]),
        resolve_spec(ws, Some(MAIN_ALIAS@), base) == Ok::<WorktreeView, ResolveErrorView>(ws[0]),
{
}

proof fn lemma_trailing_slash(s: Seq<char>)
    ensures
        trim_end_char(s.push('/'), '/') == trim_end_char(s, '/'),
{
    assert(s.push('/').drop_last() == s);
}

/// A trailing slash, as shell completion of a directory leaves it, does not
/// change which worktree a name refers to. (`@/` is the one exception: it is
/// no longer the alias, and is looked up as a name.)
pub proof fn lemma_trailing_slash_is_ignored(
    ws: Seq<WorktreeView>,
    name: Seq<char>,
    base: Result<Seq<char>, ConfigError>,
)
    requires
        name != MAIN_ALIAS@,
    ensures
        resolve_spec(ws, Some(name.push('/')), base) == resolve_spec(ws, Some(name), base),
{
    lemma_trailing_slash(name);
    reveal_strlit("@");
    assert(name.push('/') != MAIN_ALIAS@) by {
        if name.push('/') == MAIN_ALIAS@ {
            assert(name.push('/').last() == '/');
        }
    }
}

proof fn lemma_no_branch_match(ws: Seq<WorktreeView>, name: Seq<char>)
    requires
        forall|j: int| 0 <= j < ws.len() ==> !by_branch(#[trigger] ws[j], name),
    ensures
        ws.filter(|w: WorktreeView| by_branch(w, name)) == Seq::<WorktreeView>::empty(),
    decreases ws.len(),
{
    reveal_with_fuel(Seq::<_>::filter, 1);
    if ws.len() > 0 {
        let init = ws.drop_last();
        assert forall|j: int| 0 <= j < init.len() implies !by_branch(#[trigger] init[j], name) by {
            assert(init[j] == ws[j]);
        }
        lemma_no_branch_match(init, name);
        assert(!by_branch(ws[ws.len() - 1], name));
    }
}

proof fn lemma_one_branch_match(ws: Seq<WorktreeView>, k: int, name: Seq<char>)
    requires
        0 <= k < ws.len(),
        by_branch(ws[k], name),
        forall|j: int| 0 <= j < ws.len() && j != k ==> !by_branch(#[trigger] ws[j], name),
    ensures
        ws.filter(|w: WorktreeView| by_branch(w, name)) == seq![ws[k]],
    decreases ws.len(),
{
    reveal_with_fuel(Seq::<_>::filter, 1);
    let init = ws.drop_last();
    if k == ws.len() - 1 {
        assert forall|j: int| 0 <= j < init.len() implies !by_branch(#[trigger] init[j], name) by {
            assert(init[j] == ws[j]);
        }
        lemma_no_branch_match(init, name);
        assert(Seq::<WorktreeView>::empty().push(ws[k]) == seq![ws[k]]);
    } else {
        assert forall|j: int| 0 <= j < init.len() && j != k implies !by_branch(
            #[trigger] init[j],
            name,
        ) by {
            assert(init[j] == ws[j]);
        }
        assert(init[k] == ws[k]);
        lemma_one_branch_match(init, k, name);
        assert(!by_branch(ws[ws.len() - 1], name));
    }
}

proof fn lemma_filter_none(ws: Seq<WorktreeView>, pred: spec_fn(WorktreeView) -> bool)
    requires
        forall|j: int| 0 <= j < ws.len() ==> !pred(#[trigger] ws[j]),
    ensures
        ws.filter(pred) == Seq::<WorktreeView>::empty(),
    decreases ws.len(),
{
    reveal_with_fuel(Seq::<_>::filter, 1);
    if ws.len() > 0 {
        let init = ws.drop_last();
        assert forall|j: int| 0 <= j < init.len() implies !pred(#[trigger] init[j]) by {
            assert(init[j] == ws[j]);
        }
        lemma_filter_none(init, pred);
        assert(!pred(ws[ws.len() - 1]));
    }
}

proof fn lemma_filter_one(ws: Seq<WorktreeView>, k: int, pred: spec_fn(WorktreeView) -> bool)
    requires
        0 <= k < ws.len(),
        pred(ws[k]),
        forall|j: int| 0 <= j < ws.len() && j != k ==> !pred(#[trigger] ws[j]),
    ensures
        ws.filter(pred) == seq![ws[k]],
    decreases ws.len(),
{
    reveal_with_fuel(Seq::<_>::filter, 1);
    let init = ws.drop_last();
    if k == ws.len() - 1 {
        assert forall|j: int| 0 <= j < init.len() implies !pred(#[trigger] init[j]) by {
            assert(init[j] == ws[j]);
        }
        lemma_filter_none(init, pred);
        assert(Seq::<WorktreeView>::empty().push(ws[k]) == seq![ws[k]]);
    } else {
        assert forall|j: int| 0 <= j < init.len() && j != k implies !pred(#[trigger] init[j]) by {
            assert(init[j] == ws[j]);
        }
        assert(init[k] == ws[k]);
        lemma_filter_one(init, k, pred);
        assert(!pred(ws[ws.len() - 1]));
    }
}

proof fn lemma_filter_some(ws: Seq<WorktreeView>, a: int, pred: spec_fn(WorktreeView) -> bool)
    requires
        0 <= a < ws.len(),
        pred(ws[a]),
    ensures
        ws.filter(pred).len() >= 1,
    decreases ws.len(),
{
    reveal_with_fuel(Seq::<_>::filter, 1);
    if a < ws.len() - 1 {
        let init = ws.drop_last();
        assert(init[a] == ws[a]);
        lemma_filter_some(init, a, pred);
    }
}

proof fn lemma_filter_two(ws: Seq<WorktreeView>, a: int, b: int, pred: spec_fn(WorktreeView) -> bool)
    requires
        0 <= a < b < ws.len(),
        pred(ws[a]),
        pred(ws[b]),
    ensures
        ws.filter(pred).len() >= 2,
    decreases ws.len(),
{
    reveal_with_fuel(Seq::<_>::filter, 1);
    let init = ws.drop_last();
    assert(init[a] == ws[a]);
    if b == ws.len() - 1 {
        lemma_filter_some(init, a, pred);
    } else {
        assert(init[b] == ws[b]);
        lemma_filter_two(init, a, b, pred);
    }
}

/// Where no branch has the name, a worktree lying at the relative path
/// `name` below the base directory is found by it, whatever its directory is
/// called: `gwt cd feature/auth` reaches `<base>/feature/auth` even when no
/// branch is checked out there.
pub proof fn lemma_path_below_base_finds_its_worktree(
    ws: Seq<WorktreeView>,
    k: int,
    name: Seq<char>,
    base: Seq<char>,
)
    requires
        0 <= k < ws.len(),
        is_below_at(ws[k].path, base, name),
        forall|j: int| 0 <= j < ws.len() && j != k ==> !is_below_at(#[trigger] ws[j].path, base, name),
        forall|j: int| 0 <= j < ws.len() ==> (#[trigger] ws[j]).branch != Some(name),
        name != MAIN_ALIAS@,
        name.len() == 0 || name.last() != '/',
    ensures
        resolve_spec(ws, Some(name), Ok(base)) == Ok::<WorktreeView, ResolveErrorView>(ws[k]),
{
    assert(trim_end_char(name, '/') == name);
    let pb = |w: WorktreeView| by_branch(w, name);
    let pr = |w: WorktreeView| by_relpath(w, base, name);
    assert forall|j: int| 0 <= j < ws.len() implies !pb(#[trigger] ws[j]) by {
        assert(ws[j].branch != Some(name));
    }
    lemma_filter_none(ws, pb);
    assert(!by_branch(ws[k], name));
    assert forall|j: int| 0 <= j < ws.len() && j != k implies !pr(#[trigger] ws[j]) by {
        assert(!is_below_at(ws[j].path, base, name));
    }
    lemma_filter_one(ws, k, pr);
    assert(ws.filter(|w: WorktreeView| by_branch(w, name)).len() == 0);
    assert(ws.filter(|w: WorktreeView| by_relpath(w, base, name)) == seq![ws[k]]);
}

/// Where neither a branch nor a path below the base directory answers to
/// the name, a worktree whose directory alone is called `name` is found by
/// it: `gwt cd auth` reaches `<base>/feature/auth`.
pub proof fn lemma_directory_name_finds_its_worktree(
    ws: Seq<WorktreeView>,
    k: int,
    name: Seq<char>,
    base: Seq<char>,
)
    requires
        0 <= k < ws.len(),
        file_name_spec(ws[k].path) == Some(name),
        forall|j: int|
            0 <= j < ws.len() && j != k ==> file_name_spec(#[trigger] ws[j].path) != Some(name),
        forall|j: int| 0 <= j < ws.len() ==> !is_below_at(#[trigger] ws[j].path, base, name),
        forall|j: int| 0 <= j < ws.len() ==> (#[trigger] ws[j]).branch != Some(name),
        name != MAIN_ALIAS@,
        name.len() == 0 || name.last() != '/',
    ensures
        resolve_spec(ws, Some(name), Ok(base)) == Ok::<WorktreeView, ResolveErrorView>(ws[k]),
{
    assert(trim_end_char(name, '/') == name);
    let pb = |w: WorktreeView| by_branch(w, name);
    let pr = |w: WorktreeView| by_relpath(w, base, name);
    let pd = |w: WorktreeView| by_dirname(w, base, name);
    assert forall|j: int| 0 <= j < ws.len() implies !pb(#[trigger] ws[j]) by {
        assert(ws[j].branch != Some(name));
    }
    lemma_filter_none(ws, pb);
    assert forall|j: int| 0 <= j < ws.len() implies !pr(#[trigger] ws[j]) by {
        assert(!is_below_at(ws[j].path, base, name));
    }
    lemma_filter_none(ws, pr);
    assert forall|j: int| 0 <= j < ws.len() && j != k implies !pd(#[trigger] ws[j]) by {
        assert(file_name_spec(ws[j].path) != Some(name));
    }
    assert(!is_below_at(ws[k].path, base, name));
    assert(ws[k].branch != Some(name));
    lemma_filter_one(ws, k, pd);
    assert(ws.filter(|w: WorktreeView| by_branch(w, name)).len() == 0);
    assert(ws.filter(|w: WorktreeView| by_relpath(w, base, name)).len() == 0);
    assert(ws.filter(|w: WorktreeView| by_dirname(w, base, name)) == seq![ws[k]]);
}

/// Two worktrees with the same branch checked out are never guessed
/// between: the name is reported ambiguous.
pub proof fn lemma_two_branch_matches_are_ambiguous(
    ws: Seq<WorktreeView>,
    a: int,
    b: int,
    name: Seq<char>,
    base: Seq<char>,
)
    requires
        0 <= a < b < ws.len(),
        ws[a].branch == Some(name),
        ws[b].branch == Some(name),
        name != MAIN_ALIAS@,
        name.len() == 0 || name.last() != '/',
    ensures
        resolve_spec(ws, Some(name), Ok(base)) is Err,
        resolve_spec(ws, Some(name), Ok(base)) matches Err(ResolveErrorView::Ambiguous(n, _))
            && n == name,
{
    assert(trim_end_char(name, '/') == name);
    let pb = |w: WorktreeView| by_branch(w, name);
    lemma_filter_two(ws, a, b, pb);
    assert(ws.filter(|w: WorktreeView| by_branch(w, name)).len() >= 2);
}

/// A branch checked out in one worktree only, which `gwt add` sees to unless
/// forced, is found by its name whatever the paths and directory names say:
/// `gwt cd feature/auth` goes where `gwt add feature/auth` put the worktree.
pub proof fn lemma_branch_name_finds_its_worktree(
    ws: Seq<WorktreeView>,
    k: int,
    name: Seq<char>,
    base: Seq<char>,
)
    requires
        0 <= k < ws.len(),
        ws[k].branch == Some(name),
        forall|j: int| 0 <= j < ws.len() && j != k ==> (#[trigger] ws[j]).branch != Some(name),
        name != MAIN_ALIAS@,
        name.len() == 0 || name.last() != '/',
    ensures
        resolve_spec(ws, Some(name), Ok(base)) == Ok::<WorktreeView, ResolveErrorView>(ws[k]),
{
    assert(trim_end_char(name, '/') == name);
    assert forall|j: int| 0 <= j < ws.len() && j != k implies !by_branch(#[trigger] ws[j], name) by {
        assert(ws[j].branch != Some(name));
    }
    lemma_one_branch_match(ws, k, name);
}

fn copy_config_error(e: &ConfigError) -> (r: ConfigError)
    ensures
        r == *e,
{
    match e {
        ConfigError::UnsupportedVersion(v) => ConfigError::UnsupportedVersion(v.clone()),
        ConfigError::NoHome => ConfigError::NoHome,
        ConfigError::OtherUsersHome => ConfigError::OtherUsersHome,
        ConfigError::UnknownPlaceholder => ConfigError::UnknownPlaceholder,
        ConfigError::NoRepoName => ConfigError::NoRepoName,
    }
}

fn branch_is(w: &Worktree, name: &str) -> (r: bool)
    ensures
        r == by_branch(w@, name@),
{
    match &w.branch {
        Some(b) => crate::text::eq(b.as_str(), name),
        None => false,
    }
}

fn dirname_is(w: &Worktree, name: &str) -> (r: bool)
    ensures
        r == (file_name_spec(w@.path) == Some(name@)),
{
    match file_name(w.path.as_str()) {
        Some(f) => crate::text::eq(f.as_str(), name),
        None => false,
    }
}

/// The paths of the chosen worktrees.
fn paths_exec(ws: &Vec<Worktree>) -> (r: Vec<String>)
    ensures
        views(r@) == paths_of(wt_views(ws@)),
{
    let mut out: Vec<String> = Vec::new();
    let mut i: usize = 0;
    while i < ws.len()
        invariant
            i <= ws.len(),
            views(out@) == paths_of(wt_views(ws@).take(i as int)),
        decreases ws.len() - i,
    {
        out.push(ws[i].path.clone());
        assert(paths_of(wt_views(ws@).take(i + 1)) =~= paths_of(wt_views(ws@).take(i as int)).push(
            ws@[i as int]@.path,
        ));
        assert(views(out@) =~= views(out@.drop_last()).push(ws@[i as int].path@));
        i = i + 1;
    }
    assert(wt_views(ws@).take(ws.len() as int) == wt_views(ws@));
    out
}

impl Repo {
    pub fn base_dir(&self) -> (r: Result<String, ConfigError>)
        ensures
            base_view(r) == base_dir_spec(self.config, self.main@, opt_view(self.home)),
    {
        self.config.base_dir(self.main.as_str(), &self.home)
    }

    /// Path a worktree for `branch` would get, following the configured layout.
    pub fn worktree_path_for(&self, branch: &str) -> (r: Result<String, ConfigError>)
        ensures
            match r {
                Ok(p) => base_dir_spec(self.config, self.main@, opt_view(self.home)) matches Ok(b)
                    && p@ == join_path(b, branch@),
                Err(e) => base_dir_spec(self.config, self.main@, opt_view(self.home)) == Err::<
                    Seq<char>,
                    ConfigError,
                >(e),
            },
    {
        let base = self.base_dir()?;
        Ok(join_paths(base.as_str(), branch))
    }

    /// Label shown in `gwt list`: `@` for the main worktree, otherwise its
    /// name.
    pub fn display_name(&self, wt: &Worktree, main: &Worktree) -> (r: String)
        ensures
            r@ == display_name_spec(wt@, main@),
    {
        if same_path(wt.path.as_str(), main.path.as_str()) {
            return String::from_str(MAIN_ALIAS);
        }
        wt.name()
    }

    /// Finds the worktree a user-supplied name refers to, among `worktrees`
    /// (the main one first, as `git worktree list` gives them).
    pub fn resolve(&self, worktrees: &Vec<Worktree>, name: Option<&str>) -> (r: Result<
        Worktree,
        ResolveError,
    >)
        ensures
            resolve_view(r) == resolve_spec(
                wt_views(worktrees@),
                match name {
                    Some(n) => Some(n@),
                    None => None,
                },
                base_dir_spec(self.config, self.main@, opt_view(self.home)),
            ),
    {
        if worktrees.len() == 0 {
            return Err(ResolveError::NoWorktrees);
        }
        assert(wt_views(worktrees@)[0] == worktrees@[0]@);
        let name = match name {
            None => {
                return Ok(worktrees[0].duplicate());
            },
            Some(n) => {
                if crate::text::eq(n, MAIN_ALIAS) {
                    return Ok(worktrees[0].duplicate());
                }
                trim_end_char_str(n, '/')
            },
        };
        let base = match self.base_dir() {
            Ok(b) => b,
            Err(e) => {
                return Err(ResolveError::Config(e));
            },
        };
        self.pick(worktrees, &base, &name)
    }

    fn pick(&self, worktrees: &Vec<Worktree>, base: &String, name: &String) -> (r: Result<
        Worktree,
        ResolveError,
    >)
        requires
            worktrees.len() > 0,
        ensures
            resolve_view(r) == pick_class(wt_views(worktrees@), base@, name@),
    {
        let ghost ws = wt_views(worktrees@);
        let ghost n = name@;
        let ghost bs = base@;
        let mut by_b: Vec<Worktree> = Vec::new();
        let mut by_r: Vec<Worktree> = Vec::new();
        let mut by_d: Vec<Worktree> = Vec::new();
        let mut i: usize = 0;
        while i < worktrees.len()
            invariant
                i <= worktrees.len(),
                ws == wt_views(worktrees@),
                n == name@,
                bs == base@,
                wt_views(by_b@) == ws.take(i as int).filter(|w: WorktreeView| by_branch(w, n)),
                wt_views(by_r@) == ws.take(i as int).filter(|w: WorktreeView| by_relpath(w, bs, n)),
                wt_views(by_d@) == ws.take(i as int).filter(
                    |w: WorktreeView| by_dirname(w, bs, n),
                ),
            decreases worktrees.len() - i,
        {
            reveal_with_fuel(Seq::<_>::filter, 1);
            let wt = &worktrees[i];
            assert(ws.take(i + 1).drop_last() == ws.take(i as int));
            assert(ws.take(i + 1).last() == wt@);
            let ghost ob = wt_views(by_b@);
            let ghost or = wt_views(by_r@);
            let ghost od = wt_views(by_d@);
            if branch_is(wt, name.as_str()) {
                by_b.push(wt.duplicate());
                assert(wt_views(by_b@) =~= ob.push(wt@));
            } else if below_at(wt.path.as_str(), base.as_str(), name.as_str()) {
                by_r.push(wt.duplicate());
                assert(wt_views(by_r@) =~= or.push(wt@));
            } else if dirname_is(wt, name.as_str()) {
                by_d.push(wt.duplicate());
                assert(wt_views(by_d@) =~= od.push(wt@));
            }
            i = i + 1;
        }
        assert(ws.take(worktrees.len() as int) == ws);
        if by_b.len() == 1 {
            assert(wt_views(by_b@)[0] == by_b@[0]@);
            return Ok(by_b[0].duplicate());
        } else if by_b.len() > 1 {
            return Err(ResolveError::Ambiguous { name: name.clone(), paths: paths_exec(&by_b) });
        } else if by_r.len() == 1 {
            assert(wt_views(by_r@)[0] == by_r@[0]@);
            return Ok(by_r[0].duplicate());
        } else if by_r.len() > 1 {
            return Err(ResolveError::Ambiguous { name: name.clone(), paths: paths_exec(&by_r) });
        } else if by_d.len() == 1 {
            assert(wt_views(by_d@)[0] == by_d@[0]@);
            return Ok(by_d[0].duplicate());
        } else if by_d.len() > 1 {
            return Err(ResolveError::Ambiguous { name: name.clone(), paths: paths_exec(&by_d) });
        }
        let known = self.display_names(worktrees);
        Err(ResolveError::NotFound { name: name.clone(), known })
    }

    /// The label of every worktree, `@` for the first.
    pub fn display_names(&self, worktrees: &Vec<Worktree>) -> (r: Vec<String>)
        requires
            worktrees.len() > 0,
        ensures
            views(r@) == wt_views(worktrees@).map_values(
                |w: WorktreeView| display_name_spec(w, wt_views(worktrees@)[0]),
            ),
    {
        let ghost ws = wt_views(worktrees@);
        assert(ws[0] == worktrees@[0]@);
        let mut out: Vec<String> = Vec::new();
        let mut i: usize = 0;
        while i < worktrees.len()
            invariant
                i <= worktrees.len(),
                worktrees.len() > 0,
                ws == wt_views(worktrees@),
                ws[0] == worktrees@[0]@,
                views(out@) == ws.take(i as int).map_values(
                    |w: WorktreeView| display_name_spec(w, ws[0]),
                ),
            decreases worktrees.len() - i,
        {
            let d = self.display_name(&worktrees[i], &worktrees[0]);
            let ghost before = views(out@);
            out.push(d);
            assert(views(out@) =~= before.push(d@));
            assert(ws.take(i + 1).map_values(|w: WorktreeView| display_name_spec(w, ws[0]))
                =~= ws.take(i as int).map_values(|w: WorktreeView| display_name_spec(w, ws[0])).push(
                display_name_spec(ws[i as int], ws[0]),
            ));
            i = i + 1;
        }
        assert(ws.take(worktrees.len() as int) == ws);
        out
    }
}

impl ResolveError {
    /// What went wrong, in a sentence.
    pub fn message(&self) -> (r: String)
        ensures
            self matches ResolveError::Ambiguous { name, paths } ==> r@ == "`"@ + name@
                + "` is ambiguous, it matches:\n  "@ + join(views(paths@), "\n  "@),
            self matches ResolveError::NotFound { name, known } ==> r@ == "no worktree named `"@
                + name@ + "`. Available: "@ + join(views(known@), ", "@),
            self matches ResolveError::NoWorktrees ==> r@ == "no worktrees found"@,
            self matches ResolveError::Config(e) ==> r@ == e.message_spec(),
    {
        match self {
            ResolveError::NoWorktrees => String::from_str("no worktrees found"),
            ResolveError::Config(e) => e.message(),
            ResolveError::Ambiguous { name, paths } => {
                let mut m = String::from_str("`");
                push_str(&mut m, name.as_str());
                push_str(&mut m, "` is ambiguous, it matches:\n  ");
                let listed = join_with(paths, "\n  ");
                push_str(&mut m, listed.as_str());
                m
            },
            ResolveError::NotFound { name, known } => {
                let mut m = String::from_str("no worktree named `");
                push_str(&mut m, name.as_str());
                push_str(&mut m, "`. Available: ");
                let listed = join_with(known, ", ");
                push_str(&mut m, listed.as_str());
                m
            },
        }
    }
}

} // verus!
