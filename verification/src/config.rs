//! `.gwt.toml` — configuration, per repository and per user.
//!
//! Two files, same format. The repository's belongs to the project and is
//! meant to be committed; the user's holds what is nobody else's business —
//! where you like your worktrees, what you run in every checkout.
use vstd::prelude::*;

use crate::paths::{file_name, file_name_spec, is_abs, is_absolute, join_path, join_paths, normalize,
    normalize_spec};
use crate::text::{lines, non_empty_lines, push_char, push_str, string_of, to_chars, trim,
    trimmed_nonempty, views};

verus! {

pub const CONFIG_FILE: &'static str = ".gwt.toml";

/// The user-wide file, under `$XDG_CONFIG_HOME` or `~/.config`.
pub const GLOBAL_CONFIG_PATH: &'static str = "gwx/config.toml";

/// Default location of new worktrees, relative to the main worktree.
pub const DEFAULT_BASE_DIR: &'static str = "../worktrees";

/// Widest a command gets in a progress line before it is cut.
pub const SUMMARY_WIDTH: usize = 60;

pub struct Config {
    /// Config format version. Currently informational only.
    pub version: Option<String>,
    pub defaults: Defaults,
    pub hooks: Hooks,
}

pub struct Defaults {
    /// Where worktrees are created, relative to the main worktree (or absolute).
    ///
    /// `None` rather than the default string, so that merging can tell a
    /// repository that chose `../worktrees` from one that said nothing and
    /// should inherit whatever the user prefers.
    pub base_dir: Option<String>,
}

pub struct Hooks {
    /// Run before the worktree is created. Only `command` hooks are allowed,
    /// and they run in the main worktree.
    pub pre_create: Vec<Hook>,
    /// Run after the worktree is created, inside the new worktree.
    pub post_create: Vec<Hook>,
    /// Run before the worktree is removed, inside it while it is still there.
    /// Only `command` hooks are allowed. A failure calls the removal off.
    pub pre_remove: Vec<Hook>,
    /// Run after the worktree (and its branch, with `--with-branch`) is gone.
    /// Only `command` hooks are allowed, and they run in the main worktree.
    pub post_remove: Vec<Hook>,
}

pub enum Hook {
    /// Copy a file or directory from the main worktree into the new one.
    Copy { from: String, to: Option<String> },
    /// Symlink a path in the main worktree from the new worktree.
    Symlink { from: String, to: Option<String> },
    /// Run a shell command.
    Command {
        command: String,
        /// Extra environment, in key order, each key once.
        env: Vec<(String, String)>,
        /// Working directory, relative to the worktree the hook runs in.
        work_dir: Option<String>,
    },
}

/// Why a configuration cannot be used.
pub enum ConfigError {
    /// The `version` key names a format this build does not understand.
    UnsupportedVersion(String),
    /// `base_dir` starts with `~` and there is no home directory to put there.
    NoHome,
    /// `base_dir` starts with `~user`, somebody else's home.
    OtherUsersHome,
    /// `base_dir` holds a `{...}` other than `{repo}`.
    UnknownPlaceholder,
    /// `base_dir` uses `{repo}` but the main worktree's path has no name.
    NoRepoName,
}

impl Default for Config {
    fn default() -> (c: Self)
        ensures
            c.version is None,
            c.defaults.base_dir is None,
            c.hooks.pre_create@.len() == 0,
            c.hooks.post_create@.len() == 0,
            c.hooks.pre_remove@.len() == 0,
            c.hooks.post_remove@.len() == 0,
    {
        Config {
            version: None,
            defaults: Defaults { base_dir: None },
            hooks: Hooks {
                pre_create: Vec::new(),
                post_create: Vec::new(),
                pre_remove: Vec::new(),
                post_remove: Vec::new(),
            },
        }
    }
}

/// `"..."`.
pub open spec fn ellipsis() -> Seq<char> {
    seq!['.', '.', '.']
}

/// A command squeezed into one progress line: its first non-blank line,
/// trimmed and cut at [`SUMMARY_WIDTH`] characters, with `...` when anything
/// was left out.
pub open spec fn one_line_spec(command: Seq<char>) -> Seq<char> {
    let ls = trimmed_nonempty(lines(command));
    let first = if ls.len() > 0 {
        ls[0]
    } else {
        seq![]
    };
    let head = if first.len() > SUMMARY_WIDTH {
        first.take(SUMMARY_WIDTH as int)
    } else {
        first
    };
    if first.len() > SUMMARY_WIDTH || ls.len() > 1 {
        head + ellipsis()
    } else {
        head
    }
}

pub open spec fn no_newline(s: Seq<char>) -> bool {
    forall|k: int| 0 <= k < s.len() ==> s[k] != '\n'
}

proof fn lemma_lines_have_no_newline(s: Seq<char>)
    ensures
        forall|i: int| 0 <= i < lines(s).len() ==> no_newline(#[trigger] lines(s)[i]),
    decreases s.len(),
{
    if s.len() > 0 {
        let i = crate::text::index_of(s, '\n');
        crate::text::lemma_index_of(s, '\n');
        if i >= 0 {
            lemma_lines_have_no_newline(s.skip(i + 1));
            let head = crate::text::strip_cr(s.take(i));
            assert(no_newline(head));
            assert forall|j: int| 0 <= j < lines(s).len() implies no_newline(
                #[trigger] lines(s)[j],
            ) by {
                if j > 0 {
                    assert(lines(s)[j] == lines(s.skip(i + 1))[j - 1]);
                }
            }
        }
    }
}

proof fn lemma_trim_keeps_no_newline(s: Seq<char>)
    requires
        no_newline(s),
    ensures
        no_newline(trim(s)),
{
    let e = crate::text::trim_end(s);
    crate::text::lemma_trim_bounds(s);
    crate::text::lemma_trim_bounds(e);
    assert(no_newline(e));
    assert(no_newline(trim(s)));
}

proof fn lemma_trimmed_have_no_newline(ls: Seq<Seq<char>>)
    requires
        forall|i: int| 0 <= i < ls.len() ==> no_newline(#[trigger] ls[i]),
    ensures
        forall|i: int|
            0 <= i < trimmed_nonempty(ls).len() ==> no_newline(#[trigger] trimmed_nonempty(ls)[i]),
    decreases ls.len(),
{
    if ls.len() > 0 {
        assert(no_newline(ls[ls.len() - 1]));
        let d = ls.drop_last();
        assert forall|i: int| 0 <= i < d.len() implies no_newline(#[trigger] d[i]) by {
            assert(d[i] == ls[i]);
        }
        lemma_trimmed_have_no_newline(d);
        lemma_trim_keeps_no_newline(ls.last());
        let t = trimmed_nonempty(ls);
        assert forall|i: int| 0 <= i < t.len() implies no_newline(#[trigger] t[i]) by {
            if i < trimmed_nonempty(d).len() {
                assert(t[i] == trimmed_nonempty(d)[i]);
            }
        }
    }
}

/// A command squeezed into one progress line.
///
/// Hooks are numbered as they run — `[1/2] npm install` — and a command with a
/// newline in it, which a user-wide config makes more likely, would otherwise
/// break that list across the screen.
pub fn one_line(command: &str) -> (r: String)
    ensures
        r@ == one_line_spec(command@),
        no_newline(r@),
        r@.len() <= SUMMARY_WIDTH + 3,
{
    let ls = non_empty_lines(command);
    proof {
        lemma_lines_have_no_newline(command@);
        lemma_trimmed_have_no_newline(lines(command@));
    }
    let first = if ls.len() > 0 {
        assert(views(ls@)[0] == ls@[0]@);
        to_chars(ls[0].as_str())
    } else {
        Vec::new()
    };
    let cut = if first.len() > SUMMARY_WIDTH {
        SUMMARY_WIDTH
    } else {
        first.len()
    };
    let mut head = string_of(&first, 0, cut);
    assert(head@ == first@.take(cut as int));
    if first.len() > SUMMARY_WIDTH || ls.len() > 1 {
        push_str(&mut head, "...");
        proof {
            reveal_strlit("...");
            assert("..."@ =~= ellipsis());
        }
    }
    head
}

impl Hook {
    pub open spec fn kind_spec(&self) -> Seq<char> {
        match self {
            Hook::Copy { .. } => "copy"@,
            Hook::Symlink { .. } => "symlink"@,
            Hook::Command { .. } => "command"@,
        }
    }

    pub fn kind(&self) -> (r: &'static str)
        ensures
            r@ == self.kind_spec(),
    {
        match self {
            Hook::Copy { .. } => "copy",
            Hook::Symlink { .. } => "symlink",
            Hook::Command { .. } => "command",
        }
    }

    /// What a `copy` or `symlink` writes: `to`, or `from` when it is not given.
    pub open spec fn target_spec(from: Seq<char>, to: Option<String>) -> Seq<char> {
        match to {
            Some(t) => t@,
            None => from,
        }
    }

    pub open spec fn summary_spec(&self) -> Seq<char> {
        match self {
            Hook::Copy { from, to } => "copy "@ + from@ + " -> "@ + Self::target_spec(from@, *to),
            Hook::Symlink { from, to } => "symlink "@ + from@ + " -> "@ + Self::target_spec(
                from@,
                *to,
            ),
            Hook::Command { command, .. } => one_line_spec(command@),
        }
    }

    /// One-line description used in progress output.
    pub fn summary(&self) -> (r: String)
        ensures
            r@ == self.summary_spec(),
            self is Command ==> no_newline(r@),
    {
        match self {
            Hook::Copy { from, to } => arrow("copy ", from, to),
            Hook::Symlink { from, to } => arrow("symlink ", from, to),
            Hook::Command { command, .. } => one_line(command.as_str()),
        }
    }
}

/// `{verb}{from} -> {to or from}`.
fn arrow(verb: &str, from: &String, to: &Option<String>) -> (r: String)
    ensures
        r@ == verb@ + from@ + " -> "@ + Hook::target_spec(from@, *to),
{
    let mut r = String::from_str(verb);
    push_str(&mut r, from.as_str());
    push_str(&mut r, " -> ");
    match to {
        Some(t) => push_str(&mut r, t.as_str()),
        None => push_str(&mut r, from.as_str()),
    }
    r
}

fn copy_opt(o: &Option<String>) -> (r: Option<String>)
    ensures
        r == *o,
{
    match o {
        Some(s) => Some(s.clone()),
        None => None,
    }
}

/// `a.or(b)`.
pub open spec fn or_spec(a: Option<String>, b: Option<String>) -> Option<String> {
    match a {
        Some(x) => Some(x),
        None => b,
    }
}

fn or_opt(a: Option<String>, b: Option<String>) -> (r: Option<String>)
    ensures
        r == or_spec(a, b),
{
    match a {
        Some(x) => Some(x),
        None => b,
    }
}

fn chain(first: Vec<Hook>, second: Vec<Hook>) -> (r: Vec<Hook>)
    ensures
        r@ == first@ + second@,
{
    let mut first = first;
    let mut second = second;
    first.append(&mut second);
    first
}

/// Where the user-wide file lives, given `$XDG_CONFIG_HOME` and `$HOME`.
pub open spec fn global_path_spec(xdg: Option<Seq<char>>, home: Option<Seq<char>>) -> Option<
    Seq<char>,
> {
    if xdg is Some && xdg->0.len() > 0 {
        Some(join_path(xdg->0, GLOBAL_CONFIG_PATH@))
    } else if home is Some && home->0.len() > 0 {
        Some(join_path(join_path(home->0, ".config"@), GLOBAL_CONFIG_PATH@))
    } else {
        None
    }
}

/// `"{repo}"`, the placeholder for the main worktree's directory name.
pub open spec fn repo_placeholder() -> Seq<char> {
    seq!['{', 'r', 'e', 'p', 'o', '}']
}

/// `Ok(prefix + r)` for `Ok(r)`; errors pass through.
pub open spec fn prepend(prefix: Seq<char>, r: Result<Seq<char>, ConfigError>) -> Result<
    Seq<char>,
    ConfigError,
> {
    match r {
        Ok(s) => Ok(prefix + s),
        Err(e) => Err(e),
    }
}

/// `s` with every `{repo}` replaced by `name`; any other `{` is an error.
pub open spec fn expand_braces(s: Seq<char>, name: Option<Seq<char>>) -> Result<
    Seq<char>,
    ConfigError,
>
    decreases s.len(),
{
    if s.len() == 0 {
        Ok(seq![])
    } else if s[0] == '{' {
        if s.len() >= 6 && s.take(6) == repo_placeholder() {
            match name {
                None => Err(ConfigError::NoRepoName),
                Some(n) => prepend(n, expand_braces(s.skip(6), name)),
            }
        } else {
            Err(ConfigError::UnknownPlaceholder)
        }
    } else {
        prepend(seq![s[0]], expand_braces(s.drop_first(), name))
    }
}

/// `base_dir` as written, with `~` and `{repo}` expanded.
pub open spec fn expand_spec(value: Seq<char>, main: Seq<char>, home: Option<Seq<char>>) -> Result<
    Seq<char>,
    ConfigError,
> {
    let name = file_name_spec(main);
    if value.len() > 0 && value[0] == '~' {
        if value.len() > 1 && value[1] != '/' {
            Err(ConfigError::OtherUsersHome)
        } else {
            match home {
                None => Err(ConfigError::NoHome),
                Some(h) => prepend(h, expand_braces(value.skip(1), name)),
            }
        }
    } else {
        expand_braces(value, name)
    }
}

/// The configured `base_dir`, or the built-in default.
pub open spec fn base_dir_value(c: Config) -> Seq<char> {
    match c.defaults.base_dir {
        Some(b) => b@,
        None => DEFAULT_BASE_DIR@,
    }
}

/// An absolute base is used as-is; a relative one is resolved against the
/// main worktree.
pub open spec fn anchor(base: Seq<char>, main: Seq<char>) -> Seq<char> {
    if is_abs(base) {
        base
    } else {
        normalize_spec(join_path(main, base))
    }
}

pub open spec fn base_dir_spec(c: Config, main: Seq<char>, home: Option<Seq<char>>) -> Result<
    Seq<char>,
    ConfigError,
> {
    match expand_spec(base_dir_value(c), main, home) {
        Ok(b) => Ok(anchor(b, main)),
        Err(e) => Err(e),
    }
}

pub open spec fn opt_view(o: Option<String>) -> Option<Seq<char>> {
    match o {
        Some(s) => Some(s@),
        None => None,
    }
}

fn expand_braces_exec(s: &str, name: &Option<String>) -> (r: Result<String, ConfigError>)
    ensures
        match r {
            Ok(x) => expand_braces(s@, opt_view(*name)) == Ok::<Seq<char>, ConfigError>(x@),
            Err(e) => expand_braces(s@, opt_view(*name)) == Err::<Seq<char>, ConfigError>(e),
        },
{
    let v = to_chars(s);
    let n = v.len();
    let mut out = String::new();
    let mut i: usize = 0;
    assert(v@.skip(0) == v@);
    while i < n
        invariant
            v@ == s@,
            n == v.len(),
            i <= n,
            expand_braces(v@, opt_view(*name)) == prepend(
                out@,
                expand_braces(v@.skip(i as int), opt_view(*name)),
            ),
        decreases n - i,
    {
        let ghost rest = v@.skip(i as int);
        if v[i] == '{' {
            if n - i >= 6 && v[i + 1] == 'r' && v[i + 2] == 'e' && v[i + 3] == 'p' && v[i + 4] == 'o'
                && v[i + 5] == '}' {
                assert(rest.take(6) =~= repo_placeholder());
                assert(rest.skip(6) == v@.skip(i + 6));
                match name {
                    None => {
                        return Err(ConfigError::NoRepoName);
                    },
                    Some(nm) => {
                        let ghost o = out@;
                        push_str(&mut out, nm.as_str());
                        proof {
                            let x = expand_braces(v@.skip(i + 6), opt_view(*name));
                            if let Ok(r) = x {
                                assert(o + (nm@ + r) =~= (o + nm@) + r);
                            }
                        }
                    },
                }
                i = i + 6;
            } else {
                assert(!(rest.len() >= 6 && rest.take(6) == repo_placeholder())) by {
                    if rest.len() >= 6 && rest.take(6) == repo_placeholder() {
                        assert(rest.take(6)[1] == 'r');
                        assert(rest.take(6)[2] == 'e');
                        assert(rest.take(6)[3] == 'p');
                        assert(rest.take(6)[4] == 'o');
                        assert(rest.take(6)[5] == '}');
                    }
                }
                return Err(ConfigError::UnknownPlaceholder);
            }
        } else {
            assert(rest.drop_first() == v@.skip(i + 1));
            let ghost o = out@;
            push_char(&mut out, v[i]);
            proof {
                let x = expand_braces(v@.skip(i + 1), opt_view(*name));
                if let Ok(r) = x {
                    assert(o + (seq![v@[i as int]] + r) =~= o.push(v@[i as int]) + r);
                }
            }
            i = i + 1;
        }
    }
    assert(v@.skip(n as int) =~= Seq::<char>::empty());
    Ok(out)
}

fn expand(value: &str, main: &str, home: &Option<String>) -> (r: Result<String, ConfigError>)
    ensures
        match r {
            Ok(x) => expand_spec(value@, main@, opt_view(*home)) == Ok::<Seq<char>, ConfigError>(
                x@,
            ),
            Err(e) => expand_spec(value@, main@, opt_view(*home)) == Err::<Seq<char>, ConfigError>(
                e,
            ),
        },
{
    let name = file_name(main);
    assert(opt_view(name) == file_name_spec(main@));
    let v = to_chars(value);
    if v.len() > 0 && v[0] == '~' {
        if v.len() > 1 && v[1] != '/' {
            return Err(ConfigError::OtherUsersHome);
        }
        match home {
            None => Err(ConfigError::NoHome),
            Some(h) => {
                let rest = string_of(&v, 1, v.len());
                assert(rest@ == value@.skip(1));
                match expand_braces_exec(rest.as_str(), &name) {
                    Ok(x) => {
                        let mut out = h.clone();
                        push_str(&mut out, x.as_str());
                        Ok(out)
                    },
                    Err(e) => Err(e),
                }
            },
        }
    } else {
        expand_braces_exec(value, &name)
    }
}

impl Config {
    /// Where the repository's file lives.
    pub fn path_in(main_worktree: &str) -> (r: String)
        ensures
            r@ == join_path(main_worktree@, CONFIG_FILE@),
    {
        join_paths(main_worktree, CONFIG_FILE)
    }

    /// Accepts only the `version` values this build understands.
    pub fn check_version(&self) -> (r: Result<(), ConfigError>)
        ensures
            r is Ok <==> (self.version is None || self.version->0@ == "1"@ || self.version->0@
                == "1.0"@),
            r matches Err(e) ==> e == ConfigError::UnsupportedVersion(self.version->0),
    {
        match &self.version {
            None => Ok(()),
            Some(v) => {
                if crate::text::eq(v.as_str(), "1") || crate::text::eq(v.as_str(), "1.0") {
                    Ok(())
                } else {
                    Err(ConfigError::UnsupportedVersion(v.clone()))
                }
            },
        }
    }

    /// Path of the user-wide file, or `None` when there is no home to look
    /// in: `$XDG_CONFIG_HOME` when it is set and not empty, else
    /// `$HOME/.config`.
    pub fn global_path(xdg_config_home: Option<String>, home: Option<String>) -> (r: Option<
        String,
    >)
        ensures
            opt_view(r) == global_path_spec(opt_view(xdg_config_home), opt_view(home)),
    {
        let base = match xdg_config_home {
            Some(dir) if !dir.as_str().is_empty() => dir,
            _ => match home {
                Some(h) if !h.as_str().is_empty() => join_paths(h.as_str(), ".config"),
                _ => {
                    return None;
                },
            },
        };
        Some(join_paths(base.as_str(), GLOBAL_CONFIG_PATH))
    }

    /// The configuration in force: the repository's laid over the user's.
    ///
    /// Settings are merged key by key, so a repository that says nothing about
    /// `base_dir` inherits the user's rather than snapping back to the
    /// built-in default.
    ///
    /// Hooks are not overridden but run in addition, and the order is the one
    /// setup and teardown always take: creation runs the user's hooks first
    /// and the repository's second, removal runs them in reverse, so whatever
    /// a hook set up is still standing when the hook that undoes it runs.
    pub fn merge(user: Self, repo: Self) -> (r: Self)
        ensures
            r.version == or_spec(repo.version, user.version),
            r.defaults.base_dir == or_spec(repo.defaults.base_dir, user.defaults.base_dir),
            r.hooks.pre_create@ == user.hooks.pre_create@ + repo.hooks.pre_create@,
            r.hooks.post_create@ == user.hooks.post_create@ + repo.hooks.post_create@,
            r.hooks.pre_remove@ == repo.hooks.pre_remove@ + user.hooks.pre_remove@,
            r.hooks.post_remove@ == repo.hooks.post_remove@ + user.hooks.post_remove@,
    {
        let Config { version: uv, defaults: ud, hooks: uh } = user;
        let Config { version: rv, defaults: rd, hooks: rh } = repo;
        Config {
            version: or_opt(rv, uv),
            defaults: Defaults { base_dir: or_opt(rd.base_dir, ud.base_dir) },
            hooks: Hooks {
                pre_create: chain(uh.pre_create, rh.pre_create),
                post_create: chain(uh.post_create, rh.post_create),
                pre_remove: chain(rh.pre_remove, uh.pre_remove),
                post_remove: chain(rh.post_remove, uh.post_remove),
            },
        }
    }

    /// Absolute base directory for new worktrees.
    ///
    /// `~` at the start stands for `home`, and `{repo}` for the directory name
    /// of the main worktree. What results is used as-is when absolute, and
    /// resolved against the main worktree otherwise.
    pub fn base_dir(&self, main_worktree: &str, home: &Option<String>) -> (r: Result<
        String,
        ConfigError,
    >)
        ensures
            match r {
                Ok(b) => base_dir_spec(*self, main_worktree@, opt_view(*home)) == Ok::<
                    Seq<char>,
                    ConfigError,
                >(b@),
                Err(e) => base_dir_spec(*self, main_worktree@, opt_view(*home)) == Err::<
                    Seq<char>,
                    ConfigError,
                >(e),
            },
    {
        let value: &str = match &self.defaults.base_dir {
            Some(b) => b.as_str(),
            None => DEFAULT_BASE_DIR,
        };
        let base = expand(value, main_worktree, home)?;
        if is_absolute(base.as_str()) {
            Ok(base)
        } else {
            let joined = join_paths(main_worktree, base.as_str());
            Ok(normalize(joined.as_str()))
        }
    }
}

/// A repository that says nothing about `base_dir` inherits the user's
/// choice rather than snapping back to the built-in default: the merged
/// configuration puts new worktrees exactly where the user's alone would.
pub proof fn lemma_silent_repository_inherits_base_dir(
    user: Config,
    repo: Config,
    merged: Config,
    main: Seq<char>,
    home: Option<Seq<char>>,
)
    requires
        repo.defaults.base_dir is None,
        merged.defaults.base_dir == or_spec(repo.defaults.base_dir, user.defaults.base_dir),
    ensures
        base_dir_spec(merged, main, home) == base_dir_spec(user, main, home),
{
}

/// A repository that chooses a `base_dir` keeps it, whatever the user's
/// file says.
pub proof fn lemma_repository_choice_wins(
    user: Config,
    repo: Config,
    merged: Config,
    main: Seq<char>,
    home: Option<Seq<char>>,
)
    requires
        repo.defaults.base_dir is Some,
        merged.defaults.base_dir == or_spec(repo.defaults.base_dir, user.defaults.base_dir),
    ensures
        base_dir_spec(merged, main, home) == base_dir_spec(repo, main, home),
{
}

impl ConfigError {
    pub open spec fn message_spec(self) -> Seq<char> {
        match self {
            ConfigError::UnsupportedVersion(v) => "unsupported config version `"@ + v@
                + "` (this build understands 1, 1.0)"@,
            ConfigError::NoHome => "base_dir starts with `~`, but there is no home directory to expand it to"@,
            ConfigError::OtherUsersHome => "base_dir may only use `~` for your own home directory, as in `~/worktrees`"@,
            ConfigError::UnknownPlaceholder => "base_dir may only use `{repo}` in braces"@,
            ConfigError::NoRepoName => "base_dir uses `{repo}`, but the main worktree's path has no directory name"@,
        }
    }

    /// What went wrong, in a sentence.
    pub fn message(&self) -> (r: String)
        ensures
            r@ == self.message_spec(),
    {
        match self {
            ConfigError::UnsupportedVersion(v) => {
                let mut m = String::from_str("unsupported config version `");
                push_str(&mut m, v.as_str());
                push_str(&mut m, "` (this build understands 1, 1.0)");
                m
            },
            ConfigError::NoHome => String::from_str(
                "base_dir starts with `~`, but there is no home directory to expand it to",
            ),
            ConfigError::OtherUsersHome => String::from_str(
                "base_dir may only use `~` for your own home directory, as in `~/worktrees`",
            ),
            ConfigError::UnknownPlaceholder => String::from_str(
                "base_dir may only use `{repo}` in braces",
            ),
            ConfigError::NoRepoName => String::from_str(
                "base_dir uses `{repo}`, but the main worktree's path has no directory name",
            ),
        }
    }
}

pub const TEMPLATE: &'static str = r#"# gwt configuration for this repository, meant to be committed.
# Settings that are yours rather than the project's go in the same format in
# ~/.config/gwx/config.toml, and this file wins where the two overlap.
# Docs: https://github.com/ktakada42/gwt
version = "1"

[defaults]
# Where worktrees are created, relative to the main worktree.
base_dir = "../worktrees"

# Hooks run before the worktree is created (command hooks only, run in the
# main worktree).
# [[hooks.pre_create]]
# type = "command"
# command = "echo creating $GWT_BRANCH"

# Hooks run after the worktree is created, inside the new worktree.
# [[hooks.post_create]]
# type = "copy"
# from = ".env"
# to = ".env"
#
# `symlink` shares one directory with the main worktree; `copy` gives the
# worktree its own, keeps symlinks as symlinks, and on macOS clones the tree
# rather than duplicating it.
# [[hooks.post_create]]
# type = "symlink"
# from = "node_modules"
#
# [[hooks.post_create]]
# type = "command"
# command = "npm install"
# work_dir = "."
# env = { NODE_ENV = "development" }

# Hooks run before the worktree is removed, inside it (command hooks only).
# A failing one calls the removal off.
# [[hooks.pre_remove]]
# type = "command"
# command = "docker compose down"

# Hooks run after the worktree is gone (command hooks only, run in the main
# worktree). GWT_WORKTREE_PATH still names the directory that was removed.
# [[hooks.post_remove]]
# type = "command"
# command = "rm -rf \"$GWT_MAIN_WORKTREE/.cache/$GWT_WORKTREE_NAME\""
"#;

} // verus!
