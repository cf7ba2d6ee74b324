use gwt::config::Config;
use gwt::git::{
    is_dirty, is_merged, local_branches, main_worktree, merged_branches, parse_tracking,
    parse_worktree_list, remote_branches, remote_branches_matching, tracking, tracking_of,
    GitError, Tracking, Worktree,
};
use gwt::repo::{Repo, ResolveError};

const PORCELAIN: &str = "\
worktree /home/me/repo
HEAD 1111111111111111111111111111111111111111
branch refs/heads/main

worktree /home/me/worktrees/feature/auth
HEAD 2222222222222222222222222222222222222222
branch refs/heads/feature/auth

worktree /home/me/worktrees/detached
HEAD 3333333333333333333333333333333333333333
detached
";

fn repo() -> Repo {
    Repo {
        cwd: "/home/me/repo".to_string(),
        main: "/home/me/repo".to_string(),
        home: None,
        config: Config::default(),
    }
}

#[test]
fn tracking_tells_apart_never_pushed_and_level() {
    // The track field is empty in both cases; the upstream name is not.
    assert_eq!(parse_tracking("", ""), Tracking::Untracked);
    assert_eq!(parse_tracking("origin/feat", ""), Tracking::Pushed);
}

#[test]
fn tracking_reads_the_ahead_count() {
    assert_eq!(
        parse_tracking("origin/feat", "[ahead 3]"),
        Tracking::Ahead(3)
    );
    assert_eq!(
        parse_tracking("origin/feat", "[ahead 1, behind 2]"),
        Tracking::Ahead(1)
    );
    // Behind alone means the remote has everything this branch has.
    assert_eq!(
        parse_tracking("origin/feat", "[behind 2]"),
        Tracking::Pushed
    );
    assert_eq!(parse_tracking("origin/feat", "[gone]"), Tracking::Gone);
}

#[test]
fn parses_porcelain_output() {
    let list = parse_worktree_list(PORCELAIN);
    assert_eq!(list.len(), 3);
    assert_eq!(list[0].branch.as_deref(), Some("main"));
    assert_eq!(list[1].path, "/home/me/worktrees/feature/auth");
    assert!(list[2].detached);
    assert_eq!(list[2].name(), "detached");
    assert_eq!(list[0].short_head(), "1111111");
}

#[test]
fn worktree_path_follows_base_dir() {
    assert_eq!(
        repo()
            .worktree_path_for("feature/auth")
            .map_err(|e| e.message())
            .unwrap(),
        "/home/me/worktrees/feature/auth"
    );
}

#[test]
fn porcelain_attributes_before_any_worktree_are_ignored() {
    let list = parse_worktree_list("HEAD 1\nlocked\n\nworktree /a\nbare\nlocked reason\n");
    assert_eq!(list.len(), 1);
    assert_eq!(list[0].path, "/a");
    assert!(list[0].bare);
    assert!(list[0].locked);
    assert_eq!(list[0].short_head(), "-");
    assert_eq!(list[0].name(), "a");
    assert!(parse_worktree_list("").is_empty());
}

#[test]
fn a_branch_outside_refs_heads_is_kept_whole() {
    let list = parse_worktree_list("worktree /a\r\nbranch weird/name\r\n");
    assert_eq!(list[0].branch.as_deref(), Some("weird/name"));
}

#[test]
fn the_main_worktree_is_the_first_entry() {
    assert_eq!(main_worktree(true, PORCELAIN).ok().unwrap(), "/home/me/repo");
    assert!(matches!(
        main_worktree(false, PORCELAIN),
        Err(GitError::NotARepository)
    ));
    assert!(matches!(main_worktree(true, ""), Err(GitError::NoMainWorktree)));
}

#[test]
fn ref_listings_are_read_line_by_line() {
    assert_eq!(
        remote_branches_matching("origin/feat\n\nupstream/feat\n"),
        ["origin/feat", "upstream/feat"]
    );
    assert_eq!(local_branches("  main \n\n feat\n"), ["main", "feat"]);
    assert_eq!(merged_branches("main\n"), ["main"]);
    assert!(is_merged(&merged_branches("main\nfeat\n"), "feat"));
    assert!(!is_merged(&merged_branches("main\n"), "feat"));
    assert!(is_dirty(" M README.md"));
    assert!(!is_dirty(""));
}

#[test]
fn remote_branches_skip_head_and_keep_slashes() {
    let out = "origin/HEAD\tHEAD\norigin/feature/x\tfeature/x\nno-tab\norigin/\t\n";
    assert_eq!(
        remote_branches(out),
        [("origin/feature/x".to_string(), "feature/x".to_string())]
    );
}

#[test]
fn tracking_rows_are_looked_up_by_branch() {
    let rows = tracking("main\torigin/main\t\nfeat\torigin/feat\t[ahead 2]\nlocal\t\t\n\tx\n");
    assert_eq!(rows.len(), 3);
    assert_eq!(tracking_of(&rows, "main"), Tracking::Pushed);
    assert_eq!(tracking_of(&rows, "feat"), Tracking::Ahead(2));
    assert_eq!(tracking_of(&rows, "local"), Tracking::Untracked);
    assert_eq!(tracking_of(&rows, "missing"), Tracking::Untracked);
}

#[test]
fn an_ahead_count_that_is_not_a_number_reads_as_pushed() {
    assert_eq!(parse_tracking("o/x", "[ahead many]"), Tracking::Pushed);
    assert_eq!(
        parse_tracking("o/x", "[ahead 99999999999999999999999]"),
        Tracking::Pushed
    );
    assert_eq!(parse_tracking("o/x", "[behind 1, ahead 4]"), Tracking::Ahead(4));
}

fn worktrees() -> Vec<Worktree> {
    parse_worktree_list(PORCELAIN)
}

#[test]
fn resolve_prefers_branch_then_path_then_directory() {
    let r = repo();
    let ws = worktrees();
    assert_eq!(r.resolve(&ws, None).ok().unwrap().path, "/home/me/repo");
    assert_eq!(r.resolve(&ws, Some("@")).ok().unwrap().path, "/home/me/repo");
    assert_eq!(
        r.resolve(&ws, Some("feature/auth/")).ok().unwrap().path,
        "/home/me/worktrees/feature/auth"
    );
    assert_eq!(
        r.resolve(&ws, Some("auth")).ok().unwrap().path,
        "/home/me/worktrees/feature/auth"
    );
    assert_eq!(
        r.resolve(&ws, Some("detached")).ok().unwrap().path,
        "/home/me/worktrees/detached"
    );
}

#[test]
fn resolve_reports_unknown_and_ambiguous_names() {
    let r = repo();
    let ws = worktrees();
    let err = r.resolve(&ws, Some("ghost")).err().unwrap();
    assert_eq!(
        err.message(),
        "no worktree named `ghost`. Available: @, feature/auth, detached"
    );

    let twins = parse_worktree_list("worktree /r\n\nworktree /x/same\n\nworktree /y/same\n");
    let err = r.resolve(&twins, Some("same")).err().unwrap();
    assert!(matches!(err, ResolveError::Ambiguous { .. }));
    assert_eq!(err.message(), "`same` is ambiguous, it matches:\n  /x/same\n  /y/same");
    assert!(matches!(
        r.resolve(&Vec::new(), None),
        Err(ResolveError::NoWorktrees)
    ));
}

#[test]
fn the_main_worktree_is_labelled_at() {
    let r = repo();
    let ws = worktrees();
    assert_eq!(r.display_name(&ws[0], &ws[0]), "@");
    assert_eq!(r.display_name(&ws[1], &ws[0]), "feature/auth");
    assert_eq!(r.display_names(&ws), ["@", "feature/auth", "detached"]);
}

#[test]
fn git_output_is_read_as_text() {
    assert_eq!(gwt::git::output_text(b"main\nfeature\n\n"), "main\nfeature");
    assert_eq!(gwt::git::output_text(b""), "");
    assert_eq!(
        gwt::git::failure_text(b"  fatal: not a git repository\n"),
        "git failed: fatal: not a git repository"
    );
    assert_eq!(gwt::git::chatter(b"  \n"), None);
    assert_eq!(
        gwt::git::chatter(b"HEAD is now at abc\n"),
        Some("HEAD is now at abc\n".to_string())
    );
}

#[test]
fn repository_errors_read_as_sentences() {
    assert_eq!(
        gwt::git::GitError::NotARepository.message(),
        "not inside a git repository"
    );
    assert_eq!(
        gwt::git::GitError::NoMainWorktree.message(),
        "could not determine the main worktree"
    );
}
