use clap_complete::env::{Bash, EnvCompleter, Fish, Zsh};
use gwt::cd_target::{hand_off_file, request_text, CD_FILE_VAR};
use gwt::cli::Shell;
use gwt::commands::add::{
    branch_arg, check_not_checked_out, decide_plan, git_args, needs_remote_lookup, plan_message,
    reject_leading_dash, target_path, AddError, Plan,
};
use gwt::commands::clean::{candidates, classify, is_candidate, table_lines, State};
use gwt::commands::init::{exists_message, may_write_template};
use gwt::commands::list::{list_lines, note};
use gwt::commands::remove::{
    branch_removal, check_remove, remove_worktree, removal_blocker, Blocker, RemoveError,
    RemoveOptions,
};
use gwt::commands::shell::{shell_function, COMPLETE_VAR, FISH_FUNCTION, POSIX_FUNCTION};
use gwt::completion::{addable_branches, worktree_candidates};
use gwt::config::Config;
use gwt::git::{parse_worktree_list, tracking, Tracking, Worktree};
use gwt::repo::Repo;

fn repo_at(cwd: &str) -> Repo {
    Repo {
        cwd: cwd.to_string(),
        main: "/repo".to_string(),
        home: None,
        config: Config::default(),
    }
}

fn worktrees() -> Vec<Worktree> {
    parse_worktree_list(
        "worktree /repo\nHEAD abcdef0123\nbranch refs/heads/main\n\n\
         worktree /worktrees/feature/auth\nHEAD abcdef0123\nbranch refs/heads/feature/auth\n\n\
         worktree /worktrees/wip\nHEAD 0123456789\nbranch refs/heads/wip\n\n\
         worktree /worktrees/loose\nHEAD 0123456789\ndetached\nlocked\n",
    )
}

fn opts(force: bool, with_branch: bool) -> RemoveOptions {
    RemoveOptions {
        force,
        with_branch,
        quiet: false,
        no_hooks: false,
    }
}

#[test]
fn existing_branch_is_checked_out() {
    let args = git_args(&Plan::Existing, "feat", "/wt/feat", false, false);
    assert_eq!(args, ["worktree", "add", "--", "/wt/feat", "feat"]);
}

#[test]
fn remote_branch_is_tracked() {
    let args = git_args(
        &Plan::Track("origin/feat".into()),
        "feat",
        "/wt/feat",
        false,
        false,
    );
    assert_eq!(
        args,
        [
            "worktree",
            "add",
            "--track",
            "-b",
            "feat",
            "--",
            "/wt/feat",
            "origin/feat"
        ]
    );
}

#[test]
fn new_branch_is_created_from_the_start_point() {
    let args = git_args(
        &Plan::Create("main".into()),
        "feat",
        "/wt/feat",
        true,
        true,
    );
    assert_eq!(
        args,
        ["worktree", "add", "--force", "--quiet", "-b", "feat", "--", "/wt/feat", "main"]
    );
}

#[test]
fn the_plan_follows_local_then_remote_then_new() {
    let none: Vec<String> = Vec::new();
    let one = vec!["origin/feat".to_string()];
    let two = vec!["origin/feat".to_string(), "upstream/feat".to_string()];
    assert!(matches!(decide_plan("feat", None, false, true, &none), Ok(Plan::Existing)));
    assert!(matches!(decide_plan("feat", None, false, false, &one), Ok(Plan::Track(r)) if r == "origin/feat"));
    assert!(matches!(decide_plan("feat", None, false, false, &none), Ok(Plan::Create(s)) if s == "HEAD"));
    assert!(matches!(decide_plan("feat", Some("v1"), false, false, &none), Ok(Plan::Create(s)) if s == "v1"));
    assert!(matches!(decide_plan("feat", Some("v1"), false, true, &none), Err(AddError::ExistsWithFrom(_))));
    assert!(matches!(decide_plan("feat", Some("v1"), true, false, &none), Err(AddError::NoCreateWithFrom)));
    let err = decide_plan("nope", None, true, false, &none).err().unwrap();
    assert!(err.message().contains("does not exist"));
    // Unless exactly one remote branch matches, the branch is cut from HEAD.
    assert!(matches!(decide_plan("feat", None, false, false, &two), Ok(Plan::Create(s)) if s == "HEAD"));
    assert!(matches!(decide_plan("feat", None, true, false, &two), Err(AddError::DoesNotExist(_))));
    assert!(needs_remote_lookup(None, false));
    assert!(!needs_remote_lookup(Some("x"), false));
    assert!(!needs_remote_lookup(None, true));
}

#[test]
fn branch_names_are_trimmed_and_checked() {
    assert_eq!(branch_arg("  feat ").ok().unwrap(), "feat");
    assert!(matches!(branch_arg("   "), Err(AddError::EmptyBranch)));
    let err = branch_arg("--detach").err().unwrap();
    assert_eq!(err.message(), "branch name must not start with `-`: `--detach`");
    assert!(reject_leading_dash("start point", "-x").is_err());
    assert!(reject_leading_dash("start point", "main").is_ok());
}

#[test]
fn a_branch_checked_out_elsewhere_is_refused_unless_forced() {
    let ws = worktrees();
    let err = check_not_checked_out(&ws, "wip", false).err().unwrap();
    assert_eq!(err.message(), "branch `wip` is already checked out at /worktrees/wip");
    assert!(check_not_checked_out(&ws, "wip", true).is_ok());
    assert!(check_not_checked_out(&ws, "fresh", false).is_ok());
}

#[test]
fn the_worktree_path_comes_from_the_flag_or_the_layout() {
    let repo = Repo {
        cwd: "/home/me/repo/sub".to_string(),
        main: "/home/me/repo".to_string(),
        home: None,
        config: Config::default(),
    };
    assert_eq!(target_path(&repo, Some("../custom"), "x").ok().unwrap(), "/home/me/repo/custom");
    assert_eq!(target_path(&repo, None, "feature/auth").ok().unwrap(), "/home/me/worktrees/feature/auth");
    assert_eq!(plan_message(&Plan::Track("origin/x".into()), "x"), "Created branch `x` tracking `origin/x`");
    assert_eq!(plan_message(&Plan::Create("HEAD".into()), "x"), "Created branch `x` from `HEAD`");
    assert_eq!(plan_message(&Plan::Existing, "x"), "Checked out existing branch `x`");
}

#[test]
fn uncommitted_changes_outrank_everything() {
    // Merged and pushed, but the edits in the working tree are the only
    // thing here that a removal could destroy.
    let (state, note) = classify(true, true, false, &Tracking::Pushed);
    assert_eq!(state, State::Dirty);
    assert!(note.contains("uncommitted"));
}

#[test]
fn only_merged_and_clean_is_preselected() {
    assert!(classify(false, true, false, &Tracking::Untracked).0.preselected());
    for track in [Tracking::Pushed, Tracking::Ahead(2), Tracking::Gone] {
        assert!(!classify(false, false, false, &track).0.preselected());
    }
    assert!(!classify(true, true, false, &Tracking::Pushed).0.preselected());
}

#[test]
fn an_unmerged_branch_is_told_apart_by_its_upstream() {
    assert_eq!(
        classify(false, false, false, &Tracking::Pushed).0,
        State::Pushed,
        "everything is on the remote"
    );
    assert_eq!(classify(false, false, false, &Tracking::Ahead(3)).0, State::Local);
    assert_eq!(classify(false, false, false, &Tracking::Untracked).0, State::Local);
    assert_eq!(classify(false, false, false, &Tracking::Gone).0, State::Local);
}

#[test]
fn the_note_says_how_many_commits_are_at_stake() {
    let (_, note) = classify(false, false, false, &Tracking::Ahead(3));
    assert!(note.contains('3'), "{note}");
    assert_eq!(note, "3 commit(s) not on its upstream");
}

#[test]
fn clean_never_offers_the_main_worktree_or_the_current_one() {
    let repo = repo_at("/worktrees/wip/src");
    let ws = worktrees();
    assert!(!is_candidate(&repo, &ws[0]));
    assert!(!is_candidate(&repo, &ws[2]));
    assert!(is_candidate(&repo, &ws[1]));
    let merged = vec!["main".to_string(), "feature/auth".to_string()];
    let rows = tracking("feature/auth\torigin/feature/auth\t\n");
    let dirty = vec![false, false, true, true];
    let squashed = vec![false; 4];
    let found = candidates(&repo, &ws, &merged, &rows, &dirty, &squashed);
    let names: Vec<&str> = found.iter().map(|c| c.name.as_str()).collect();
    assert_eq!(names, ["feature/auth", "loose"]);
    assert_eq!(found[0].state, State::Done);
    assert_eq!(found[1].state, State::Dirty);
    assert_eq!(State::Done.label(), "done");
    let lines = table_lines(&found);
    assert_eq!(lines[0], "feature/auth  done    merged into HEAD, nothing uncommitted");
    assert_eq!(lines[1], "loose         dirty   uncommitted changes would be lost");
}

#[test]
fn notes_describe_worktree_state() {
    let mut wt = Worktree {
        path: "/wt".to_string(),
        head: None,
        branch: None,
        bare: false,
        detached: true,
        locked: true,
    };
    assert_eq!(note(&wt), " (detached, locked)");
    wt.detached = false;
    wt.locked = false;
    assert_eq!(note(&wt), "");
}

#[test]
fn the_list_marks_where_you_stand() {
    let repo = repo_at("/repo");
    let lines = list_lines(&repo, &worktrees());
    assert_eq!(lines[0], "* @             abcdef0  /repo");
    assert_eq!(lines[1], "  feature/auth  abcdef0  /worktrees/feature/auth");
    assert_eq!(lines[3], "  loose         0123456  /worktrees/loose (detached, locked)");
}

#[test]
fn removal_refuses_the_main_and_current_worktrees_even_forced() {
    let repo = repo_at("/worktrees/wip");
    let ws = worktrees();
    assert_eq!(removal_blocker(&repo, &ws[0], true, false), Some(Blocker::MainWorktree));
    assert_eq!(removal_blocker(&repo, &ws[2], true, false), Some(Blocker::Inside));
    assert_eq!(removal_blocker(&repo, &ws[1], false, true), Some(Blocker::Dirty));
    assert_eq!(removal_blocker(&repo, &ws[1], true, true), None);
    let err = remove_worktree(&repo, &ws[1], &opts(false, false), true).err().unwrap();
    assert_eq!(err.message(), "cannot remove /worktrees/feature/auth: it has uncommitted changes");
    let args = remove_worktree(&repo, &ws[1], &opts(true, false), true).ok().unwrap();
    assert_eq!(args, ["worktree", "remove", "--force", "/worktrees/feature/auth"]);
    assert!(matches!(check_remove(&repo, &ws[0], true, false), Err(RemoveError::MainWorktree)));
    let err = check_remove(&repo, &ws[1], false, true).err().unwrap();
    assert!(err.message().contains("uncommitted changes"));
    assert!(check_remove(&repo, &ws[0], true, false).err().unwrap().message().contains("main worktree"));
}

#[test]
fn a_branch_goes_only_when_merged_or_forced() {
    let ws = worktrees();
    assert!(matches!(branch_removal(&ws[1], &opts(false, false), false, false), Ok(None)));
    let err = branch_removal(&ws[1], &opts(false, true), false, false).err().unwrap();
    assert!(err.message().contains("not merged"));
    assert_eq!(branch_removal(&ws[1], &opts(false, true), true, false).ok().unwrap().unwrap(), ["branch", "-d", "feature/auth"]);
    assert_eq!(branch_removal(&ws[1], &opts(true, true), false, false).ok().unwrap().unwrap(), ["branch", "-D", "feature/auth"]);
    assert!(matches!(branch_removal(&ws[3], &opts(true, true), true, false), Err(RemoveError::NoBranch)));
    // A squash-merged branch is gone by content, which `-d` cannot see.
    assert_eq!(branch_removal(&ws[1], &opts(false, true), false, true).ok().unwrap().unwrap(), ["branch", "-D", "feature/auth"]);
}

#[test]
fn registration_is_generated_for_every_shell() {
    let shells: [&dyn EnvCompleter; 3] = [&Bash, &Zsh, &Fish];
    for shell in shells {
        let mut out = Vec::new();
        shell
            .write_registration(COMPLETE_VAR, "gwt", "gwt", "gwt", &mut out)
            .unwrap();
        let script = String::from_utf8(out).unwrap();
        assert!(script.contains("gwt"), "empty completion for {}", shell.name());
        assert!(
            script.contains(COMPLETE_VAR),
            "{} script does not call back into gwt",
            shell.name()
        );
    }
}

#[test]
fn wrapper_only_intercepts_the_subcommands_that_can_move_you() {
    assert!(POSIX_FUNCTION.contains("cd|list|ls)"));
    assert!(FISH_FUNCTION.contains(r#"contains -- "$argv[1]" cd list ls"#));
    // Everything else must reach the binary untouched.
    assert!(POSIX_FUNCTION.contains(r#"command gwt "$@""#));
    assert!(FISH_FUNCTION.contains("command gwt $argv"));
}

#[test]
fn wrapper_hands_the_directory_over_through_a_file() {
    for script in [POSIX_FUNCTION, FISH_FUNCTION] {
        assert!(script.contains(CD_FILE_VAR), "{script}");
        assert!(script.contains("mktemp"), "{script}");
        // The file must be cleaned up whether or not a cd happens.
        assert!(script.contains("rm -f"), "{script}");
    }
    assert_eq!(shell_function(Shell::Bash), POSIX_FUNCTION);
    assert_eq!(shell_function(Shell::Zsh), POSIX_FUNCTION);
    assert_eq!(shell_function(Shell::Fish), FISH_FUNCTION);
}

#[test]
fn the_hand_off_file_is_used_only_when_named() {
    assert_eq!(hand_off_file(Some("/tmp/cd".into())).as_deref(), Some("/tmp/cd"));
    assert_eq!(hand_off_file(Some(String::new())), None);
    assert_eq!(hand_off_file(None), None);
    assert_eq!(request_text("/home/me/worktrees/feature/auth"), "/home/me/worktrees/feature/auth\n");
}

#[test]
fn init_overwrites_only_when_forced() {
    assert!(may_write_template(false, false));
    assert!(!may_write_template(true, false));
    assert!(may_write_template(true, true));
    assert_eq!(exists_message("/repo/.gwt.toml"), "/repo/.gwt.toml already exists (pass --force to overwrite)");
}

#[test]
fn completion_offers_what_each_command_accepts() {
    let repo = repo_at("/repo");
    let ws = worktrees();
    let all = worktree_candidates(&repo, &ws, false);
    assert_eq!(all[0], ("@".to_string(), "main worktree \u{2014} /repo".to_string()));
    assert_eq!(all[1], ("feature/auth".to_string(), "/worktrees/feature/auth".to_string()));
    assert_eq!(all.len(), 4);
    let removable = worktree_candidates(&repo, &ws, true);
    assert_eq!(removable.len(), 3);
    assert_eq!(removable[0].0, "feature/auth");

    let locals = vec!["main".to_string(), "hotfix/login".to_string()];
    let remotes = vec![
        ("origin/main".to_string(), "main".to_string()),
        ("origin/release/2.1".to_string(), "release/2.1".to_string()),
        ("origin/wip".to_string(), "wip".to_string()),
    ];
    let offered = addable_branches(&ws, &locals, &remotes);
    assert_eq!(
        offered,
        [
            ("hotfix/login".to_string(), "local branch".to_string()),
            ("release/2.1".to_string(), "origin/release/2.1".to_string()),
        ]
    );
}

#[test]
fn clean_counts_a_squash_merged_worktree_as_done() {
    let repo = repo_at("/repo");
    let ws = worktrees();
    let merged = vec!["main".to_string()];
    let rows = tracking("feature/auth\torigin/feature/auth\t[gone]\nwip\t\t\n");
    let dirty = vec![false; 4];
    let squashed = vec![false, true, false, false];
    let found = candidates(&repo, &ws, &merged, &rows, &dirty, &squashed);
    assert_eq!(found[0].name, "feature/auth");
    assert_eq!(found[0].state, State::Done);
    assert_eq!(found[0].note, "squash or rebase merged into HEAD, nothing uncommitted");
    assert_eq!(found[1].name, "wip");
    assert_eq!(found[1].state, State::Local);
}
