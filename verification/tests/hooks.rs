use gwt::hooks::{hook_step, HookStep};
use gwt::config::Hook;
use gwt::hooks::{
    announce_line, failure_context, plan_hook, position, progress_line, resolve_inside,
    stopped_line, tail, HookAction, HookContext, HookError, Phase, Reporting,
};

fn ctx() -> HookContext {
    HookContext {
        main_worktree: "/repo".to_string(),
        worktree_path: "/wt".to_string(),
        name: "feat".into(),
        branch: "feat".into(),
    }
}

fn command(command: &str, work_dir: Option<&str>) -> Hook {
    Hook::Command {
        command: command.into(),
        env: vec![("NODE_ENV".to_string(), "development".to_string())],
        work_dir: work_dir.map(str::to_string),
    }
}

#[test]
fn resolve_inside_accepts_nested_paths() {
    let base = "/repo";
    assert_eq!(resolve_inside(base, "a/b.txt").ok().unwrap(), "/repo/a/b.txt");
    assert_eq!(resolve_inside(base, "./a").ok().unwrap(), "/repo/a");
    assert_eq!(resolve_inside(base, "a/../b").ok().unwrap(), "/repo/b");
}

#[test]
fn resolve_inside_rejects_escapes() {
    let base = "/repo";
    assert!(resolve_inside(base, "../outside").is_err());
    assert!(resolve_inside(base, "a/../../outside").is_err());
    assert!(resolve_inside(base, "/etc/passwd").is_err());
}

#[test]
fn copy_and_symlink_are_rejected_before_creation() {
    let hook = Hook::Copy {
        from: ".env".into(),
        to: None,
    };
    assert!(plan_hook(&hook, &Phase::PreCreate, &ctx(), &Reporting::Announce).is_err());
}

#[test]
fn copy_and_symlink_are_rejected_around_removal() {
    let hook = Hook::Symlink {
        from: "node_modules".into(),
        to: None,
    };
    for phase in [Phase::PreRemove, Phase::PostRemove] {
        let err = plan_hook(&hook, &phase, &ctx(), &Reporting::Announce)
            .err()
            .unwrap()
            .message();
        assert!(
            err.contains("only supported in post_create"),
            "unexpected error: {err}"
        );
    }
}

#[test]
fn tail_keeps_the_last_lines_only() {
    assert_eq!(tail(b""), "");
    assert_eq!(tail(b"\n  \n"), "");
    assert_eq!(tail(b"one\ntwo\n"), ": one; two");
    assert_eq!(tail(b"1\n2\n3\n4\n5\n"), ": 3; 4; 5");
}

#[test]
fn tail_reads_bytes_that_are_not_utf8() {
    // The invalid byte becomes U+FFFD rather than failing.
    assert_eq!(tail(b"bad \xff byte\n"), ": bad \u{FFFD} byte");
}

#[test]
fn escapes_are_reported_with_the_path_given() {
    let err = resolve_inside("/repo", "../outside").err().unwrap();
    assert!(matches!(err, HookError::Escapes(_)));
    assert_eq!(err.message(), "path escapes the worktree: ../outside");
    let err = resolve_inside("/repo", "/etc/passwd").err().unwrap();
    assert_eq!(
        err.message(),
        "absolute paths are not allowed in hooks: /etc/passwd"
    );
}

#[test]
fn a_copy_reads_from_main_and_writes_into_the_new_worktree() {
    let hook = Hook::Copy {
        from: "cfg".into(),
        to: Some("config".into()),
    };
    match plan_hook(&hook, &Phase::PostCreate, &ctx(), &Reporting::Announce) {
        Ok(HookAction::Copy { src, dst }) => {
            assert_eq!(src, "/repo/cfg");
            assert_eq!(dst, "/wt/config");
        }
        _ => panic!("expected a copy"),
    }
    let hook = Hook::Symlink {
        from: "node_modules".into(),
        to: None,
    };
    match plan_hook(&hook, &Phase::PostCreate, &ctx(), &Reporting::Announce) {
        Ok(HookAction::Symlink { src, dst }) => {
            assert_eq!(src, "/repo/node_modules");
            assert_eq!(dst, "/wt/node_modules");
        }
        _ => panic!("expected a symlink"),
    }
}

#[test]
fn pre_remove_runs_in_the_worktree_and_post_remove_in_the_main_one() {
    let cwd = |phase: Phase| match plan_hook(&command("pwd", None), &phase, &ctx(), &Reporting::Quiet) {
        Ok(HookAction::Run { cwd, .. }) => cwd,
        _ => panic!("expected a command"),
    };
    assert_eq!(cwd(Phase::PreRemove), "/wt");
    assert_eq!(cwd(Phase::PostCreate), "/wt");
    assert_eq!(cwd(Phase::PostRemove), "/repo");
    assert_eq!(cwd(Phase::PreCreate), "/repo");
}

#[test]
fn a_command_sees_the_context_then_its_own_environment() {
    match plan_hook(&command("npm ci", Some("app")), &Phase::PostCreate, &ctx(), &Reporting::Captured) {
        Ok(HookAction::Run { command, cwd, env, capture }) => {
            assert_eq!(command, "npm ci");
            assert_eq!(cwd, "/wt/app");
            assert!(capture);
            let names: Vec<&str> = env.iter().map(|(k, _)| k.as_str()).collect();
            assert_eq!(
                names,
                ["GWT_MAIN_WORKTREE", "GWT_WORKTREE_PATH", "GWT_WORKTREE_NAME", "GWT_BRANCH", "NODE_ENV"]
            );
            assert_eq!(env[0].1, "/repo");
            assert_eq!(env[3].1, "feat");
        }
        _ => panic!("expected a command"),
    }
    assert!(plan_hook(&command("x", Some("../up")), &Phase::PostCreate, &ctx(), &Reporting::Quiet).is_err());
}

#[test]
fn progress_is_numbered_and_says_where_it_stopped() {
    let hooks = vec![
        Hook::Copy { from: ".env".into(), to: None },
        command("npm install", None),
        command("make", None),
    ];
    assert_eq!(announce_line(&Phase::PostCreate), "Running post_create hooks...");
    assert_eq!(position(1, 3), "2/3");
    assert_eq!(progress_line(&hooks, 0), "  [1/3] copy .env -> .env");
    assert_eq!(
        stopped_line(1, 3).as_deref(),
        Some("        stopped here; 1 of 3 did not run")
    );
    assert_eq!(stopped_line(2, 3), None);
    assert_eq!(
        failure_context(&Phase::PostCreate, &hooks, 1),
        "post_create hook 2/3 failed: npm install"
    );
}

#[test]
fn phases_have_their_config_names() {
    assert_eq!(Phase::PreCreate.label(), "pre_create");
    assert_eq!(Phase::PostRemove.label(), "post_remove");
    assert_eq!(Phase::PreRemove.no_worktree_reason(), "the worktree is about to be deleted");
    let env = ctx().env();
    assert_eq!(env.len(), 4);
    assert_eq!(env[2], ("GWT_WORKTREE_NAME".to_string(), "feat".to_string()));
}

#[test]
fn a_refused_hook_says_which_phase_stops_it() {
    let hook = Hook::Symlink {
        from: "node_modules".into(),
        to: None,
    };
    let err = plan_hook(&hook, &Phase::PreRemove, &ctx(), &Reporting::Announce)
        .err()
        .unwrap()
        .message();
    assert_eq!(
        err,
        "`symlink` hooks are only supported in post_create (the worktree is about to be deleted)"
    );
    let copy = Hook::Copy {
        from: "../secret".into(),
        to: Some("/etc/x".into()),
    };
    // The source is looked at first, then the target.
    let err = plan_hook(&copy, &Phase::PostCreate, &ctx(), &Reporting::Announce).err().unwrap();
    assert_eq!(err.message(), "path escapes the worktree: ../secret");
    let copy = Hook::Copy {
        from: ".env".into(),
        to: Some("/etc/x".into()),
    };
    let err = plan_hook(&copy, &Phase::PostCreate, &ctx(), &Reporting::Announce).err().unwrap();
    assert_eq!(err.message(), "absolute paths are not allowed in hooks: /etc/x");
}

#[test]
fn hooks_run_in_order_and_stop_at_the_first_failure() {
    let hooks = vec![
        Hook::Copy { from: ".env".into(), to: None },
        command("npm install", None),
        command("make", None),
    ];
    let phase = Phase::PostCreate;
    match hook_step(&hooks, &phase, &Reporting::Announce, 0, false) {
        HookStep::Run { index, heading, line } => {
            assert_eq!(index, 0);
            assert_eq!(heading.as_deref(), Some("Running post_create hooks..."));
            assert_eq!(line.as_deref(), Some("  [1/3] copy .env -> .env"));
        }
        _ => panic!("the first hook runs first"),
    }
    match hook_step(&hooks, &phase, &Reporting::Announce, 1, false) {
        HookStep::Run { index, heading, .. } => {
            assert_eq!(index, 1);
            assert!(heading.is_none());
        }
        _ => panic!("the second hook runs next"),
    }
    match hook_step(&hooks, &phase, &Reporting::Announce, 2, true) {
        HookStep::Stop { stopped, context } => {
            assert_eq!(stopped.as_deref(), Some("        stopped here; 1 of 3 did not run"));
            assert_eq!(context, "post_create hook 2/3 failed: npm install");
        }
        _ => panic!("a failure ends the run"),
    }
    match hook_step(&hooks, &phase, &Reporting::Quiet, 1, false) {
        HookStep::Run { heading, line, .. } => assert!(heading.is_none() && line.is_none()),
        _ => panic!("quiet still runs the hooks"),
    }
    assert!(matches!(hook_step(&hooks, &phase, &Reporting::Announce, 3, false), HookStep::Finished));
    match hook_step(&hooks, &phase, &Reporting::Announce, 3, true) {
        HookStep::Stop { stopped, .. } => assert!(stopped.is_none()),
        _ => panic!("a failure of the last hook ends the run"),
    }
}
