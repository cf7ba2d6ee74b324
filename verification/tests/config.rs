use gwt::config::{Config, ConfigError, Defaults, Hook, Hooks, TEMPLATE};
use gwt::paths::normalize;

fn with_base_dir(base_dir: &str) -> Config {
    Config {
        version: None,
        defaults: Defaults {
            base_dir: Some(base_dir.to_string()),
        },
        hooks: Config::default().hooks,
    }
}

fn command(command: &str) -> Hook {
    Hook::Command {
        command: command.into(),
        env: Vec::new(),
        work_dir: None,
    }
}

fn copy(from: &str) -> Hook {
    Hook::Copy {
        from: from.into(),
        to: None,
    }
}

fn base_dir(cfg: &Config, main: &str) -> String {
    cfg.base_dir(main, &Some("/home/me".to_string()))
        .map_err(|e| e.message())
        .unwrap()
}

#[test]
fn defaults_when_empty() {
    let cfg = Config::default();
    // Unset rather than defaulted, so a repository saying nothing can
    // inherit the user's choice.
    assert_eq!(cfg.defaults.base_dir, None);
    assert_eq!(base_dir(&cfg, "/repo"), "/worktrees");
    assert!(cfg.hooks.pre_create.is_empty());
    assert!(cfg.hooks.post_create.is_empty());
}

#[test]
fn rejects_unknown_versions() {
    let mut cfg = Config::default();
    cfg.version = Some("2".to_string());
    assert!(cfg.check_version().is_err());
    cfg.version = Some("1.0".to_string());
    assert!(cfg.check_version().is_ok());
}

#[test]
fn template_is_valid() {
    let table: toml::Table = toml::from_str(TEMPLATE).unwrap();
    let mut cfg = Config::default();
    cfg.version = table
        .get("version")
        .and_then(|v| v.as_str())
        .map(str::to_string);
    assert_eq!(cfg.version.as_deref(), Some("1"));
    assert!(cfg.check_version().is_ok());
    // Every key the template sets is one the configuration knows, with the
    // value the defaults would give.
    for key in table.keys() {
        assert!(["version", "defaults", "hooks"].contains(&key.as_str()), "{key}");
    }
    let defaults = table.get("defaults").and_then(|d| d.as_table()).unwrap();
    assert_eq!(defaults.len(), 1);
    let base = defaults.get("base_dir").and_then(|b| b.as_str()).unwrap();
    assert_eq!(base, gwt::config::DEFAULT_BASE_DIR);
    cfg.defaults.base_dir = Some(base.to_string());
    assert_eq!(
        cfg.base_dir("/home/me/repo", &None).ok().unwrap(),
        Config::default().base_dir("/home/me/repo", &None).ok().unwrap()
    );
    // The hook examples are all commented out, and name the variables hooks get.
    assert!(table.get("hooks").is_none());
    assert!(TEMPLATE.contains("$GWT_BRANCH"));
}

#[test]
fn a_repository_that_says_nothing_inherits_the_users_base_dir() {
    let user = with_base_dir(".worktrees");
    let mut repo = Config::default();
    repo.hooks.post_create.push(copy(".env"));

    let merged = Config::merge(user, repo);
    assert_eq!(base_dir(&merged, "/repo"), "/repo/.worktrees");
}

#[test]
fn a_repository_that_chooses_one_keeps_it() {
    let user = with_base_dir(".worktrees");
    let repo = with_base_dir("../elsewhere");

    let merged = Config::merge(user, repo);
    assert_eq!(base_dir(&merged, "/repo"), "/elsewhere");
}

#[test]
fn hooks_from_both_files_run_setup_forwards_and_teardown_backwards() {
    let mut user = Config::default();
    user.hooks.post_create.push(command("user"));
    user.hooks.pre_remove.push(command("user"));
    let mut repo = Config::default();
    repo.hooks.post_create.push(command("repo"));
    repo.hooks.pre_remove.push(command("repo"));

    let merged = Config::merge(user, repo);
    let summaries = |hooks: &[Hook]| hooks.iter().map(Hook::summary).collect::<Vec<_>>();

    // Creating: the user's environment first, then what the project adds.
    assert_eq!(summaries(&merged.hooks.post_create), ["user", "repo"]);
    // Removing: the project's teardown first, since the user's set-up is
    // the ground it stands on.
    assert_eq!(summaries(&merged.hooks.pre_remove), ["repo", "user"]);
}

#[test]
fn a_command_summary_stays_on_one_line() {
    let summary = |c: &str| command(c).summary();

    assert_eq!(summary("npm install"), "npm install");
    assert_eq!(summary("  npm install  "), "npm install");
    assert_eq!(summary("set -e\nnpm install\n"), "set -e...");
    assert_eq!(summary(&"x".repeat(80)), format!("{}...", "x".repeat(60)));
    for c in ["npm install", "set -e\nnpm install", &"x".repeat(80)] {
        assert!(!summary(c).contains('\n'));
        assert!(summary(c).is_ascii());
    }
}

#[test]
fn the_global_path_follows_xdg_then_home() {
    let path = Config::global_path(None, Some("/home/me".to_string())).expect("a home is given");
    assert!(path.ends_with("gwx/config.toml"), "{path}");
    assert_eq!(path, "/home/me/.config/gwx/config.toml");
    assert_eq!(
        Config::global_path(Some("/xdg".to_string()), Some("/home/me".to_string())).unwrap(),
        "/xdg/gwx/config.toml"
    );
    // An empty XDG_CONFIG_HOME counts as unset.
    assert_eq!(
        Config::global_path(Some(String::new()), Some("/home/me".to_string())).unwrap(),
        "/home/me/.config/gwx/config.toml"
    );
    assert_eq!(Config::global_path(None, None), None);
    assert_eq!(Config::global_path(None, Some(String::new())), None);
}

#[test]
fn base_dir_is_resolved_against_the_main_worktree() {
    let cfg = Config::default();
    assert_eq!(base_dir(&cfg, "/home/me/repo"), "/home/me/worktrees");

    let cfg = with_base_dir("/tmp/wt");
    assert_eq!(base_dir(&cfg, "/home/me/repo"), "/tmp/wt");
}

#[test]
fn normalize_resolves_dots() {
    assert_eq!(normalize("/a/b/../c/./d"), "/a/c/d");
    assert_eq!(normalize("../a"), "../a");
}

#[test]
fn base_dir_expands_home_and_repo_name() {
    let cfg = with_base_dir("~/worktrees/{repo}");
    assert_eq!(base_dir(&cfg, "/src/gwx"), "/home/me/worktrees/gwx");
    let cfg = with_base_dir("~");
    assert_eq!(base_dir(&cfg, "/src/gwx"), "/home/me");
    let cfg = with_base_dir("../{repo}-trees");
    assert_eq!(base_dir(&cfg, "/src/gwx"), "/src/gwx-trees");
}

#[test]
fn base_dir_refuses_what_it_cannot_expand() {
    let err = |value: &str, home: Option<&str>| {
        with_base_dir(value)
            .base_dir("/src/gwx", &home.map(str::to_string))
            .err()
            .map(|e| e.message())
    };
    assert!(err("~/wt", None).unwrap().contains("no home directory"));
    assert!(err("~bob/wt", Some("/home/me")).unwrap().contains("your own home"));
    assert!(err("../{branch}", Some("/home/me")).unwrap().contains("{repo}"));
    assert!(matches!(
        with_base_dir("{repo}").base_dir("/", &None),
        Err(ConfigError::NoRepoName)
    ));
    assert_eq!(err("../wt", None), None);
}

#[test]
fn an_unsupported_version_names_itself() {
    let mut cfg = Config::default();
    cfg.version = Some("7".to_string());
    let message = cfg.check_version().unwrap_err().message();
    assert_eq!(
        message,
        "unsupported config version `7` (this build understands 1, 1.0)"
    );
}

#[test]
fn path_in_names_the_repository_file() {
    assert_eq!(Config::path_in("/repo"), "/repo/.gwt.toml");
    assert_eq!(Config::path_in("/repo/"), "/repo/.gwt.toml");
}

#[test]
fn copy_and_symlink_summaries_name_both_ends() {
    assert_eq!(copy(".env").summary(), "copy .env -> .env");
    let link = Hook::Symlink {
        from: "node_modules".into(),
        to: Some("deps".into()),
    };
    assert_eq!(link.summary(), "symlink node_modules -> deps");
    assert_eq!(link.kind(), "symlink");
    assert_eq!(copy("x").kind(), "copy");
    assert_eq!(command("x").kind(), "command");
    assert_eq!(command("\n \n").summary(), "");
}

#[test]
fn merge_keeps_the_repository_version_over_the_users() {
    let mut user = Config::default();
    user.version = Some("1".into());
    let repo = Config::default();
    let merged = Config::merge(user, repo);
    assert_eq!(merged.version.as_deref(), Some("1"));
    let hooks: Hooks = merged.hooks;
    assert!(hooks.post_remove.is_empty());
}
