use gwt::tui::{header_line, help_line, prompt_line, Step, HELP_EMPTY, HELP_EMPTY_NARROW, HELP_NARROW};
use gwt::commands::remove::Blocker;
use gwt::config::Config;
use gwt::git::{parse_worktree_list, Worktree};
use gwt::repo::Repo;
use gwt::tui::{
    blocked_message, confirm_answer, fit, key_action, load, removed_message, row_text,
    should_pick, Action, Answer, Item, Key, KeyCode, Picker, CONFIRM_TITLE, DIRTY_WARNING, HELP,
    KEYS_WITHOUT_BRANCH, KEYS_WITH_BRANCH,
};

fn item(name: &str, path: &str) -> Item {
    Item {
        name: name.to_string(),
        path: path.to_string(),
        head: "abc1234".to_string(),
        note: String::new(),
        is_current: false,
        dirty: false,
        merged: false,
        worktree: Worktree {
            path: path.to_string(),
            head: None,
            branch: Some(name.to_string()),
            bare: false,
            detached: false,
            locked: false,
        },
    }
}

fn picker() -> Picker {
    Picker::new(vec![
        item("@", "/repo"),
        item("feature/auth", "/wt/feature/auth"),
        item("feature/billing", "/wt/feature/billing"),
        item("hotfix", "/wt/hotfix"),
    ])
}

fn key(code: KeyCode, ctrl: bool) -> Key {
    Key { code, ctrl }
}

#[test]
fn the_interface_is_ascii_only() {
    // Non-ASCII risks missing glyphs, and emoji-presentation characters
    // render double width and break the column alignment.
    assert!(HELP.is_ascii(), "{HELP}");
    for label in [CONFIRM_TITLE, DIRTY_WARNING, KEYS_WITH_BRANCH, KEYS_WITHOUT_BRANCH] {
        assert!(label.is_ascii(), "{label}");
    }
}

#[test]
fn the_help_spells_out_the_modifier_key() {
    // `^d` reads as noise to anyone who has not seen the convention.
    assert!(HELP.contains("ctrl-d"), "{HELP}");
    assert!(!HELP.contains("^d"), "{HELP}");
}

#[test]
fn rows_are_padded_so_a_highlight_covers_the_line() {
    assert_eq!(fit("abc", 6), "abc   ");
    assert_eq!(fit("abcdefgh", 4), "abcd");
    assert_eq!(fit("", 3), "   ");
}

#[test]
fn filter_matches_name_and_path_case_insensitively() {
    let mut p = picker();
    p.filter = "AUTH".to_string();
    assert_eq!(p.matches().len(), 1);
    assert_eq!(p.selected().unwrap().name, "feature/auth");

    p.filter = "feature".to_string();
    assert_eq!(p.matches().len(), 2);

    p.filter = "/wt/hot".to_string();
    assert_eq!(p.selected().unwrap().name, "hotfix");
}

#[test]
fn cursor_wraps_around() {
    let mut p = picker();
    p.move_up();
    assert_eq!(p.selected().unwrap().name, "hotfix");
    p.move_down();
    assert_eq!(p.selected().unwrap().name, "@");
}

#[test]
fn cursor_stays_inside_a_shrinking_list() {
    let mut p = picker();
    p.cursor = 3;
    for c in "feature".chars() {
        p.push_filter(c);
    }
    // Only the two `feature/*` rows remain, so the cursor cannot stay at 3.
    assert_eq!(p.matches().len(), 2);
    assert_eq!(p.cursor, 1);
    assert_eq!(p.selected().unwrap().name, "feature/billing");
}

#[test]
fn no_match_leaves_nothing_selected() {
    let mut p = picker();
    p.filter = "zzz".to_string();
    p.clamp();
    assert!(p.selected().is_none());
}

#[test]
fn backspace_restores_matches() {
    let mut p = picker();
    p.push_filter('z');
    assert!(p.selected().is_none());
    p.pop_filter();
    assert_eq!(p.matches().len(), 4);
    // Erasing an empty filter leaves it empty.
    p.pop_filter();
    assert_eq!(p.filter, "");
}

#[test]
fn scrolling_follows_the_cursor() {
    let mut p = picker();
    p.cursor = 3;
    p.scroll_into_view(2);
    assert_eq!(p.offset, 2);
    p.cursor = 0;
    p.scroll_into_view(2);
    assert_eq!(p.offset, 0);
}

#[test]
fn delete_is_bound_to_both_delete_and_ctrl_d() {
    assert!(matches!(key_action(&key(KeyCode::Delete, false)), Action::Delete));
    assert!(matches!(key_action(&key(KeyCode::Char('d'), true)), Action::Delete));
    // Backspace must stay with the filter, not delete a worktree.
    assert!(matches!(key_action(&key(KeyCode::Backspace, false)), Action::Backspace));
}

#[test]
fn plain_characters_type_into_the_filter() {
    assert!(matches!(key_action(&key(KeyCode::Char('a'), false)), Action::Insert('a')));
    // Ctrl-n/p navigate instead of typing.
    assert!(matches!(key_action(&key(KeyCode::Char('n'), true)), Action::Down));
    assert!(matches!(key_action(&key(KeyCode::Char('p'), true)), Action::Up));
    assert!(matches!(key_action(&key(KeyCode::Char('g'), true)), Action::Cancel));
    assert!(matches!(key_action(&key(KeyCode::Esc, false)), Action::Cancel));
    assert!(matches!(key_action(&key(KeyCode::Enter, false)), Action::Confirm));
    assert!(matches!(key_action(&key(KeyCode::Char('x'), true)), Action::Nothing));
}

#[test]
fn the_dialog_offers_the_branch_only_when_there_is_one() {
    assert!(matches!(confirm_answer(&key(KeyCode::Char('y'), false), false), Answer::Worktree));
    assert!(matches!(confirm_answer(&key(KeyCode::Char('B'), false), true), Answer::WorktreeAndBranch));
    assert!(matches!(confirm_answer(&key(KeyCode::Char('b'), false), false), Answer::Ignore));
    assert!(matches!(confirm_answer(&key(KeyCode::Esc, false), true), Answer::Cancel));
    assert!(matches!(confirm_answer(&key(KeyCode::Char('c'), true), true), Answer::Cancel));
    assert!(matches!(confirm_answer(&key(KeyCode::Char('c'), false), true), Answer::Ignore));
}

#[test]
fn the_picker_opens_only_with_a_terminal_and_a_choice() {
    assert!(should_pick(true, 2));
    assert!(!should_pick(true, 1));
    assert!(!should_pick(false, 5));
}

#[test]
fn rows_are_loaded_from_the_worktrees() {
    let repo = Repo {
        cwd: "/wt/hotfix/src".to_string(),
        main: "/repo".to_string(),
        home: None,
        config: Config::default(),
    };
    let ws = parse_worktree_list(
        "worktree /repo\nHEAD 1234567890\nbranch refs/heads/main\n\nworktree /wt/hotfix\nHEAD 0987654321\nbranch refs/heads/hotfix\nlocked\n",
    );
    let items = load(&repo, &ws, &vec![false, true], &vec!["main".to_string(), "hotfix".to_string()]);
    assert_eq!(items[0].name, "@");
    assert!(!items[0].is_current);
    assert!(items[1].is_current);
    assert_eq!(items[1].note, " (locked)");
    assert_eq!(items[1].head, "0987654");
    assert!(items[1].dirty && items[1].merged && !items[0].dirty && items[0].merged);
    assert_eq!(
        row_text(&items[1], 8, 48),
        "* hotfix    0987654  dirty, merged (locked)     "
    );
    assert_eq!(row_text(&items[1], 6, 10), "* hotfix  ");
    assert_eq!(row_text(&items[0], 8, 20), "  @         1234567 ");
}

#[test]
fn status_lines_name_the_worktree() {
    assert_eq!(
        blocked_message("feat", &Blocker::Inside),
        "cannot remove `feat`: you are inside this worktree"
    );
    assert_eq!(removed_message("feat", true), "removed `feat` and its branch");
    assert_eq!(removed_message("feat", false), "removed `feat`");
}

#[test]
fn moving_down_then_up_returns_to_the_same_row() {
    let mut p = picker();
    for start in 0..4 {
        p.cursor = start;
        p.move_down();
        p.move_up();
        assert_eq!(p.cursor, start);
        p.move_up();
        p.move_down();
        assert_eq!(p.cursor, start);
    }
}

#[test]
fn the_name_column_fits_the_widest_visible_name() {
    let mut p = picker();
    assert_eq!(gwt::tui::name_width(&p), "feature/billing".len());
    p.push_filter('h');
    p.push_filter('o');
    assert_eq!(gwt::tui::name_width(&p), "hotfix".len());
    p.push_filter('z');
    assert_eq!(gwt::tui::name_width(&p), 0);
}

#[test]
fn the_dialog_says_whether_the_branch_is_merged() {
    assert_eq!(gwt::tui::branch_line("feature/auth", true), "  branch `feature/auth` (merged)");
    assert_eq!(gwt::tui::branch_line("wip", false), "  branch `wip` (NOT merged)");
    assert_eq!(
        gwt::tui::failed_message("wip", "git failed: locked"),
        "failed to remove `wip`: git failed: locked"
    );
}

#[test]
fn the_window_shows_the_rows_from_the_offset() {
    let mut p = picker();
    p.cursor = 3;
    p.scroll_into_view(2);
    assert_eq!(p.window(2), [(2, false), (3, true)]);
    assert_eq!(p.window(10), [(2, false), (3, true)]);
    p.offset = 0;
    assert_eq!(p.window(3), [(0, false), (1, false), (2, false)]);
    p.offset = 9;
    assert!(p.window(3).is_empty());
    assert_eq!(gwt::tui::list_height(24, false), 21);
    assert_eq!(gwt::tui::list_height(24, true), 20);
    assert_eq!(gwt::tui::list_height(1, true), 0);
}

#[test]
fn the_dialog_is_laid_out_line_by_line() {
    let lines = gwt::tui::dialog_lines("/wt/feature/auth", true, &Some("feature/auth".to_string()), true);
    assert_eq!(
        lines,
        [
            CONFIRM_TITLE,
            "",
            "  /wt/feature/auth",
            "",
            DIRTY_WARNING,
            "  branch `feature/auth` (merged)",
        ]
    );
    let lines = gwt::tui::dialog_lines("/wt/loose", false, &None, false);
    assert_eq!(lines, [CONFIRM_TITLE, "", "  /wt/loose", ""]);
    assert_eq!(gwt::tui::dialog_keys(true), KEYS_WITH_BRANCH);
    assert_eq!(gwt::tui::dialog_keys(false), KEYS_WITHOUT_BRANCH);
}

#[test]
fn backspace_erases_then_deletes_but_not_in_one_held_run() {
    let mut p = picker();
    p.step(&key(KeyCode::Char('h'), false));
    p.step(&key(KeyCode::Char('o'), false));
    assert_eq!(p.filter, "ho");
    assert!(matches!(p.step(&key(KeyCode::Backspace, false)), Step::Stay));
    assert!(matches!(p.step(&key(KeyCode::Backspace, false)), Step::Stay));
    assert_eq!(p.filter, "");
    // The press right after the filter emptied is swallowed ...
    assert!(matches!(p.step(&key(KeyCode::Backspace, false)), Step::Stay));
    // ... and the next one opens the removal dialog.
    assert!(matches!(p.step(&key(KeyCode::Backspace, false)), Step::Delete));
    // On a fresh empty filter the first press already does.
    let mut q = picker();
    assert!(matches!(q.step(&key(KeyCode::Backspace, false)), Step::Delete));
    assert!(matches!(q.step(&key(KeyCode::Char('d'), true)), Step::Delete));
}

#[test]
fn keys_move_choose_and_leave() {
    let mut p = picker();
    p.step(&key(KeyCode::Up, false));
    match p.step(&key(KeyCode::Enter, false)) {
        Step::Choose(path) => assert_eq!(path, "/wt/hotfix"),
        _ => panic!("enter chooses the row under the cursor"),
    }
    p.step(&key(KeyCode::Char('n'), true));
    assert_eq!(p.cursor, 0);
    assert!(matches!(p.step(&key(KeyCode::Esc, false)), Step::Cancel));
    p.step(&key(KeyCode::Char('z'), false));
    assert!(matches!(p.step(&key(KeyCode::Enter, false)), Step::Stay));
}

#[test]
fn the_screen_shows_a_count_a_heading_and_what_backspace_does() {
    assert_eq!(prompt_line("", 4, 4, 30), "> type to filter   4 worktrees");
    assert_eq!(prompt_line("auth", 1, 4, 20), "> auth        1 of 4");
    assert_eq!(prompt_line("zzz", 0, 4, 20), "> zzz         0 of 4");
    assert_eq!(prompt_line("auth", 1, 4, 8), "> auth  ");
    assert_eq!(header_line(12), "  WORKTREE      HEAD     STATUS");
    assert_eq!(help_line(true, 200), HELP_EMPTY);
    assert_eq!(help_line(false, 200), HELP);
    assert_eq!(help_line(true, 50), HELP_EMPTY_NARROW);
    assert_eq!(help_line(false, 50), HELP_NARROW);
    for line in [HELP, HELP_EMPTY, HELP_NARROW, HELP_EMPTY_NARROW] {
        assert!(line.is_ascii() && line.contains("ctrl-d"), "{line}");
    }
    assert!(HELP.contains("backspace erase") && HELP_EMPTY.contains("backspace delete"));
    let mut p = picker();
    assert_eq!(gwt::tui::name_column(&p), "feature/billing".len());
    p.push_filter('h');
    p.push_filter('o');
    assert_eq!(gwt::tui::name_column(&p), 8);
}
