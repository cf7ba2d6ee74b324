use gwt::git::{squash_merged, tree_of};
use gwt::commands::clean::{
    checklist_action, checklist_row, classify, removal_for, selected_line, Candidate, Checklist,
    ChecklistAction, State,
};
use gwt::git::{Tracking, Worktree};
use gwt::tui::{Key, KeyCode};

fn candidate(name: &str, state: State) -> Candidate {
    Candidate {
        worktree: Worktree {
            path: format!("/wt/{name}"),
            head: None,
            branch: Some(name.to_string()),
            bare: false,
            detached: false,
            locked: false,
        },
        name: name.to_string(),
        state,
        note: String::new(),
    }
}

fn list() -> Vec<Candidate> {
    vec![
        candidate("feature/auth", State::Done),
        candidate("feature/billing", State::Pushed),
        candidate("hotfix/login", State::Local),
        candidate("wip/refactor", State::Dirty),
    ]
}

fn press(code: KeyCode, ctrl: bool) -> Key {
    Key { code, ctrl }
}

#[test]
fn only_done_rows_start_ticked() {
    let list = Checklist::new(&list());
    assert_eq!(list.ticked, [true, false, false, false]);
    assert_eq!(list.cursor, 0);
    assert_eq!(list.chosen(), [0]);
}

#[test]
fn ticking_twice_changes_nothing() {
    let mut list = Checklist::new(&list());
    list.move_down();
    list.toggle();
    assert_eq!(list.chosen(), [0, 1]);
    list.toggle();
    assert_eq!(list.ticked, [true, false, false, false]);
}

#[test]
fn the_cursor_wraps_in_the_clean_list() {
    let mut list = Checklist::new(&list());
    list.move_up();
    assert_eq!(list.cursor, 3);
    list.move_down();
    assert_eq!(list.cursor, 0);
    list.move_down();
    list.move_up();
    assert_eq!(list.cursor, 0);
}

#[test]
fn keys_of_the_clean_list() {
    assert_eq!(checklist_action(&press(KeyCode::Char(' '), false)), ChecklistAction::Toggle);
    assert_eq!(checklist_action(&press(KeyCode::Enter, false)), ChecklistAction::Confirm);
    assert_eq!(checklist_action(&press(KeyCode::Esc, false)), ChecklistAction::Cancel);
    assert_eq!(checklist_action(&press(KeyCode::Char('c'), true)), ChecklistAction::Cancel);
    assert_eq!(checklist_action(&press(KeyCode::Char('n'), true)), ChecklistAction::Down);
    assert_eq!(checklist_action(&press(KeyCode::Char('p'), true)), ChecklistAction::Up);
    assert_eq!(checklist_action(&press(KeyCode::Up, false)), ChecklistAction::Up);
    assert_eq!(checklist_action(&press(KeyCode::Down, false)), ChecklistAction::Down);
    assert_eq!(checklist_action(&press(KeyCode::Char('x'), false)), ChecklistAction::Nothing);
    assert_eq!(checklist_action(&press(KeyCode::Delete, false)), ChecklistAction::Nothing);
}

#[test]
fn a_dirty_row_is_skipped_unless_forced() {
    assert!(removal_for(State::Dirty, false, true, false).is_none());
    let opts = removal_for(State::Dirty, true, true, true).unwrap();
    assert!(opts.force && opts.with_branch && opts.no_hooks && !opts.quiet);
    let opts = removal_for(State::Local, false, false, false).unwrap();
    assert!(!opts.force && !opts.with_branch && !opts.no_hooks && !opts.quiet);
    // A ticked row's state comes from the same classification the list shows.
    let (state, _) = classify(true, true, false, &Tracking::Pushed);
    assert!(removal_for(state, false, false, false).is_none());
}

#[test]
fn rows_of_the_clean_list_show_cursor_and_tick() {
    assert_eq!(checklist_row("feature/auth  done", true, true), "> [x] feature/auth  done");
    assert_eq!(checklist_row("hotfix  local", false, false), "  [ ] hotfix  local");
    assert_eq!(selected_line(1, 4), "1 of 4 selected");
    assert_eq!(selected_line(0, 12), "0 of 12 selected");
}

#[test]
fn a_squash_merge_counts_as_merged() {
    let (state, note) = classify(false, false, true, &Tracking::Gone);
    assert_eq!(state, State::Done);
    assert_eq!(note, "squash or rebase merged into HEAD, nothing uncommitted");
    assert!(state.preselected());
    // Uncommitted changes still outrank it, and the ancestry test wins the note.
    assert_eq!(classify(true, false, true, &Tracking::Gone).0, State::Dirty);
    assert_eq!(classify(false, true, true, &Tracking::Gone).1, "merged into HEAD, nothing uncommitted");
}

#[test]
fn the_content_test_reads_what_git_printed() {
    let head = "4b825dc";
    // The merge gives HEAD's own tree, and the branch changed something.
    assert!(squash_merged(&Some("4b825dc\n".to_string()), head, "aaaa111", "bbbb222"));
    // A conflict, or a git without `merge-tree --write-tree`.
    assert!(!squash_merged(&None, head, "aaaa111", "bbbb222"));
    // Merged and then reverted: the merge changes HEAD.
    assert!(!squash_merged(&Some("9999999".to_string()), head, "aaaa111", "bbbb222"));
    // A branch that changed nothing proves nothing.
    assert!(!squash_merged(&Some("4b825dc".to_string()), head, "bbbb222", "bbbb222"));
    assert_eq!(tree_of("HEAD"), "HEAD^{tree}");
}
