//! `gwt clean` — look over the worktrees that have outlived their branch and
//! remove the ones you pick.
//!
//! The judgement it makes rests on one fact: removing a worktree does not
//! remove commits. The branch keeps them, so the only thing a removal can
//! destroy is work that was never committed. Everything else the list reports
//! is about whether the work is *finished*, which is a different question and
//! the reason nothing but `done` is selected for you.
use vstd::prelude::*;

use crate::commands::remove::{blocker_spec, removal_blocker, RemoveOptions};
use crate::git::{
    is_merged, track_views, tracking_of, tracking_of_spec, wt_views, Tracking, Worktree,
    WorktreeView,
};
use crate::paths::{same_path_spec, starts_with_spec};
use crate::repo::{display_name_spec, Repo};
use crate::tui::{wrap_down, wrap_up, Key, KeyCode, Picker};
use crate::text::{decimal, decimal_string, max_len, max_width, pad, push_padded, push_str, views};

verus! {

/// What a worktree's state means for removing it.
#[derive(PartialEq, Eq, Structural, Clone, Copy, Debug)]
pub enum State {
    /// Merged into the main worktree's HEAD, with nothing uncommitted.
    Done,
    /// Not merged, but every commit is on the upstream.
    Pushed,
    /// Commits that exist nowhere else, or no upstream at all.
    Local,
    /// Uncommitted changes, which a removal would destroy.
    Dirty,
}

impl State {
    pub open spec fn label_spec(self) -> Seq<char> {
        match self {
            State::Done => "done"@,
            State::Pushed => "pushed"@,
            State::Local => "local"@,
            State::Dirty => "dirty"@,
        }
    }

    pub fn label(self) -> (r: &'static str)
        ensures
            r@ == self.label_spec(),
    {
        match self {
            State::Done => "done",
            State::Pushed => "pushed",
            State::Local => "local",
            State::Dirty => "dirty",
        }
    }

    /// Whether the row starts out ticked.
    ///
    /// Only `done`. The others are removable — `pushed` and `local` lose
    /// nothing, since the commits outlive the worktree — but they are live
    /// work, and a list that pre-selects live work gets used once.
    pub fn preselected(self) -> (r: bool)
        ensures
            r == (self == State::Done),
    {
        self == State::Done
    }
}

/// A worktree offered for removal, with the reason for its state.
pub struct Candidate {
    pub worktree: Worktree,
    pub name: String,
    pub state: State,
    pub note: String,
}

/// A candidate as values.
pub ghost struct CandidateView {
    pub worktree: WorktreeView,
    pub name: Seq<char>,
    pub state: State,
    pub note: Seq<char>,
}

impl View for Candidate {
    type V = CandidateView;

    open spec fn view(&self) -> CandidateView {
        CandidateView {
            worktree: self.worktree@,
            name: self.name@,
            state: self.state,
            note: self.note@,
        }
    }
}

pub open spec fn cand_views(v: Seq<Candidate>) -> Seq<CandidateView> {
    v.map_values(|c: Candidate| c@)
}

/// The state a worktree is in, and the sentence that explains it:
/// uncommitted changes outrank everything, then being merged (by ancestry,
/// or by content as a squash or rebase merge leaves it), then where the
/// branch stands against its upstream.
pub open spec fn classify_spec(dirty: bool, merged: bool, squashed: bool, track: Tracking) -> (
    State,
    Seq<char>,
) {
    if dirty {
        (State::Dirty, "uncommitted changes would be lost"@)
    } else if merged {
        (State::Done, "merged into HEAD, nothing uncommitted"@)
    } else if squashed {
        (State::Done, "squash or rebase merged into HEAD, nothing uncommitted"@)
    } else {
        match track {
            Tracking::Pushed => (State::Pushed, "not merged; every commit is on its upstream"@),
            Tracking::Ahead(n) => (State::Local, decimal(n as nat) + " commit(s) not on its upstream"@),
            Tracking::Gone => (State::Local, "its upstream is gone from the remote"@),
            Tracking::Untracked => (State::Local, "never pushed; it has no upstream"@),
        }
    }
}

pub fn classify(dirty: bool, merged: bool, squashed: bool, track: &Tracking) -> (r: (
    State,
    String,
))
    ensures
        (r.0, r.1@) == classify_spec(dirty, merged, squashed, *track),
        r.0.preselected_spec() == (!dirty && (merged || squashed)),
{
    if dirty {
        return (State::Dirty, String::from_str("uncommitted changes would be lost"));
    }
    if merged {
        return (State::Done, String::from_str("merged into HEAD, nothing uncommitted"));
    }
    if squashed {
        return (
            State::Done,
            String::from_str("squash or rebase merged into HEAD, nothing uncommitted"),
        );
    }
    match track {
        Tracking::Pushed => (
            State::Pushed,
            String::from_str("not merged; every commit is on its upstream"),
        ),
        Tracking::Ahead(n) => {
            let mut note = decimal_string(*n);
            push_str(&mut note, " commit(s) not on its upstream");
            (State::Local, note)
        },
        Tracking::Gone => (State::Local, String::from_str("its upstream is gone from the remote")),
        Tracking::Untracked => (State::Local, String::from_str("never pushed; it has no upstream")),
    }
}

/// What removing a worktree would cost decides its state: uncommitted
/// changes make it `dirty` whatever else holds; otherwise work that is in
/// `HEAD` (by ancestry or by content) is `done`; otherwise a branch with
/// every commit on its upstream is `pushed`, and anything else is `local`,
/// with the commits at stake counted when git gave a count.
pub proof fn lemma_the_state_is_what_a_removal_costs(
    dirty: bool,
    merged: bool,
    squashed: bool,
    track: Tracking,
)
    ensures
        ({
            let (state, note) = classify_spec(dirty, merged, squashed, track);
            &&& (state == State::Dirty) == dirty
            &&& (state == State::Done) == (!dirty && (merged || squashed))
            &&& (state == State::Pushed) == (!dirty && !merged && !squashed && track
                == Tracking::Pushed)
            &&& (state == State::Local) == (!dirty && !merged && !squashed && track
                != Tracking::Pushed)
            &&& (!dirty && !merged && !squashed && track is Ahead) ==> note == decimal(
                track->Ahead_0 as nat,
            ) + " commit(s) not on its upstream"@
        }),
{
}

impl State {
    pub open spec fn preselected_spec(self) -> bool {
        self == State::Done
    }
}

/// Whether a worktree may be offered at all: never the main worktree, nor
/// the one gwt runs in.
pub fn is_candidate(repo: &Repo, worktree: &Worktree) -> (r: bool)
    ensures
        r == (blocker_spec(*repo, worktree.path@, true, false) is None),
{
    removal_blocker(repo, worktree, true, false).is_none()
}

/// The candidate made of worktree `i`, if it is one.
pub open spec fn candidate_at(
    repo: Repo,
    ws: Seq<WorktreeView>,
    i: int,
    merged: Seq<Seq<char>>,
    rows: Seq<(Seq<char>, Tracking)>,
    dirty: Seq<bool>,
    squashed: Seq<bool>,
) -> Option<CandidateView> {
    let w = ws[i];
    if blocker_spec(repo, w.path, true, false) is Some {
        None
    } else {
        let is_m = w.branch is Some && merged.contains(w.branch->0);
        let track = if w.branch is Some {
            tracking_of_spec(rows, w.branch->0)
        } else {
            Tracking::Untracked
        };
        let sn = classify_spec(dirty[i], is_m, squashed[i], track);
        Some(
            CandidateView {
                worktree: w,
                name: display_name_spec(w, ws[0]),
                state: sn.0,
                note: sn.1,
            },
        )
    }
}

/// The candidates among worktrees `1..k`, in order.
pub open spec fn candidates_upto(
    repo: Repo,
    ws: Seq<WorktreeView>,
    k: int,
    merged: Seq<Seq<char>>,
    rows: Seq<(Seq<char>, Tracking)>,
    dirty: Seq<bool>,
    squashed: Seq<bool>,
) -> Seq<CandidateView>
    decreases k,
{
    if k <= 1 {
        seq![]
    } else {
        let prev = candidates_upto(repo, ws, k - 1, merged, rows, dirty, squashed);
        match candidate_at(repo, ws, k - 1, merged, rows, dirty, squashed) {
            Some(c) => prev.push(c),
            None => prev,
        }
    }
}

/// Every worktree that could be removed — all but the main worktree and the
/// one gwt runs in — with its state worked out.
///
/// `merged` are the branches merged into the main worktree's HEAD,
/// `squashed[i]` whether worktree `i`'s branch is in it by content (see
/// `git::squash_merged`; read only for candidates), `tracking`
/// how each branch stands against its upstream, and `dirty[i]` whether
/// worktree `i` has uncommitted changes (read only for candidates).
pub fn candidates(
    repo: &Repo,
    worktrees: &Vec<Worktree>,
    merged: &Vec<String>,
    tracking: &Vec<(String, Tracking)>,
    dirty: &Vec<bool>,
    squashed: &Vec<bool>,
) -> (r: Vec<Candidate>)
    requires
        dirty.len() == worktrees.len(),
        squashed.len() == worktrees.len(),
    ensures
        cand_views(r@) == candidates_upto(
            *repo,
            wt_views(worktrees@),
            worktrees.len() as int,
            views(merged@),
            track_views(tracking@),
            dirty@,
            squashed@,
        ),
{
    let ghost ws = wt_views(worktrees@);
    let mut out: Vec<Candidate> = Vec::new();
    if worktrees.len() == 0 {
        return out;
    }
    let mut i: usize = 1;
    while i < worktrees.len()
        invariant
            1 <= i <= worktrees.len(),
            dirty.len() == worktrees.len(),
            squashed.len() == worktrees.len(),
            ws == wt_views(worktrees@),
            cand_views(out@) == candidates_upto(
                *repo,
                ws,
                i as int,
                views(merged@),
                track_views(tracking@),
                dirty@,
                squashed@,
            ),
        decreases worktrees.len() - i,
    {
        let wt = &worktrees[i];
        assert(ws[i as int] == wt@);
        assert(ws[0] == worktrees@[0]@);
        if is_candidate(repo, wt) {
            let (is_m, track) = match &wt.branch {
                Some(b) => (is_merged(merged, b.as_str()), tracking_of(tracking, b.as_str())),
                None => (false, Tracking::Untracked),
            };
            let (state, note) = classify(dirty[i], is_m, squashed[i], &track);
            let name = repo.display_name(wt, &worktrees[0]);
            let ghost before = cand_views(out@);
            out.push(Candidate { worktree: wt.duplicate(), name, state, note });
            assert(cand_views(out@) =~= before.push(out@[out@.len() - 1]@));
        }
        i = i + 1;
    }
    out
}

/// The main worktree and the one gwt runs in never appear among the
/// candidates, the same way `gwt remove` refuses them; every candidate is
/// one of the worktrees, and a candidate starts out ticked only when its
/// work is merged and nothing is uncommitted.
pub proof fn lemma_candidates_are_removable(
    repo: Repo,
    ws: Seq<WorktreeView>,
    k: int,
    merged: Seq<Seq<char>>,
    rows: Seq<(Seq<char>, Tracking)>,
    dirty: Seq<bool>,
    squashed: Seq<bool>,
)
    requires
        k <= ws.len(),
        dirty.len() == ws.len(),
        squashed.len() == ws.len(),
    ensures
        forall|j: int|
            0 <= j < candidates_upto(repo, ws, k, merged, rows, dirty, squashed).len() ==> {
                let c = #[trigger] candidates_upto(repo, ws, k, merged, rows, dirty, squashed)[j];
                &&& !same_path_spec(c.worktree.path, repo.main@)
                &&& !starts_with_spec(repo.cwd@, c.worktree.path)
                &&& exists|i: int| 1 <= i < k && ws[i] == c.worktree && (c.state.preselected_spec()
                    <==> (!dirty[i] && ((c.worktree.branch is Some && merged.contains(
                    c.worktree.branch->0,
                )) || squashed[i])))
            },
    decreases k,
{
    if k > 1 {
        lemma_candidates_are_removable(repo, ws, k - 1, merged, rows, dirty, squashed);
        let prev = candidates_upto(repo, ws, k - 1, merged, rows, dirty, squashed);
        let all = candidates_upto(repo, ws, k, merged, rows, dirty, squashed);
        assert forall|j: int| 0 <= j < all.len() implies {
            let c = #[trigger] all[j];
            &&& !same_path_spec(c.worktree.path, repo.main@)
            &&& !starts_with_spec(repo.cwd@, c.worktree.path)
            &&& exists|i: int| 1 <= i < k && ws[i] == c.worktree && (c.state.preselected_spec() <==> (
                !dirty[i] && ((c.worktree.branch is Some && merged.contains(c.worktree.branch->0))
                || squashed[i])))
        } by {
            if j < prev.len() {
                assert(all[j] == prev[j]);
            } else {
                let i = k - 1;
                assert(all[j] == candidate_at(repo, ws, i, merged, rows, dirty, squashed)->0);
            }
        }
    }
}

/// A clean candidate whose branch is in `HEAD` neither by ancestry nor by
/// content is judged by where its branch stands against its upstream, as
/// `git for-each-ref` reported it for that branch: `pushed` exactly when every
/// commit is on the upstream, `local` otherwise, and `local` for a worktree
/// with no branch at all.
pub proof fn lemma_unmerged_candidates_follow_their_upstream(
    repo: Repo,
    ws: Seq<WorktreeView>,
    k: int,
    merged: Seq<Seq<char>>,
    rows: Seq<(Seq<char>, Tracking)>,
    dirty: Seq<bool>,
    squashed: Seq<bool>,
)
    requires
        k <= ws.len(),
        dirty.len() == ws.len(),
        squashed.len() == ws.len(),
    ensures
        forall|j: int|
            0 <= j < candidates_upto(repo, ws, k, merged, rows, dirty, squashed).len() ==> {
                let c = #[trigger] candidates_upto(repo, ws, k, merged, rows, dirty, squashed)[j];
                exists|i: int|
                    1 <= i < k && ws[i] == c.worktree && (!dirty[i] && !squashed[i] && !(
                    c.worktree.branch is Some && merged.contains(c.worktree.branch->0)) ==> ({
                        let pushed = c.worktree.branch is Some && tracking_of_spec(
                            rows,
                            c.worktree.branch->0,
                        ) == Tracking::Pushed;
                        &&& (c.state == State::Pushed) == pushed
                        &&& (c.state == State::Local) == !pushed
                        &&& pushed ==> c.note == "not merged; every commit is on its upstream"@
                    }))
            },
    decreases k,
{
    if k > 1 {
        lemma_unmerged_candidates_follow_their_upstream(
            repo,
            ws,
            k - 1,
            merged,
            rows,
            dirty,
            squashed,
        );
        let prev = candidates_upto(repo, ws, k - 1, merged, rows, dirty, squashed);
        let all = candidates_upto(repo, ws, k, merged, rows, dirty, squashed);
        assert forall|j: int| 0 <= j < all.len() implies {
            let c = #[trigger] all[j];
            exists|i: int|
                1 <= i < k && ws[i] == c.worktree && (!dirty[i] && !squashed[i] && !(
                c.worktree.branch is Some && merged.contains(c.worktree.branch->0)) ==> ({
                    let pushed = c.worktree.branch is Some && tracking_of_spec(
                        rows,
                        c.worktree.branch->0,
                    ) == Tracking::Pushed;
                    &&& (c.state == State::Pushed) == pushed
                    &&& (c.state == State::Local) == !pushed
                    &&& pushed ==> c.note == "not merged; every commit is on its upstream"@
                }))
        } by {
            if j < prev.len() {
                assert(all[j] == prev[j]);
            } else {
                let i = k - 1;
                assert(all[j] == candidate_at(repo, ws, i, merged, rows, dirty, squashed)->0);
                assert(ws[i] == all[j].worktree);
            }
        }
    }
}

/// One row of the table printed when there is no terminal to choose in:
/// the name padded to `width`, the state padded to six, and the note.
pub open spec fn table_row_spec(c: CandidateView, width: nat) -> Seq<char> {
    pad(c.name, width) + "  "@ + pad(c.state.label_spec(), 6) + "  "@ + c.note
}

/// The same rows as the picker, for a terminal that cannot draw one, names
/// aligned on the longest.
pub fn table_lines(candidates: &Vec<Candidate>) -> (r: Vec<String>)
    ensures
        r@.len() == candidates@.len(),
        forall|i: int|
            0 <= i < r@.len() ==> #[trigger] r@[i]@ == table_row_spec(
                candidates@[i]@,
                max_len(cand_views(candidates@).map_values(|c: CandidateView| c.name)),
            ),
{
    let mut names: Vec<String> = Vec::new();
    let mut k: usize = 0;
    while k < candidates.len()
        invariant
            k <= candidates.len(),
            views(names@) == cand_views(candidates@).take(k as int).map_values(
                |c: CandidateView| c.name,
            ),
        decreases candidates.len() - k,
    {
        let ghost before = views(names@);
        names.push(candidates[k].name.clone());
        assert(views(names@) =~= before.push(candidates@[k as int].name@));
        assert(cand_views(candidates@).take(k + 1).map_values(|c: CandidateView| c.name)
            =~= cand_views(candidates@).take(k as int).map_values(|c: CandidateView| c.name).push(
            candidates@[k as int].name@,
        ));
        k = k + 1;
    }
    assert(cand_views(candidates@).take(candidates.len() as int) == cand_views(candidates@));
    let width = max_width(&names);
    let mut out: Vec<String> = Vec::new();
    let mut i: usize = 0;
    while i < candidates.len()
        invariant
            i <= candidates.len(),
            width as nat == max_len(cand_views(candidates@).map_values(|c: CandidateView| c.name)),
            out@.len() == i,
            forall|j: int|
                0 <= j < i ==> #[trigger] out@[j]@ == table_row_spec(candidates@[j]@, width as nat),
        decreases candidates.len() - i,
    {
        let c = &candidates[i];
        let mut line = String::new();
        push_padded(&mut line, c.name.as_str(), width);
        push_str(&mut line, "  ");
        push_padded(&mut line, c.state.label(), 6);
        push_str(&mut line, "  ");
        push_str(&mut line, c.note.as_str());
        out.push(line);
        i = i + 1;
    }
    out
}

/// What one removal from the list may do: `None` when the row is skipped, a
/// `dirty` one without `--force`; otherwise the flags of the run.
pub fn removal_for(state: State, force: bool, with_branch: bool, no_hooks: bool) -> (r: Option<
    RemoveOptions,
>)
    ensures
        r is None <==> (state == State::Dirty && !force),
        r matches Some(o) ==> o.force == force && o.with_branch == with_branch && !o.quiet
            && o.no_hooks == no_hooks,
{
    if state == State::Dirty && !force {
        return None;
    }
    Some(RemoveOptions { force, with_branch, quiet: false, no_hooks })
}

/// The indices of the ticked rows among the first `k`, in order.
pub open spec fn ticked_upto(ticked: Seq<bool>, k: int) -> Seq<usize>
    decreases k,
{
    if k <= 0 {
        seq![]
    } else if ticked[k - 1] {
        ticked_upto(ticked, k - 1).push((k - 1) as usize)
    } else {
        ticked_upto(ticked, k - 1)
    }
}

/// The list `gwt clean` chooses from: a tick per candidate, and a cursor.
pub struct Checklist {
    pub ticked: Vec<bool>,
    pub cursor: usize,
}

/// What a key does in the list.
#[derive(PartialEq, Eq, Structural, Clone, Copy, Debug)]
pub enum ChecklistAction {
    Up,
    Down,
    Toggle,
    /// Remove what is ticked.
    Confirm,
    /// Leave without removing anything.
    Cancel,
    Nothing,
}

pub open spec fn checklist_action_spec(key: Key) -> ChecklistAction {
    match key.code {
        KeyCode::Enter => ChecklistAction::Confirm,
        KeyCode::Esc => ChecklistAction::Cancel,
        KeyCode::Up => ChecklistAction::Up,
        KeyCode::Down => ChecklistAction::Down,
        KeyCode::Char(c) => if key.ctrl {
            if c == 'c' {
                ChecklistAction::Cancel
            } else if c == 'p' {
                ChecklistAction::Up
            } else if c == 'n' {
                ChecklistAction::Down
            } else {
                ChecklistAction::Nothing
            }
        } else if c == ' ' {
            ChecklistAction::Toggle
        } else {
            ChecklistAction::Nothing
        },
        _ => ChecklistAction::Nothing,
    }
}

/// Maps a key to what it does in the list: arrows (or Ctrl-p / Ctrl-n)
/// move, Space ticks, Enter removes, Esc or Ctrl-c leaves.
pub fn checklist_action(key: &Key) -> (r: ChecklistAction)
    ensures
        r == checklist_action_spec(*key),
{
    match key.code {
        KeyCode::Enter => ChecklistAction::Confirm,
        KeyCode::Esc => ChecklistAction::Cancel,
        KeyCode::Up => ChecklistAction::Up,
        KeyCode::Down => ChecklistAction::Down,
        KeyCode::Char(c) => {
            if key.ctrl {
                if c == 'c' {
                    ChecklistAction::Cancel
                } else if c == 'p' {
                    ChecklistAction::Up
                } else if c == 'n' {
                    ChecklistAction::Down
                } else {
                    ChecklistAction::Nothing
                }
            } else if c == ' ' {
                ChecklistAction::Toggle
            } else {
                ChecklistAction::Nothing
            }
        },
        _ => ChecklistAction::Nothing,
    }
}

impl Checklist {
    /// The cursor on the first row, and exactly the `done` rows ticked.
    pub fn new(candidates: &Vec<Candidate>) -> (r: Self)
        ensures
            r.cursor == 0,
            r.ticked@.len() == candidates@.len(),
            forall|i: int|
                0 <= i < candidates@.len() ==> #[trigger] r.ticked@[i]
                    == candidates@[i].state.preselected_spec(),
    {
        let mut ticked: Vec<bool> = Vec::new();
        let mut i: usize = 0;
        while i < candidates.len()
            invariant
                i <= candidates.len(),
                ticked@.len() == i,
                forall|j: int|
                    0 <= j < i ==> #[trigger] ticked@[j] == candidates@[j].state.preselected_spec(),
            decreases candidates.len() - i,
        {
            ticked.push(candidates[i].state.preselected());
            i = i + 1;
        }
        Checklist { ticked, cursor: 0 }
    }

    /// Ticks or unticks the row under the cursor.
    pub fn toggle(&mut self)
        ensures
            final(self).cursor == old(self).cursor,
            old(self).cursor < old(self).ticked@.len() ==> final(self).ticked@ == old(
                self,
            ).ticked@.update(old(self).cursor as int, !old(self).ticked@[old(self).cursor as int]),
            old(self).cursor >= old(self).ticked@.len() ==> final(self).ticked@ == old(
                self,
            ).ticked@,
    {
        if self.cursor < self.ticked.len() {
            let t = self.ticked[self.cursor];
            self.ticked.set(self.cursor, !t);
        }
    }

    /// Moves the cursor down, wrapping to the top.
    pub fn move_down(&mut self)
        ensures
            final(self).ticked@ == old(self).ticked@,
            final(self).cursor == Picker::cursor_after_down(
                old(self).cursor as int,
                old(self).ticked@.len() as int,
            ),
    {
        let len = self.ticked.len();
        if len > 0 {
            self.cursor = wrap_down(self.cursor, len);
        }
    }

    /// Moves the cursor up, wrapping to the bottom.
    pub fn move_up(&mut self)
        ensures
            final(self).ticked@ == old(self).ticked@,
            final(self).cursor == Picker::cursor_after_up(
                old(self).cursor as int,
                old(self).ticked@.len() as int,
            ),
    {
        let len = self.ticked.len();
        if len > 0 {
            self.cursor = wrap_up(self.cursor, len);
        }
    }

    /// The rows to remove, in list order.
    pub fn chosen(&self) -> (r: Vec<usize>)
        ensures
            r@ == ticked_upto(self.ticked@, self.ticked@.len() as int),
    {
        let mut out: Vec<usize> = Vec::new();
        let mut i: usize = 0;
        while i < self.ticked.len()
            invariant
                i <= self.ticked.len(),
                out@ == ticked_upto(self.ticked@, i as int),
            decreases self.ticked.len() - i,
        {
            if self.ticked[i] {
                out.push(i);
            }
            i = i + 1;
        }
        out
    }
}

/// Ticking a row twice leaves the list as it was.
pub proof fn lemma_toggle_twice(ticked: Seq<bool>, cursor: int)
    requires
        0 <= cursor < ticked.len(),
    ensures
        ticked.update(cursor, !ticked[cursor]).update(
            cursor,
            !ticked.update(cursor, !ticked[cursor])[cursor],
        ) == ticked,
{
    assert(ticked.update(cursor, !ticked[cursor]).update(
        cursor,
        !ticked.update(cursor, !ticked[cursor])[cursor],
    ) =~= ticked);
}

/// A row of the list as drawn: `>` under the cursor, the tick, and the same
/// columns as the table.
pub fn checklist_row(row: &str, ticked: bool, at_cursor: bool) -> (r: String)
    ensures
        r@ == (if at_cursor {
            "> "@
        } else {
            "  "@
        }) + (if ticked {
            "[x] "@
        } else {
            "[ ] "@
        }) + row@,
{
    let mut r = if at_cursor {
        String::from_str("> ")
    } else {
        String::from_str("  ")
    };
    if ticked {
        push_str(&mut r, "[x] ");
    } else {
        push_str(&mut r, "[ ] ");
    }
    push_str(&mut r, row);
    r
}

/// The count under the list: `1 of 4 selected`.
pub fn selected_line(count: usize, total: usize) -> (r: String)
    ensures
        r@ == decimal(count as nat) + " of "@ + decimal(total as nat) + " selected"@,
{
    let mut r = decimal_string(count);
    push_str(&mut r, " of ");
    let t = decimal_string(total);
    push_str(&mut r, t.as_str());
    push_str(&mut r, " selected");
    r
}

} // verus!
