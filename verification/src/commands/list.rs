//! `gwt list` — show every worktree of the repository.
//!
//! In a terminal this is the interactive picker; `--plain` and `--paths` are
//! the ways to ask for text a script can read.
use vstd::prelude::*;

use crate::git::{wt_views, Worktree, WorktreeView};
use crate::paths::{comps, is_abs, same_path, same_path_spec, starts_with, starts_with_spec};
use crate::repo::{display_name_spec, Repo};
use crate::text::{join, join_with, max_len, max_width, pad, push_char, push_padded, push_str,
    views};

verus! {

/// The words that describe an unusual worktree, in this order.
pub open spec fn note_words(w: WorktreeView) -> Seq<Seq<char>> {
    (if w.bare {
        seq!["bare"@]
    } else {
        seq![]
    }) + (if w.detached {
        seq!["detached"@]
    } else {
        seq![]
    }) + (if w.locked {
        seq!["locked"@]
    } else {
        seq![]
    })
}

/// ` (detached, locked)` and the like, or nothing for an ordinary worktree.
pub open spec fn note_spec(w: WorktreeView) -> Seq<char> {
    if note_words(w).len() == 0 {
        seq![]
    } else {
        " ("@ + join(note_words(w), ", "@) + ")"@
    }
}

pub fn note(wt: &Worktree) -> (r: String)
    ensures
        r@ == note_spec(wt@),
{
    let mut notes: Vec<String> = Vec::new();
    if wt.bare {
        notes.push(String::from_str("bare"));
    }
    let ghost n0 = views(notes@);
    assert(n0 =~= (if wt.bare {
        seq!["bare"@]
    } else {
        seq![]
    }));
    if wt.detached {
        notes.push(String::from_str("detached"));
    }
    let ghost n1 = views(notes@);
    assert(n1 =~= n0 + (if wt.detached {
        seq!["detached"@]
    } else {
        seq![]
    }));
    if wt.locked {
        notes.push(String::from_str("locked"));
    }
    assert(views(notes@) =~= n1 + (if wt.locked {
        seq!["locked"@]
    } else {
        seq![]
    }));
    if notes.len() == 0 {
        return String::new();
    }
    let mut r = String::from_str(" (");
    let joined = join_with(&notes, ", ");
    push_str(&mut r, joined.as_str());
    push_str(&mut r, ")");
    r
}

/// Whether gwt runs in `w`: at it or anywhere below it.
pub open spec fn is_current_spec(cwd: Seq<char>, w: WorktreeView) -> bool {
    same_path_spec(w.path, cwd) || starts_with_spec(cwd, w.path)
}

pub fn is_current(cwd: &str, wt: &Worktree) -> (r: bool)
    ensures
        r == is_current_spec(cwd@, wt@),
{
    same_path(wt.path.as_str(), cwd) || starts_with(cwd, wt.path.as_str())
}

/// One line of the table: `*` for the worktree gwt runs in, the label padded
/// to `width`, the abbreviated commit, the path and the note.
pub open spec fn list_row_spec(cwd: Seq<char>, w: WorktreeView, main: WorktreeView, width: nat) -> Seq<
    char,
> {
    seq![if is_current_spec(cwd, w) { '*' } else { ' ' }] + " "@ + pad(
        display_name_spec(w, main),
        width,
    ) + "  "@ + Worktree::short_head_spec(w) + "  "@ + w.path + note_spec(w)
}

/// The `*` marks where gwt runs: a row is marked exactly when the current
/// directory is the worktree's path or lies anywhere below it, that is, when
/// its components start with the worktree's, on the same side of the root.
/// A worktree below the current directory is not marked for it.
pub proof fn lemma_marked_where_you_stand(
    cwd: Seq<char>,
    w: WorktreeView,
    main: WorktreeView,
    width: nat,
)
    ensures
        is_current_spec(cwd, w) <==> (is_abs(cwd) == is_abs(w.path) && exists|rest: Seq<Seq<char>>|
            comps(cwd) == comps(w.path) + rest),
        (list_row_spec(cwd, w, main, width)[0] == '*') <==> is_current_spec(cwd, w),
{
    let cc = comps(cwd);
    let wc = comps(w.path);
    if is_current_spec(cwd, w) {
        if same_path_spec(w.path, cwd) {
            assert(cc == wc + Seq::<Seq<char>>::empty());
        } else {
            assert(cc == wc + cc.skip(wc.len() as int));
        }
    }
    if is_abs(cwd) == is_abs(w.path) && exists|rest: Seq<Seq<char>>| cc == wc + rest {
        let rest = choose|rest: Seq<Seq<char>>| cc == wc + rest;
        assert(cc.take(wc.len() as int) == wc);
        assert(starts_with_spec(cwd, w.path));
    }
    let row = list_row_spec(cwd, w, main, width);
    assert(row[0] == (if is_current_spec(cwd, w) { '*' } else { ' ' }));
}

/// The table `gwt list` prints: one line per worktree, labels aligned on the
/// longest.
pub fn list_lines(repo: &Repo, worktrees: &Vec<Worktree>) -> (r: Vec<String>)
    requires
        worktrees.len() > 0,
    ensures
        r@.len() == worktrees@.len(),
        forall|i: int|
            0 <= i < r@.len() ==> #[trigger] r@[i]@ == list_row_spec(
                repo.cwd@,
                wt_views(worktrees@)[i],
                wt_views(worktrees@)[0],
                max_len(
                    wt_views(worktrees@).map_values(
                        |w: WorktreeView| display_name_spec(w, wt_views(worktrees@)[0]),
                    ),
                ),
            ),
{
    let ghost ws = wt_views(worktrees@);
    let names = repo.display_names(worktrees);
    let width = max_width(&names);
    let mut out: Vec<String> = Vec::new();
    let mut i: usize = 0;
    while i < worktrees.len()
        invariant
            i <= worktrees.len(),
            worktrees.len() > 0,
            ws == wt_views(worktrees@),
            names@.len() == worktrees@.len(),
            views(names@) == ws.map_values(|w: WorktreeView| display_name_spec(w, ws[0])),
            width as nat == max_len(views(names@)),
            out@.len() == i,
            forall|j: int|
                0 <= j < i ==> #[trigger] out@[j]@ == list_row_spec(
                    repo.cwd@,
                    ws[j],
                    ws[0],
                    width as nat,
                ),
        decreases worktrees.len() - i,
    {
        let wt = &worktrees[i];
        assert(ws[i as int] == wt@);
        assert(views(names@)[i as int] == names@[i as int]@);
        let mut line = String::new();
        if is_current(repo.cwd.as_str(), wt) {
            push_char(&mut line, '*');
        } else {
            push_char(&mut line, ' ');
        }
        push_str(&mut line, " ");
        push_padded(&mut line, names[i].as_str(), width);
        push_str(&mut line, "  ");
        let head = wt.short_head();
        push_str(&mut line, head.as_str());
        push_str(&mut line, "  ");
        push_str(&mut line, wt.path.as_str());
        let n = note(wt);
        push_str(&mut line, n.as_str());
        out.push(line);
        i = i + 1;
    }
    out
}

} // verus!
