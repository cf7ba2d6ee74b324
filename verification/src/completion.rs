//! Candidates for dynamic shell completion, as `(value, help)` pairs.
//!
//! These run in a separate process that the shell spawns on every `<TAB>`, so
//! they must be quick and must never fail: outside a repository, or when git
//! misbehaves, the caller offers nothing.
use vstd::prelude::*;

use crate::git::{pair_views, wt_views, Worktree, WorktreeView};
use crate::repo::{display_name_spec, Repo, MAIN_ALIAS};
use crate::text::{push_str, views};

verus! {

/// The help shown beside a worktree: its path, announced as the main
/// worktree for `@`.
pub open spec fn worktree_hint(name: Seq<char>, path: Seq<char>) -> Seq<char> {
    if name == MAIN_ALIAS@ {
        "main worktree \u{2014} "@ + path
    } else {
        path
    }
}

pub open spec fn worktree_candidate(w: WorktreeView, main: WorktreeView) -> (Seq<char>, Seq<char>) {
    (display_name_spec(w, main), worktree_hint(display_name_spec(w, main), w.path))
}

/// Worktrees `gwt cd` accepts, including `@` for the main worktree; with
/// `skip_main`, what `gwt remove` accepts — everything but the main one.
pub fn worktree_candidates(repo: &Repo, worktrees: &Vec<Worktree>, skip_main: bool) -> (r: Vec<
    (String, String),
>)
    ensures
        worktrees.len() == 0 ==> r@.len() == 0,
        worktrees.len() > 0 ==> pair_views(r@) == wt_views(worktrees@).skip(
            if skip_main {
                1
            } else {
                0
            },
        ).map_values(|w: WorktreeView| worktree_candidate(w, wt_views(worktrees@)[0])),
{
    let ghost ws = wt_views(worktrees@);
    let mut out: Vec<(String, String)> = Vec::new();
    if worktrees.len() == 0 {
        return out;
    }
    assert(ws[0] == worktrees@[0]@);
    let start: usize = if skip_main {
        1
    } else {
        0
    };
    let mut i = start;
    while i < worktrees.len()
        invariant
            start <= i <= worktrees.len() || (start == 1 && worktrees.len() == 1 && i == 1),
            start <= 1,
            worktrees.len() > 0,
            ws == wt_views(worktrees@),
            ws[0] == worktrees@[0]@,
            pair_views(out@) == ws.subrange(start as int, i as int).map_values(
                |w: WorktreeView| worktree_candidate(w, ws[0]),
            ),
        decreases worktrees.len() - i,
    {
        let wt = &worktrees[i];
        assert(ws[i as int] == wt@);
        let name = repo.display_name(wt, &worktrees[0]);
        let hint = if crate::text::eq(name.as_str(), MAIN_ALIAS) {
            let mut h = String::from_str("main worktree \u{2014} ");
            push_str(&mut h, wt.path.as_str());
            h
        } else {
            wt.path.clone()
        };
        let ghost before = pair_views(out@);
        out.push((name, hint));
        assert(pair_views(out@) =~= before.push(worktree_candidate(ws[i as int], ws[0])));
        assert(ws.subrange(start as int, i + 1).map_values(
            |w: WorktreeView| worktree_candidate(w, ws[0]),
        ) =~= ws.subrange(start as int, i as int).map_values(
            |w: WorktreeView| worktree_candidate(w, ws[0]),
        ).push(worktree_candidate(ws[i as int], ws[0])));
        i = i + 1;
    }
    assert(ws.subrange(start as int, worktrees.len() as int) =~= ws.skip(start as int));
    out
}

/// The branches that have a worktree.
pub open spec fn in_use(ws: Seq<WorktreeView>) -> Seq<Seq<char>>
    decreases ws.len(),
{
    if ws.len() == 0 {
        seq![]
    } else {
        match ws.last().branch {
            Some(b) => in_use(ws.drop_last()).push(b),
            None => in_use(ws.drop_last()),
        }
    }
}

/// Local branches without a worktree, as `(branch, "local branch")`.
pub open spec fn local_candidates(locals: Seq<Seq<char>>, used: Seq<Seq<char>>) -> Seq<
    (Seq<char>, Seq<char>),
>
    decreases locals.len(),
{
    if locals.len() == 0 {
        seq![]
    } else if used.contains(locals.last()) {
        local_candidates(locals.drop_last(), used)
    } else {
        local_candidates(locals.drop_last(), used).push((locals.last(), "local branch"@))
    }
}

/// Remote-only branches, under the short name `gwt add` expects, with the
/// remote-tracking name as help: skipped when a local branch or a worktree
/// already has that name.
pub open spec fn remote_candidates(
    remotes: Seq<(Seq<char>, Seq<char>)>,
    locals: Seq<Seq<char>>,
    used: Seq<Seq<char>>,
) -> Seq<(Seq<char>, Seq<char>)>
    decreases remotes.len(),
{
    if remotes.len() == 0 {
        seq![]
    } else {
        let prev = remote_candidates(remotes.drop_last(), locals, used);
        let (full, short) = remotes.last();
        if locals.contains(short) || used.contains(short) {
            prev
        } else {
            prev.push((short, full))
        }
    }
}

/// Every local branch offered is one of the local branches, and none of them
/// already has a worktree.
proof fn lemma_local_candidates_are_free(locals: Seq<Seq<char>>, used: Seq<Seq<char>>)
    ensures
        forall|j: int|
            0 <= j < local_candidates(locals, used).len() ==> {
                let b = (#[trigger] local_candidates(locals, used)[j]).0;
                locals.contains(b) && !used.contains(b)
            },
    decreases locals.len(),
{
    if locals.len() > 0 {
        lemma_local_candidates_are_free(locals.drop_last(), used);
        let prev = local_candidates(locals.drop_last(), used);
        let all = local_candidates(locals, used);
        assert forall|j: int| 0 <= j < all.len() implies {
            let b = (#[trigger] all[j]).0;
            locals.contains(b) && !used.contains(b)
        } by {
            if j < prev.len() {
                assert(all[j] == prev[j]);
                let b = prev[j].0;
                let w = choose|w: int| 0 <= w < locals.drop_last().len() && locals.drop_last()[w] == b;
                assert(locals[w] == b);
            } else {
                assert(locals[locals.len() - 1] == locals.last());
            }
        }
    }
}

/// Every remote branch offered is named as `gwt add` expects it, and neither a
/// local branch nor a worktree has that name yet.
proof fn lemma_remote_candidates_are_free(
    remotes: Seq<(Seq<char>, Seq<char>)>,
    locals: Seq<Seq<char>>,
    used: Seq<Seq<char>>,
)
    ensures
        forall|j: int|
            0 <= j < remote_candidates(remotes, locals, used).len() ==> {
                let b = (#[trigger] remote_candidates(remotes, locals, used)[j]).0;
                !locals.contains(b) && !used.contains(b)
            },
    decreases remotes.len(),
{
    if remotes.len() > 0 {
        lemma_remote_candidates_are_free(remotes.drop_last(), locals, used);
        let prev = remote_candidates(remotes.drop_last(), locals, used);
        let all = remote_candidates(remotes, locals, used);
        assert forall|j: int| 0 <= j < all.len() implies {
            let b = (#[trigger] all[j]).0;
            !locals.contains(b) && !used.contains(b)
        } by {
            if j < prev.len() {
                assert(all[j] == prev[j]);
            }
        }
    }
}

/// `gwt add` completion never offers a branch that already has a worktree,
/// which `gwt add` would refuse, and offers a remote-only branch only when no
/// local branch has its short name.
pub proof fn lemma_addable_branches_are_free(
    ws: Seq<WorktreeView>,
    locals: Seq<Seq<char>>,
    remotes: Seq<(Seq<char>, Seq<char>)>,
)
    ensures
        forall|j: int|
            0 <= j < (local_candidates(locals, in_use(ws)) + remote_candidates(
                remotes,
                locals,
                in_use(ws),
            )).len() ==> {
                let b = (#[trigger] (local_candidates(locals, in_use(ws)) + remote_candidates(
                    remotes,
                    locals,
                    in_use(ws),
                ))[j]).0;
                !in_use(ws).contains(b) && (j >= local_candidates(locals, in_use(ws)).len()
                    ==> !locals.contains(b))
            },
{
    lemma_local_candidates_are_free(locals, in_use(ws));
    lemma_remote_candidates_are_free(remotes, locals, in_use(ws));
    let l = local_candidates(locals, in_use(ws));
    let r = remote_candidates(remotes, locals, in_use(ws));
    assert forall|j: int| 0 <= j < (l + r).len() implies {
        let b = (#[trigger] (l + r)[j]).0;
        !in_use(ws).contains(b) && (j >= l.len() ==> !locals.contains(b))
    } by {
        if j < l.len() {
            assert((l + r)[j] == l[j]);
        } else {
            assert((l + r)[j] == r[j - l.len()]);
        }
    }
}

fn contains_string(v: &Vec<String>, s: &str) -> (r: bool)
    ensures
        r == views(v@).contains(s@),
{
    crate::git::is_merged(v, s)
}

/// Branches `gwt add` can turn into a worktree.
///
/// Branches that already have a worktree are left out — `gwt add` would refuse
/// them anyway. Remote-only branches are offered under their short name, which
/// is exactly what `gwt add` expects.
pub fn addable_branches(
    worktrees: &Vec<Worktree>,
    locals: &Vec<String>,
    remotes: &Vec<(String, String)>,
) -> (r: Vec<(String, String)>)
    ensures
        pair_views(r@) == local_candidates(views(locals@), in_use(wt_views(worktrees@)))
            + remote_candidates(pair_views(remotes@), views(locals@), in_use(wt_views(worktrees@))),
{
    let ghost ws = wt_views(worktrees@);
    let mut used: Vec<String> = Vec::new();
    let mut i: usize = 0;
    while i < worktrees.len()
        invariant
            i <= worktrees.len(),
            ws == wt_views(worktrees@),
            views(used@) == in_use(ws.take(i as int)),
        decreases worktrees.len() - i,
    {
        assert(ws.take(i + 1).drop_last() == ws.take(i as int));
        assert(ws.take(i + 1).last() == worktrees@[i as int]@);
        let ghost before = views(used@);
        match &worktrees[i].branch {
            Some(b) => {
                used.push(b.clone());
                assert(views(used@) =~= before.push(b@));
            },
            None => {},
        }
        i = i + 1;
    }
    assert(ws.take(worktrees.len() as int) == ws);
    let ghost u = views(used@);
    let mut out: Vec<(String, String)> = Vec::new();
    let mut j: usize = 0;
    while j < locals.len()
        invariant
            j <= locals.len(),
            u == views(used@),
            pair_views(out@) == local_candidates(views(locals@).take(j as int), u),
        decreases locals.len() - j,
    {
        assert(views(locals@).take(j + 1).drop_last() == views(locals@).take(j as int));
        assert(views(locals@).take(j + 1).last() == locals@[j as int]@);
        if !contains_string(&used, locals[j].as_str()) {
            let ghost before = pair_views(out@);
            out.push((locals[j].clone(), String::from_str("local branch")));
            assert(pair_views(out@) =~= before.push((locals@[j as int]@, "local branch"@)));
        }
        j = j + 1;
    }
    assert(views(locals@).take(locals.len() as int) == views(locals@));
    let ghost from_locals = pair_views(out@);
    let mut k: usize = 0;
    while k < remotes.len()
        invariant
            k <= remotes.len(),
            u == views(used@),
            pair_views(out@) == from_locals + remote_candidates(
                pair_views(remotes@).take(k as int),
                views(locals@),
                u,
            ),
        decreases remotes.len() - k,
    {
        assert(pair_views(remotes@).take(k + 1).drop_last() == pair_views(remotes@).take(k as int));
        assert(pair_views(remotes@).take(k + 1).last() == (remotes@[k as int].0@, remotes@[k as int].1@));
        let (full, short) = (&remotes[k].0, &remotes[k].1);
        if !contains_string(locals, short.as_str()) && !contains_string(&used, short.as_str()) {
            let ghost before = pair_views(out@);
            out.push((short.clone(), full.clone()));
            assert(pair_views(out@) =~= before.push((short@, full@)));
        }
        k = k + 1;
    }
    assert(pair_views(remotes@).take(remotes.len() as int) == pair_views(remotes@));
    out
}

} // verus!
