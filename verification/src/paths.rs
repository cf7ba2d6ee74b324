//! Unix paths as text, with the meaning `std::path` gives them.
//!
//! Worktree paths may not exist yet when they are computed, so everything here
//! is lexical: nothing touches the filesystem.
use vstd::prelude::*;

use crate::text::{index_of, join, join_with, lemma_index_of, lemma_index_of_at, push_char, push_str,
    split, split_on, string_of, to_chars, views};

verus! {

pub open spec fn dot() -> Seq<char> {
    seq!['.']
}

pub open spec fn dotdot() -> Seq<char> {
    seq!['.', '.']
}

pub open spec fn slash() -> Seq<char> {
    seq!['/']
}

/// `Path::is_absolute` on Unix.
pub open spec fn is_abs(p: Seq<char>) -> bool {
    p.len() > 0 && p[0] == '/'
}

/// `Path::join`: an absolute `b` replaces `a`; otherwise one separator goes
/// between them unless `a` is empty or already ends in one.
pub open spec fn join_path(a: Seq<char>, b: Seq<char>) -> Seq<char> {
    if is_abs(b) {
        b
    } else if a.len() == 0 || a.last() == '/' {
        a + b
    } else {
        a + slash() + b
    }
}

/// One component of a lexical walk: `.` and empty pieces change nothing,
/// `..` takes back the last component when that is a name, and is kept
/// when there is nothing left to cancel, so that the path still names the
/// same directory.
pub open spec fn norm_step(out: Seq<Seq<char>>, x: Seq<char>) -> Seq<Seq<char>> {
    if x.len() == 0 || x == dot() {
        out
    } else if x == dotdot() {
        if out.len() > 0 && out.last() != dotdot() {
            out.drop_last()
        } else {
            out.push(dotdot())
        }
    } else {
        out.push(x)
    }
}

pub open spec fn norm_fold(pieces: Seq<Seq<char>>) -> Seq<Seq<char>>
    decreases pieces.len(),
{
    if pieces.len() == 0 {
        seq![]
    } else {
        norm_step(norm_fold(pieces.drop_last()), pieces.last())
    }
}

/// A path written out from its root flag and its components.
pub open spec fn render(root: bool, segs: Seq<Seq<char>>) -> Seq<char> {
    if root {
        slash() + join(segs, slash())
    } else {
        join(segs, slash())
    }
}

/// The path with `.` and `..` resolved lexically.
pub open spec fn normalize_spec(p: Seq<char>) -> Seq<char> {
    render(is_abs(p), norm_fold(split(p, '/')))
}

/// Whether a piece between separators is a component (`.` is not).
pub open spec fn keep(x: Seq<char>) -> bool {
    x.len() > 0 && x != dot()
}

pub open spec fn kept(pieces: Seq<Seq<char>>) -> Seq<Seq<char>>
    decreases pieces.len(),
{
    if pieces.len() == 0 {
        seq![]
    } else if keep(pieces.last()) {
        kept(pieces.drop_last()).push(pieces.last())
    } else {
        kept(pieces.drop_last())
    }
}

/// Whether a relative path begins with a `.` component (`.` or `./...`).
pub open spec fn leads_with_cur(p: Seq<char>) -> bool {
    !is_abs(p) && split(p, '/')[0] == dot()
}

/// `Path::components`, the root aside: separators repeat freely and `.` is
/// dropped except at the start of a relative path.
pub open spec fn comps(p: Seq<char>) -> Seq<Seq<char>> {
    if leads_with_cur(p) {
        seq![dot()] + kept(split(p, '/'))
    } else {
        kept(split(p, '/'))
    }
}

/// `Path::starts_with`: whole components, root included.
pub open spec fn starts_with_spec(p: Seq<char>, base: Seq<char>) -> bool {
    &&& is_abs(p) == is_abs(base)
    &&& comps(base).len() <= comps(p).len()
    &&& comps(p).take(comps(base).len() as int) == comps(base)
}

/// `Path::file_name`: the last component unless it is `..` (or there is none).
pub open spec fn file_name_spec(p: Seq<char>) -> Option<Seq<char>> {
    let c = comps(p);
    if c.len() > 0 && c.last() != dotdot() && c.last() != dot() {
        Some(c.last())
    } else {
        None
    }
}

pub fn is_absolute(p: &str) -> (r: bool)
    ensures
        r == is_abs(p@),
{
    let v = to_chars(p);
    v.len() > 0 && v[0] == '/'
}

fn is_dot(s: &String) -> (r: bool)
    ensures
        r == (s@ == dot()),
{
    let v = to_chars(s.as_str());
    if v.len() == 1 && v[0] == '.' {
        assert(v@ =~= dot());
        true
    } else {
        false
    }
}

fn is_dotdot(s: &String) -> (r: bool)
    ensures
        r == (s@ == dotdot()),
{
    let v = to_chars(s.as_str());
    if v.len() == 2 && v[0] == '.' && v[1] == '.' {
        assert(v@ =~= dotdot());
        true
    } else {
        false
    }
}

/// `Path::join`.
pub fn join_paths(a: &str, b: &str) -> (r: String)
    ensures
        r@ == join_path(a@, b@),
{
    if is_absolute(b) {
        return String::from_str(b);
    }
    let av = to_chars(a);
    let mut r = String::from_str(a);
    if av.len() > 0 && av[av.len() - 1] != '/' {
        push_char(&mut r, '/');
        assert(r@ == a@ + slash());
    }
    push_str(&mut r, b);
    r
}

fn render_exec(root: bool, segs: &Vec<String>) -> (r: String)
    ensures
        r@ == render(root, views(segs@)),
{
    let mut r = String::new();
    if root {
        push_char(&mut r, '/');
        assert(r@ == slash());
    }
    let body = join_with(segs, "/");
    proof {
        reveal_strlit("/");
        assert("/"@ =~= slash());
    }
    push_str(&mut r, body.as_str());
    r
}

fn norm_push(out: &mut Vec<String>, piece: &String)
    ensures
        views(final(out)@) == norm_step(views(old(out)@), piece@),
{
    let ghost before = views(out@);
    if piece.as_str().is_empty() || is_dot(piece) {
    } else if is_dotdot(piece) {
        if out.len() > 0 && !is_dotdot(&out[out.len() - 1]) {
            out.pop();
            assert(views(out@) =~= before.drop_last());
        } else {
            out.push(String::from_str(".."));
            proof {
                reveal_strlit("..");
                assert(".."@ =~= dotdot());
            }
            assert(views(out@) =~= before.push(dotdot()));
        }
    } else {
        out.push(piece.clone());
        assert(views(out@) =~= before.push(piece@));
    }
}

/// Resolves `.` and `..` lexically, without touching the filesystem.
///
/// The path may not exist yet, so `canonicalize` is not an option.
pub fn normalize(p: &str) -> (r: String)
    ensures
        r@ == normalize_spec(p@),
{
    let pieces = split_on(p, '/');
    let mut out: Vec<String> = Vec::new();
    let mut i: usize = 0;
    while i < pieces.len()
        invariant
            i <= pieces.len(),
            views(out@) == norm_fold(views(pieces@).take(i as int)),
        decreases pieces.len() - i,
    {
        assert(views(pieces@).take(i + 1).drop_last() == views(pieces@).take(i as int));
        assert(views(pieces@).take(i + 1).last() == pieces@[i as int]@);
        norm_push(&mut out, &pieces[i]);
        i = i + 1;
    }
    assert(views(pieces@).take(pieces.len() as int) == views(pieces@));
    render_exec(is_absolute(p), &out)
}

/// Components as `normalize` leaves them: no empty piece, no `.`, no
/// separator inside one, and `..` only among the leading ones, never after
/// a name.
pub open spec fn is_clean(segs: Seq<Seq<char>>) -> bool {
    forall|i: int|
        0 <= i < segs.len() ==> {
            &&& keep(#[trigger] segs[i])
            &&& forall|k: int| 0 <= k < segs[i].len() ==> segs[i][k] != '/'
            &&& segs[i] == dotdot() ==> forall|j: int| 0 <= j < i ==> segs[j] == dotdot()
        }
}

/// No piece of a split holds the separator.
proof fn lemma_split_pieces(s: Seq<char>, c: char)
    ensures
        forall|j: int, k: int|
            0 <= j < split(s, c).len() && 0 <= k < split(s, c)[j].len() ==> #[trigger] split(
                s,
                c,
            )[j][k] != c,
    decreases s.len(),
{
    lemma_index_of(s, c);
    let i = index_of(s, c);
    if i >= 0 {
        lemma_split_pieces(s.skip(i + 1), c);
        let rest = split(s.skip(i + 1), c);
        assert forall|j: int, k: int|
            0 <= j < split(s, c).len() && 0 <= k < split(s, c)[j].len() implies #[trigger] split(
                s,
                c,
            )[j][k] != c by {
            if j > 0 {
                assert(split(s, c)[j] == rest[j - 1]);
            }
        }
    }
}

/// `join` seen from the front.
proof fn lemma_join_front(a: Seq<char>, rest: Seq<Seq<char>>, sep: Seq<char>)
    requires
        rest.len() >= 1,
    ensures
        join(seq![a] + rest, sep) == a + sep + join(rest, sep),
    decreases rest.len(),
{
    let all = seq![a] + rest;
    assert(all.len() >= 2);
    assert(join(all, sep) == join(all.drop_last(), sep) + sep + all.last());
    assert(all.last() == rest.last());
    if rest.len() == 1 {
        assert(all.drop_last() == seq![a]);
        assert(join(seq![a], sep) == a);
        assert(join(rest, sep) == rest[0]);
    } else {
        lemma_join_front(a, rest.drop_last(), sep);
        assert(all.drop_last() == seq![a] + rest.drop_last());
        assert(join(rest, sep) == join(rest.drop_last(), sep) + sep + rest.last());
        assert(a + sep + join(rest.drop_last(), sep) + sep + rest.last() == a + sep + (join(
            rest.drop_last(),
            sep,
        ) + sep + rest.last()));
    }
}

/// Splitting what was joined gives the pieces back, as long as none of them
/// holds the separator.
proof fn lemma_split_join(segs: Seq<Seq<char>>, c: char)
    requires
        segs.len() >= 1,
        forall|j: int, k: int| 0 <= j < segs.len() && 0 <= k < segs[j].len() ==> #[trigger] segs[j][k] != c,
    ensures
        split(join(segs, seq![c]), c) == segs,
    decreases segs.len(),
{
    let a = segs[0];
    assert forall|k: int| 0 <= k < a.len() implies a[k] != c by {
        assert(segs[0][k] != c);
    }
    if segs.len() == 1 {
        lemma_index_of_at(a, c, a.len() as int);
    } else {
        let rest = segs.drop_first();
        assert(segs == seq![a] + rest);
        lemma_join_front(a, rest, seq![c]);
        let s = join(segs, seq![c]);
        let j = join(rest, seq![c]);
        assert(s == a + seq![c] + j);
        assert forall|i: int| 0 <= i < a.len() implies s[i] != c by {
            assert(s[i] == a[i]);
        }
        assert(s[a.len() as int] == c);
        lemma_index_of_at(s, c, a.len() as int);
        assert(s.take(a.len() as int) == a);
        assert(s.skip(a.len() as int + 1) == j);
        assert forall|jj: int, k: int|
            0 <= jj < rest.len() && 0 <= k < rest[jj].len() implies #[trigger] rest[jj][k] != c by {
            assert(rest[jj] == segs[jj + 1]);
        }
        lemma_split_join(rest, c);
    }
}

/// One step of the walk keeps clean components clean.
proof fn lemma_norm_step_clean(out: Seq<Seq<char>>, x: Seq<char>)
    requires
        is_clean(out),
        forall|k: int| 0 <= k < x.len() ==> x[k] != '/',
    ensures
        is_clean(norm_step(out, x)),
{
    let r = norm_step(out, x);
    if x.len() == 0 || x == dot() {
    } else if x == dotdot() {
        if out.len() > 0 && out.last() != dotdot() {
            assert forall|i: int| 0 <= i < r.len() implies {
                &&& keep(#[trigger] r[i])
                &&& forall|k: int| 0 <= k < r[i].len() ==> r[i][k] != '/'
                &&& r[i] == dotdot() ==> forall|j: int| 0 <= j < i ==> r[j] == dotdot()
            } by {
                assert(r[i] == out[i]);
                assert forall|j: int| 0 <= j < i implies r[j] == out[j] by {}
            }
        } else {
            assert(keep(dotdot()));
            assert forall|i: int| 0 <= i < r.len() implies {
                &&& keep(#[trigger] r[i])
                &&& forall|k: int| 0 <= k < r[i].len() ==> r[i][k] != '/'
                &&& r[i] == dotdot() ==> forall|j: int| 0 <= j < i ==> r[j] == dotdot()
            } by {
                if i < out.len() {
                    assert(r[i] == out[i]);
                    assert forall|j: int| 0 <= j < i implies r[j] == out[j] by {}
                } else {
                    assert forall|j: int| 0 <= j < i implies r[j] == dotdot() by {
                        assert(r[j] == out[j]);
                        assert(keep(out[out.len() - 1]));
                        if out[out.len() - 1] == dotdot() {
                            assert(out[j] == dotdot() || j == out.len() - 1);
                        }
                    }
                }
            }
        }
    } else {
        assert forall|i: int| 0 <= i < r.len() implies {
            &&& keep(#[trigger] r[i])
            &&& forall|k: int| 0 <= k < r[i].len() ==> r[i][k] != '/'
            &&& r[i] == dotdot() ==> forall|j: int| 0 <= j < i ==> r[j] == dotdot()
        } by {
            if i < out.len() {
                assert(r[i] == out[i]);
            }
        }
    }
}

/// The walk only ever produces clean components.
proof fn lemma_norm_fold_clean(pieces: Seq<Seq<char>>)
    requires
        forall|j: int, k: int|
            0 <= j < pieces.len() && 0 <= k < pieces[j].len() ==> #[trigger] pieces[j][k] != '/',
    ensures
        is_clean(norm_fold(pieces)),
    decreases pieces.len(),
{
    if pieces.len() > 0 {
        let init = pieces.drop_last();
        assert forall|j: int, k: int|
            0 <= j < init.len() && 0 <= k < init[j].len() implies #[trigger] init[j][k] != '/' by {
            assert(init[j] == pieces[j]);
        }
        lemma_norm_fold_clean(init);
        let x = pieces.last();
        assert forall|k: int| 0 <= k < x.len() implies x[k] != '/' by {
            assert(pieces[pieces.len() - 1][k] != '/');
        }
        lemma_norm_step_clean(norm_fold(init), x);
    }
}

/// Walking over pieces that come to nothing and then over clean components
/// gives those components back.
proof fn lemma_norm_fold_of_clean(pre: Seq<Seq<char>>, segs: Seq<Seq<char>>)
    requires
        norm_fold(pre) == Seq::<Seq<char>>::empty(),
        is_clean(segs),
    ensures
        norm_fold(pre + segs) == segs,
    decreases segs.len(),
{
    if segs.len() == 0 {
        assert(pre + segs == pre);
    } else {
        let init = segs.drop_last();
        assert forall|i: int| 0 <= i < init.len() implies {
            &&& keep(#[trigger] init[i])
            &&& forall|k: int| 0 <= k < init[i].len() ==> init[i][k] != '/'
            &&& init[i] == dotdot() ==> forall|j: int| 0 <= j < i ==> init[j] == dotdot()
        } by {
            assert(init[i] == segs[i]);
        }
        lemma_norm_fold_of_clean(pre, init);
        assert((pre + segs).drop_last() == pre + init);
        assert((pre + segs).last() == segs.last());
        let x = segs.last();
        assert(keep(segs[segs.len() - 1]));
        if x == dotdot() && init.len() > 0 {
            assert(segs[segs.len() - 1] == dotdot());
            assert(segs[init.len() - 1] == dotdot());
            assert(init.last() == dotdot());
        }
        assert(init.push(x) == segs);
    }
}

/// What a normalized path splits into: pieces that come to nothing, then
/// the clean components the walk produced.
proof fn lemma_split_of_normalized(p: Seq<char>) -> (pre: Seq<Seq<char>>)
    ensures
        is_clean(norm_fold(split(p, '/'))),
        split(normalize_spec(p), '/') == pre + norm_fold(split(p, '/')),
        norm_fold(pre) == Seq::<Seq<char>>::empty(),
        kept(pre) == Seq::<Seq<char>>::empty(),
        forall|i: int| 0 <= i < pre.len() ==> (#[trigger] pre[i]).len() == 0,
        is_abs(normalize_spec(p)) == is_abs(p),
{
    let root = is_abs(p);
    lemma_split_pieces(p, '/');
    let pieces = split(p, '/');
    lemma_norm_fold_clean(pieces);
    let segs = norm_fold(pieces);
    let n = normalize_spec(p);
    assert(n == render(root, segs));
    assert forall|j: int, k: int| 0 <= j < segs.len() && 0 <= k < segs[j].len() implies #[trigger] segs[j][k]
        != '/' by {
        assert(keep(segs[j]));
    }
    let joined = join(segs, slash());
    let e = Seq::<char>::empty();
    let none = Seq::<Seq<char>>::empty();
    assert(norm_fold(none) == none);
    assert(kept(none) == none);
    assert(seq![e].drop_last() == none);
    assert(norm_fold(seq![e]) == norm_step(norm_fold(seq![e].drop_last()), e));
    assert(norm_fold(seq![e]) == none);
    assert(kept(seq![e]) == none);
    if segs.len() > 0 {
        lemma_split_join(segs, '/');
        assert(split(joined, '/') == segs);
    } else {
        assert(joined == e);
        lemma_index_of_at(joined, '/', 0);
        assert(split(joined, '/') == seq![joined]);
    }
    if root {
        assert(n == slash() + joined);
        assert(is_abs(n));
        lemma_index_of_at(n, '/', 0);
        assert(n.take(0) == e);
        assert(n.skip(1) == joined);
        assert(split(n, '/') == seq![e] + split(joined, '/'));
        if segs.len() > 0 {
            assert(split(n, '/') == seq![e] + segs);
            seq![e]
        } else {
            let pre = seq![e, e];
            assert(pre.drop_last() == seq![e]);
            assert(norm_fold(pre) == norm_step(norm_fold(pre.drop_last()), e));
            assert(kept(pre) == kept(pre.drop_last()));
            assert(split(n, '/') == pre + segs);
            pre
        }
    } else {
        assert(n == joined);
        if segs.len() > 0 {
            lemma_join_front_char(segs);
            assert(!is_abs(n));
            assert(none + segs == segs);
            none
        } else {
            assert(split(n, '/') == seq![e] + segs);
            seq![e]
        }
    }
}

/// Keeping the components of pieces that come to nothing followed by clean
/// components gives those components back.
proof fn lemma_kept_of_clean(pre: Seq<Seq<char>>, segs: Seq<Seq<char>>)
    requires
        kept(pre) == Seq::<Seq<char>>::empty(),
        is_clean(segs),
    ensures
        kept(pre + segs) == segs,
    decreases segs.len(),
{
    if segs.len() == 0 {
        assert(pre + segs == pre);
    } else {
        let init = segs.drop_last();
        assert forall|i: int| 0 <= i < init.len() implies {
            &&& keep(#[trigger] init[i])
            &&& forall|k: int| 0 <= k < init[i].len() ==> init[i][k] != '/'
            &&& init[i] == dotdot() ==> forall|j: int| 0 <= j < i ==> init[j] == dotdot()
        } by {
            assert(init[i] == segs[i]);
        }
        lemma_kept_of_clean(pre, init);
        assert((pre + segs).drop_last() == pre + init);
        assert((pre + segs).last() == segs.last());
        assert(keep(segs[segs.len() - 1]));
        assert(init.push(segs.last()) == segs);
    }
}

/// `normalize` leaves a normalized path as it is: whatever it returns has
/// nothing left to resolve.
pub proof fn lemma_normalize_idempotent(p: Seq<char>)
    ensures
        normalize_spec(normalize_spec(p)) == normalize_spec(p),
{
    let pre = lemma_split_of_normalized(p);
    let segs = norm_fold(split(p, '/'));
    lemma_norm_fold_of_clean(pre, segs);
}

/// What `normalize` returns has no `.` component, and a `..` only where
/// there is nothing before it to cancel: among the leading components,
/// never after a name. Nothing but the text is consulted.
pub proof fn lemma_normalize_shape(p: Seq<char>)
    ensures
        comps(normalize_spec(p)) == norm_fold(split(p, '/')),
        is_clean(comps(normalize_spec(p))),
{
    let pre = lemma_split_of_normalized(p);
    let segs = norm_fold(split(p, '/'));
    let n = normalize_spec(p);
    lemma_kept_of_clean(pre, segs);
    assert(kept(split(n, '/')) == segs);
    let all = pre + segs;
    if all.len() > 0 {
        if pre.len() > 0 {
            assert(all[0] == pre[0]);
            assert(pre[0].len() == 0);
        } else {
            assert(all[0] == segs[0]);
            assert(keep(segs[0]));
        }
        assert(all[0] != dot());
    }
    assert(!leads_with_cur(n));
}

/// A join of clean components starts with the first one.
proof fn lemma_join_front_char(segs: Seq<Seq<char>>)
    requires
        segs.len() >= 1,
        is_clean(segs),
    ensures
        join(segs, slash()).len() > 0,
        join(segs, slash())[0] == segs[0][0],
    decreases segs.len(),
{
    assert(keep(segs[0]));
    if segs.len() > 1 {
        let init = segs.drop_last();
        assert forall|i: int| 0 <= i < init.len() implies {
            &&& keep(#[trigger] init[i])
            &&& forall|k: int| 0 <= k < init[i].len() ==> init[i][k] != '/'
            &&& init[i] == dotdot() ==> forall|j: int| 0 <= j < i ==> init[j] == dotdot()
        } by {
            assert(init[i] == segs[i]);
        }
        lemma_join_front_char(init);
    }
}

fn keep_exec(x: &String) -> (r: bool)
    ensures
        r == keep(x@),
{
    !x.as_str().is_empty() && !is_dot(x)
}

/// `Path::components` as strings, the root aside.
pub fn components(p: &str) -> (r: Vec<String>)
    ensures
        views(r@) == comps(p@),
{
    let pieces = split_on(p, '/');
    let mut out: Vec<String> = Vec::new();
    let lead = !is_absolute(p) && is_dot(&pieces[0]);
    if lead {
        out.push(String::from_str("."));
        proof {
            reveal_strlit(".");
            assert("."@ =~= dot());
        }
    }
    let ghost prefix = views(out@);
    assert(prefix == (if leads_with_cur(p@) { seq![dot()] } else { seq![] }));
    let mut i: usize = 0;
    while i < pieces.len()
        invariant
            i <= pieces.len(),
            views(out@) == prefix + kept(views(pieces@).take(i as int)),
        decreases pieces.len() - i,
    {
        let ghost before = views(out@);
        assert(views(pieces@).take(i + 1).drop_last() == views(pieces@).take(i as int));
        assert(views(pieces@).take(i + 1).last() == pieces@[i as int]@);
        if keep_exec(&pieces[i]) {
            out.push(pieces[i].clone());
            assert(views(out@) =~= before.push(pieces@[i as int]@));
        }
        i = i + 1;
    }
    assert(views(pieces@).take(pieces.len() as int) == views(pieces@));
    out
}

/// Whether `a[k] == b[k]` for every `k < n`.
fn same_prefix(a: &Vec<String>, b: &Vec<String>, n: usize) -> (r: bool)
    requires
        n <= a.len(),
        n <= b.len(),
    ensures
        r == (views(a@).take(n as int) == views(b@).take(n as int)),
{
    let mut k: usize = 0;
    while k < n
        invariant
            k <= n <= a.len(),
            n <= b.len(),
            views(a@).take(k as int) == views(b@).take(k as int),
        decreases n - k,
    {
        if a[k] != b[k] {
            assert(views(a@).take(n as int)[k as int] != views(b@).take(n as int)[k as int]);
            return false;
        }
        assert(views(a@).take(k + 1) =~= views(a@).take(k as int).push(a@[k as int]@));
        assert(views(b@).take(k + 1) =~= views(b@).take(k as int).push(b@[k as int]@));
        k = k + 1;
    }
    true
}

/// `Path::starts_with`: whole components, root included.
pub fn starts_with(p: &str, base: &str) -> (r: bool)
    ensures
        r == starts_with_spec(p@, base@),
{
    let pc = components(p);
    let bc = components(base);
    if is_absolute(p) != is_absolute(base) || bc.len() > pc.len() {
        return false;
    }
    let r = same_prefix(&pc, &bc, bc.len());
    assert(views(bc@).take(bc.len() as int) == views(bc@));
    r
}

/// `p.strip_prefix(base) == Ok(Path::new(name))`: `p` lies below `base`
/// exactly at the relative path `name`.
pub open spec fn is_below_at(p: Seq<char>, base: Seq<char>, name: Seq<char>) -> bool {
    &&& starts_with_spec(p, base)
    &&& !is_abs(name)
    &&& comps(p).skip(comps(base).len() as int) == comps(name)
}

pub fn below_at(p: &str, base: &str, name: &str) -> (r: bool)
    ensures
        r == is_below_at(p@, base@, name@),
{
    if !starts_with(p, base) || is_absolute(name) {
        return false;
    }
    let pc = components(p);
    let bc = components(base);
    let nc = components(name);
    let k = bc.len();
    if pc.len() - k != nc.len() {
        assert(views(pc@).skip(k as int).len() != views(nc@).len());
        return false;
    }
    let mut i: usize = 0;
    while i < nc.len()
        invariant
            k <= pc.len(),
            k == bc.len(),
            views(pc@) == comps(p@),
            views(bc@) == comps(base@),
            views(nc@) == comps(name@),
            starts_with_spec(p@, base@),
            !is_abs(name@),
            pc.len() - k == nc.len(),
            i <= nc.len(),
            forall|j: int| 0 <= j < i ==> pc@[k + j]@ == #[trigger] nc@[j]@,
        decreases nc.len() - i,
    {
        if pc[k + i] != nc[i] {
            assert(views(pc@).skip(k as int)[i as int] == pc@[k + i]@);
            assert(views(nc@)[i as int] == nc@[i as int]@);
            assert(views(pc@).skip(k as int)[i as int] != views(nc@)[i as int]);
            return false;
        }
        i = i + 1;
    }
    assert(views(pc@).skip(k as int) =~= views(nc@));
    true
}

/// `Path::file_name`.
pub fn file_name(p: &str) -> (r: Option<String>)
    ensures
        r matches Some(n) ==> file_name_spec(p@) == Some(n@),
        r is None ==> file_name_spec(p@) is None,
{
    let c = components(p);
    if c.len() > 0 && !is_dotdot(&c[c.len() - 1]) && !is_dot(&c[c.len() - 1]) {
        Some(c[c.len() - 1].clone())
    } else {
        None
    }
}

/// `Path == Path`: the same root and the same components.
pub open spec fn same_path_spec(a: Seq<char>, b: Seq<char>) -> bool {
    is_abs(a) == is_abs(b) && comps(a) == comps(b)
}

pub fn same_path(a: &str, b: &str) -> (r: bool)
    ensures
        r == same_path_spec(a@, b@),
{
    if is_absolute(a) != is_absolute(b) {
        return false;
    }
    let ac = components(a);
    let bc = components(b);
    if ac.len() != bc.len() {
        assert(views(ac@).len() != views(bc@).len());
        return false;
    }
    let r = same_prefix(&ac, &bc, ac.len());
    assert(views(ac@).take(ac.len() as int) == views(ac@));
    assert(views(bc@).take(bc.len() as int) == views(bc@));
    r
}

} // verus!
