//! The interactive worktree picker: its list state and what each key does.
//!
//! Drawing and reading keys is the caller's; everything the picker decides
//! is here.
use vstd::prelude::*;
use vstd::arithmetic::div_mod::{lemma_add_mod_noop, lemma_mod_add_multiples_vanish, lemma_mod_pos_bound,
    lemma_mod_self_0, lemma_small_mod};

use crate::commands::list::{is_current, is_current_spec, note, note_spec};
use crate::commands::remove::Blocker;
use crate::git::{wt_views, Worktree, WorktreeView};
use crate::repo::{display_name_spec, Repo};
use crate::text::{contains, contains_str, decimal, decimal_string, join, max_len, pad, push_char, push_padded, push_str, string_of,
    to_chars, views};

verus! {

/// How the picker ended.
pub enum Outcome {
    /// Move to this worktree.
    Selected(String),
    /// Nothing was chosen; the shell should stay where it is.
    Cancelled,
}

/// Whether a command should open the picker instead of printing.
///
/// Without a terminal — a script, a pipeline, CI — the caller keeps its plain
/// behaviour. A repository whose only worktree is the main one has nothing
/// worth picking from either.
pub fn should_pick(tty_available: bool, worktree_count: usize) -> (r: bool)
    ensures
        r == (tty_available && worktree_count > 1),
{
    tty_available && worktree_count > 1
}

/// One row of the list.
pub struct Item {
    pub name: String,
    pub path: String,
    pub head: String,
    pub note: String,
    pub is_current: bool,
    /// Uncommitted changes in it.
    pub dirty: bool,
    /// Its branch is already in the main worktree's `HEAD`.
    pub merged: bool,
    pub worktree: Worktree,
}

/// `str::to_lowercase`: each character's Unicode lowercase mapping.
pub uninterp spec fn lowercase(s: Seq<char>) -> Seq<char>;

/// A character below 128.
pub open spec fn is_ascii_char(c: char) -> bool {
    (c as u32) < 128
}

/// ASCII's own lowercase: `A`..`Z` become `a`..`z`, the rest stay.
pub open spec fn ascii_lower(c: char) -> char {
    if 'A' <= c <= 'Z' {
        ((c as u32) + 32) as char
    } else {
        c
    }
}

/// Calls `str::to_lowercase`. Claimed of it: the result depends on the
/// characters of `s` alone, and is named `lowercase`; on ASCII text it is
/// ASCII's own lowercase, as the documentation's Unicode mapping gives it
/// there. What it does to other characters is left unsaid.
#[verifier::external_body]
fn to_lowercase(s: &str) -> (r: String)
    ensures
        r@ == lowercase(s@),
        (forall|i: int| 0 <= i < s@.len() ==> is_ascii_char(#[trigger] s@[i])) ==> r@
            == s@.map_values(|c: char| ascii_lower(c)),
{
    s.to_lowercase()
}

/// Calls `String::pop`. Claimed of it: on an empty string it returns `None`
/// and changes nothing; otherwise it returns the last character and removes
/// it.
#[verifier::external_body]
fn pop_char(s: &mut String) -> (r: Option<char>)
    ensures
        old(s)@.len() == 0 ==> r is None && final(s)@ == old(s)@,
        old(s)@.len() > 0 ==> r == Some(old(s)@.last()) && final(s)@ == old(s)@.drop_last(),
{
    s.pop()
}

/// Whether an item shows under `filter`: a case-insensitive substring of its
/// name or its path.
pub open spec fn item_matches(item: Item, filter: Seq<char>) -> bool {
    contains(lowercase(item.name@), lowercase(filter)) || contains(
        lowercase(item.path@),
        lowercase(filter),
    )
}

/// The indices, among the first `k` items, of those that show under `filter`.
pub open spec fn matches_upto(items: Seq<Item>, filter: Seq<char>, k: int) -> Seq<usize>
    decreases k,
{
    if k <= 0 {
        seq![]
    } else if filter.len() == 0 || item_matches(items[k - 1], filter) {
        matches_upto(items, filter, k - 1).push((k - 1) as usize)
    } else {
        matches_upto(items, filter, k - 1)
    }
}

proof fn lemma_matches_bounded(items: Seq<Item>, filter: Seq<char>, k: int)
    requires
        0 <= k <= items.len(),
    ensures
        matches_upto(items, filter, k).len() <= k,
        forall|j: int|
            0 <= j < matches_upto(items, filter, k).len() ==> #[trigger] matches_upto(
                items,
                filter,
                k,
            )[j] < k,
    decreases k,
{
    if k > 0 {
        lemma_matches_bounded(items, filter, k - 1);
    }
}

/// How many rows a window of `height` rows shows of `len` from `offset` on.
pub open spec fn window_len(len: nat, offset: nat, height: nat) -> nat {
    if offset >= len {
        0
    } else if len - offset < height {
        (len - offset) as nat
    } else {
        height
    }
}

/// Rows left for the list on a terminal of `rows` lines: one goes to the
/// filter line, one to the heading, one to the help, one more to a message
/// when there is one.
pub fn list_height(rows: usize, has_message: bool) -> (r: usize)
    ensures
        r == (if has_message {
            if rows >= 4 {
                rows - 4
            } else {
                0
            }
        } else if rows >= 3 {
            rows - 3
        } else {
            0
        }),
{
    let reserved: usize = if has_message {
        4
    } else {
        3
    };
    if rows >= reserved {
        rows - reserved
    } else {
        0
    }
}

/// `(cursor + 1) % len`, worked out without overflow.
pub(crate) fn wrap_down(cursor: usize, len: usize) -> (r: usize)
    requires
        len > 0,
    ensures
        r == Picker::cursor_after_down(cursor as int, len as int),
        r < len,
{
    let c = cursor % len;
    proof {
        lemma_mod_pos_bound(cursor as int, len as int);
        lemma_add_mod_noop(cursor as int, 1, len as int);
        if len == 1 {
            lemma_mod_self_0(1);
            assert((cursor as int + 1) % 1 == 0) by {
                lemma_mod_pos_bound(cursor as int + 1, 1);
            }
        } else {
            lemma_small_mod(1, len as nat);
            if c + 1 < len {
                lemma_small_mod((c + 1) as nat, len as nat);
            } else {
                lemma_mod_self_0(len as int);
            }
        }
    }
    if c + 1 == len {
        0
    } else {
        c + 1
    }
}

/// `(cursor + len - 1) % len`, worked out without overflow.
pub(crate) fn wrap_up(cursor: usize, len: usize) -> (r: usize)
    requires
        len > 0,
    ensures
        r == Picker::cursor_after_up(cursor as int, len as int),
        r < len,
{
    let c = cursor % len;
    proof {
        lemma_mod_pos_bound(cursor as int, len as int);
        lemma_add_mod_noop(cursor as int, len - 1, len as int);
        lemma_small_mod((len - 1) as nat, len as nat);
        if c == 0 {
            assert(c + (len - 1) == len - 1);
        } else {
            lemma_mod_add_multiples_vanish(c - 1, len as int);
            lemma_small_mod((c - 1) as nat, len as nat);
            assert(c + (len - 1) == len + (c - 1));
        }
    }
    if c == 0 {
        len - 1
    } else {
        c - 1
    }
}

proof fn lemma_matches_step(items: Seq<Item>, filter: Seq<char>, k: int)
    requires
        0 < k <= items.len(),
        k <= usize::MAX,
    ensures
        matches_upto(items, filter, k) == (if filter.len() == 0 || item_matches(items[k - 1], filter) {
            matches_upto(items, filter, k - 1).push((k - 1) as usize)
        } else {
            matches_upto(items, filter, k - 1)
        }),
{
}

proof fn lemma_matches_complete(items: Seq<Item>, filter: Seq<char>, k: int)
    requires
        0 <= k <= items.len(),
        k <= usize::MAX,
    ensures
        forall|i: usize|
            i < k && (filter.len() == 0 || item_matches(items[i as int], filter))
                ==> #[trigger] matches_upto(items, filter, k).contains(i),
    decreases k,
{
    if k > 0 {
        lemma_matches_complete(items, filter, k - 1);
        lemma_matches_step(items, filter, k);
        let prev = matches_upto(items, filter, k - 1);
        let m = matches_upto(items, filter, k);
        assert forall|i: usize|
            i < k && (filter.len() == 0 || item_matches(items[i as int], filter)) implies #[trigger] m.contains(
            i,
        ) by {
            if i < k - 1 {
                assert(prev.contains(i));
                let j = choose|j: int| 0 <= j < prev.len() && prev[j] == i;
                assert(m[j] == prev[j]);
            } else {
                assert(m[prev.len() as int] == i);
            }
        }
    }
}

proof fn lemma_matches_sound(items: Seq<Item>, filter: Seq<char>, k: int)
    requires
        0 <= k <= items.len(),
        k <= usize::MAX,
    ensures
        forall|j: int|
            0 <= j < matches_upto(items, filter, k).len() ==> (#[trigger] matches_upto(
                items,
                filter,
                k,
            )[j]) < k && (filter.len() == 0 || item_matches(
                items[matches_upto(items, filter, k)[j] as int],
                filter,
            )),
        forall|a: int, b: int|
            0 <= a < b < matches_upto(items, filter, k).len() ==> matches_upto(items, filter, k)[a]
                < matches_upto(items, filter, k)[b],
        filter.len() == 0 ==> matches_upto(items, filter, k).len() == k,
    decreases k,
{
    if k > 0 {
        lemma_matches_sound(items, filter, k - 1);
        lemma_matches_step(items, filter, k);
        let prev = matches_upto(items, filter, k - 1);
        let m = matches_upto(items, filter, k);
        assert forall|j: int| 0 <= j < m.len() implies (#[trigger] m[j]) < k && (filter.len() == 0
            || item_matches(items[m[j] as int], filter)) by {
            if j < prev.len() {
                assert(m[j] == prev[j]);
            }
        }
        assert forall|a: int, b: int| 0 <= a < b < m.len() implies m[a] < m[b] by {
            if b < prev.len() {
                assert(m[a] == prev[a] && m[b] == prev[b]);
            } else {
                assert(m[a] == prev[a]);
            }
        }
    }
}

/// The filter shows exactly the items that match it, in their order: every
/// index it gives is an item that matches (any item when nothing is typed),
/// none twice, and no matching item is left out.
pub proof fn lemma_filter_shows_exactly_the_matches(items: Seq<Item>, filter: Seq<char>, k: int)
    requires
        0 <= k <= items.len(),
        k <= usize::MAX,
    ensures
        forall|j: int|
            0 <= j < matches_upto(items, filter, k).len() ==> (#[trigger] matches_upto(
                items,
                filter,
                k,
            )[j]) < k && (filter.len() == 0 || item_matches(
                items[matches_upto(items, filter, k)[j] as int],
                filter,
            )),
        forall|a: int, b: int|
            0 <= a < b < matches_upto(items, filter, k).len() ==> matches_upto(items, filter, k)[a]
                < matches_upto(items, filter, k)[b],
        forall|i: usize|
            i < k && (filter.len() == 0 || item_matches(items[i as int], filter))
                ==> #[trigger] matches_upto(items, filter, k).contains(i),
        filter.len() == 0 ==> matches_upto(items, filter, k).len() == k,
{
    lemma_matches_complete(items, filter, k);
    lemma_matches_sound(items, filter, k);
}

/// List state: which rows exist, what was typed, where the cursor is.
pub struct Picker {
    pub items: Vec<Item>,
    pub filter: String,
    /// Index into the *filtered* list.
    pub cursor: usize,
    /// First visible row, for lists taller than the terminal.
    pub offset: usize,
    /// Whether the last key was a Backspace that erased from the filter:
    /// the next Backspace on an empty filter is then swallowed, so holding
    /// the key to clear the filter cannot run on into the delete dialog.
    pub erased: bool,
}

impl Picker {
    /// The indices of the items the filter lets through, in order.
    pub open spec fn matches_spec(&self) -> Seq<usize> {
        matches_upto(self.items@, self.filter@, self.items@.len() as int)
    }

    /// The cursor is on a row of the filtered list, or at 0 when it is empty.
    pub open spec fn cursor_in_range(&self) -> bool {
        if self.matches_spec().len() == 0 {
            self.cursor == 0
        } else {
            self.cursor < self.matches_spec().len()
        }
    }

    pub fn new(items: Vec<Item>) -> (r: Self)
        ensures
            r.items@ == items@,
            r.filter@.len() == 0,
            r.cursor == 0,
            r.offset == 0,
            !r.erased,
            r.cursor_in_range(),
    {
        Picker { items, filter: String::new(), cursor: 0, offset: 0, erased: false }
    }

    /// Indices of the items matching the filter.
    ///
    /// Matching is a case-insensitive substring test over the name and the
    /// path, which is what makes typing a fragment of a branch name work.
    pub fn matches(&self) -> (r: Vec<usize>)
        ensures
            r@ == self.matches_spec(),
            r@.len() <= self.items@.len(),
            forall|j: int| 0 <= j < r@.len() ==> #[trigger] r@[j] < self.items@.len(),
    {
        proof {
            lemma_matches_bounded(self.items@, self.filter@, self.items@.len() as int);
        }
        let empty = self.filter.as_str().is_empty();
        let needle = to_lowercase(self.filter.as_str());
        let mut out: Vec<usize> = Vec::new();
        let mut i: usize = 0;
        while i < self.items.len()
            invariant
                i <= self.items.len(),
                empty == (self.filter@.len() == 0),
                needle@ == lowercase(self.filter@),
                out@ == matches_upto(self.items@, self.filter@, i as int),
            decreases self.items.len() - i,
        {
            let item = &self.items[i];
            if empty {
                out.push(i);
            } else {
                let name = to_lowercase(item.name.as_str());
                let path = to_lowercase(item.path.as_str());
                if contains_str(name.as_str(), needle.as_str()) || contains_str(
                    path.as_str(),
                    needle.as_str(),
                ) {
                    out.push(i);
                }
            }
            i = i + 1;
        }
        out
    }

    /// The item under the cursor, if any.
    pub fn selected(&self) -> (r: Option<&Item>)
        ensures
            self.cursor < self.matches_spec().len() ==> r == Some(
                &self.items@[self.matches_spec()[self.cursor as int] as int],
            ),
            self.cursor >= self.matches_spec().len() ==> r is None,
    {
        let m = self.matches();
        if self.cursor < m.len() {
            Some(&self.items[m[self.cursor]])
        } else {
            None
        }
    }

    /// Where the cursor lands one row down a list of `len` rows: the next
    /// row, or the first after the last. An empty list leaves it alone.
    pub open spec fn cursor_after_down(cursor: int, len: int) -> int {
        if len > 0 {
            (cursor + 1) % len
        } else {
            cursor
        }
    }

    /// Where the cursor lands one row up: the previous row, or the last
    /// before the first.
    pub open spec fn cursor_after_up(cursor: int, len: int) -> int {
        if len > 0 {
            (cursor + len - 1) % len
        } else {
            cursor
        }
    }

    /// Moves the cursor down, wrapping to the top.
    pub fn move_down(&mut self)
        ensures
            final(self).erased == old(self).erased,
            final(self).items@ == old(self).items@,
            final(self).filter@ == old(self).filter@,
            final(self).offset == old(self).offset,
            final(self).cursor == Self::cursor_after_down(
                old(self).cursor as int,
                old(self).matches_spec().len() as int,
            ),
            old(self).cursor_in_range() ==> final(self).cursor_in_range(),
    {
        let len = self.matches().len();
        if len > 0 {
            self.cursor = wrap_down(self.cursor, len);
        }
    }

    /// Moves the cursor up, wrapping to the bottom.
    pub fn move_up(&mut self)
        ensures
            final(self).erased == old(self).erased,
            final(self).items@ == old(self).items@,
            final(self).filter@ == old(self).filter@,
            final(self).offset == old(self).offset,
            final(self).cursor == Self::cursor_after_up(
                old(self).cursor as int,
                old(self).matches_spec().len() as int,
            ),
            old(self).cursor_in_range() ==> final(self).cursor_in_range(),
    {
        let len = self.matches().len();
        if len > 0 {
            self.cursor = wrap_up(self.cursor, len);
        }
    }

    /// Types a character into the filter.
    pub fn push_filter(&mut self, c: char)
        ensures
            final(self).erased == old(self).erased,
            final(self).items@ == old(self).items@,
            final(self).filter@ == old(self).filter@.push(c),
            final(self).offset == old(self).offset,
            final(self).cursor_in_range(),
            final(self).cursor == Self::clamped(old(self).cursor, final(self).matches_spec().len()),
    {
        push_char(&mut self.filter, c);
        self.clamp();
    }

    /// Erases the last character of the filter, if there is one.
    pub fn pop_filter(&mut self)
        ensures
            final(self).erased == old(self).erased,
            final(self).items@ == old(self).items@,
            final(self).filter@ == (if old(self).filter@.len() > 0 {
                old(self).filter@.drop_last()
            } else {
                old(self).filter@
            }),
            final(self).offset == old(self).offset,
            final(self).cursor_in_range(),
            final(self).cursor == Self::clamped(old(self).cursor, final(self).matches_spec().len()),
    {
        pop_char(&mut self.filter);
        self.clamp();
    }

    /// Where a cursor at `cursor` lands in a list of `len` rows.
    pub open spec fn clamped(cursor: usize, len: nat) -> usize {
        if len == 0 {
            0
        } else if cursor >= len {
            (len - 1) as usize
        } else {
            cursor
        }
    }

    /// Keeps the cursor inside the filtered list after it shrinks or grows.
    pub fn clamp(&mut self)
        ensures
            final(self).erased == old(self).erased,
            final(self).items@ == old(self).items@,
            final(self).filter@ == old(self).filter@,
            final(self).offset == old(self).offset,
            final(self).cursor == Self::clamped(old(self).cursor, old(self).matches_spec().len()),
            final(self).cursor_in_range(),
    {
        let len = self.matches().len();
        if len == 0 {
            self.cursor = 0;
        } else if self.cursor >= len {
            self.cursor = len - 1;
        }
    }

    /// The rows a window of `height` rows shows, from `offset` on: each
    /// item's index, and whether the cursor is on it.
    pub fn window(&self, height: usize) -> (r: Vec<(usize, bool)>)
        ensures
            r@.len() == window_len(self.matches_spec().len(), self.offset as nat, height as nat),
            forall|j: int|
                0 <= j < r@.len() ==> #[trigger] r@[j] == (
                    self.matches_spec()[self.offset + j],
                    self.offset + j == self.cursor,
                ),
    {
        let m = self.matches();
        let mut out: Vec<(usize, bool)> = Vec::new();
        if self.offset >= m.len() {
            return out;
        }
        let mut i = self.offset;
        while i < m.len() && i - self.offset < height
            invariant
                self.offset <= i <= m.len(),
                m@ == self.matches_spec(),
                out@.len() == i - self.offset,
                i - self.offset <= height,
                forall|j: int|
                    0 <= j < out@.len() ==> #[trigger] out@[j] == (
                        self.matches_spec()[self.offset + j],
                        self.offset + j == self.cursor,
                    ),
            decreases m.len() - i,
        {
            out.push((m[i], i == self.cursor));
            i = i + 1;
        }
        out
    }

    /// Scrolls so the cursor stays visible in a window of `height` rows.
    pub fn scroll_into_view(&mut self, height: usize)
        ensures
            final(self).erased == old(self).erased,
            final(self).items@ == old(self).items@,
            final(self).filter@ == old(self).filter@,
            final(self).cursor == old(self).cursor,
            final(self).offset == (if height == 0 {
                old(self).offset
            } else if old(self).cursor < old(self).offset {
                old(self).cursor
            } else if old(self).cursor >= old(self).offset + height {
                (old(self).cursor + 1 - height) as usize
            } else {
                old(self).offset
            }),
            height > 0 ==> final(self).offset <= final(self).cursor < final(self).offset + height,
    {
        if height == 0 {
            return ;
        }
        if self.cursor < self.offset {
            self.offset = self.cursor;
        } else if self.cursor - self.offset >= height {
            self.offset = self.cursor - (height - 1);
        }
    }
}

/// What a key press comes to, for whoever runs the picker.
pub enum Step {
    /// Keep going.
    Stay,
    /// Move to the worktree at this path.
    Choose(String),
    /// Leave without moving.
    Cancel,
    /// Open the removal dialog for the row under the cursor.
    Delete,
}

impl Picker {
    /// Applies a key. Backspace does double duty: it erases from the
    /// filter, and on an empty filter it removes the worktree, except for
    /// the press right after the one that erased, which is swallowed.
    pub fn step(&mut self, key: &Key) -> (r: Step)
        ensures
            final(self).items@ == old(self).items@,
            old(self).cursor_in_range() ==> final(self).cursor_in_range(),
            final(self).erased == (key_action_spec(*key) is Backspace && old(self).filter@.len()
                > 0),
            match key_action_spec(*key) {
                Action::Confirm => final(self).filter@ == old(self).filter@ && final(self).cursor
                    == old(self).cursor && final(self).offset == old(self).offset && (if old(self).cursor < old(self).matches_spec().len() {
                    r matches Step::Choose(p) && p@ == old(self).items@[old(self).matches_spec()[old(self).cursor as int] as int].path@
                } else {
                    r is Stay
                }),
                Action::Cancel => r is Cancel && final(self).filter@ == old(self).filter@
                    && final(self).cursor == old(self).cursor,
                Action::Down => r is Stay && final(self).filter@ == old(self).filter@ && final(self).cursor == Self::cursor_after_down(
                    old(self).cursor as int,
                    old(self).matches_spec().len() as int,
                ),
                Action::Up => r is Stay && final(self).filter@ == old(self).filter@ && final(self).cursor == Self::cursor_after_up(
                    old(self).cursor as int,
                    old(self).matches_spec().len() as int,
                ),
                Action::Insert(c) => r is Stay && final(self).filter@ == old(self).filter@.push(c)
                    && final(self).cursor == Self::clamped(
                    old(self).cursor,
                    final(self).matches_spec().len(),
                ),
                Action::Backspace => if old(self).filter@.len() > 0 {
                    r is Stay && final(self).filter@ == old(self).filter@.drop_last() && final(self).cursor == Self::clamped(old(self).cursor, final(self).matches_spec().len())
                } else if old(self).erased {
                    r is Stay && final(self).filter@ == old(self).filter@ && final(self).cursor
                        == old(self).cursor
                } else {
                    r is Delete && final(self).filter@ == old(self).filter@ && final(self).cursor
                        == old(self).cursor
                },
                Action::Delete => r is Delete && final(self).filter@ == old(self).filter@ && final(self).cursor == old(self).cursor,
                Action::Nothing => r is Stay && final(self).filter@ == old(self).filter@ && final(self).cursor == old(self).cursor,
            },
    {
        let was_erased = self.erased;
        self.erased = false;
        match key_action(key) {
            Action::Confirm => match self.selected() {
                Some(item) => Step::Choose(item.path.clone()),
                None => Step::Stay,
            },
            Action::Cancel => Step::Cancel,
            Action::Down => {
                self.move_down();
                Step::Stay
            },
            Action::Up => {
                self.move_up();
                Step::Stay
            },
            Action::Insert(c) => {
                self.push_filter(c);
                Step::Stay
            },
            Action::Backspace => {
                if self.filter.as_str().is_empty() {
                    if was_erased {
                        Step::Stay
                    } else {
                        Step::Delete
                    }
                } else {
                    self.pop_filter();
                    self.erased = true;
                    Step::Stay
                }
            },
            Action::Delete => Step::Delete,
            Action::Nothing => Step::Stay,
        }
    }
}

/// Moving down and then up puts the cursor back on the row it left, and so
/// does moving up and then down, the last row and the first included: the
/// two moves wrap around the same list and undo each other.
pub proof fn lemma_up_undoes_down(cursor: int, len: int)
    requires
        0 <= cursor < len,
    ensures
        Picker::cursor_after_up(Picker::cursor_after_down(cursor, len), len) == cursor,
        Picker::cursor_after_down(Picker::cursor_after_up(cursor, len), len) == cursor,
{
    lemma_small_mod(cursor as nat, len as nat);
    lemma_mod_add_multiples_vanish(cursor, len);
    if cursor + 1 < len {
        lemma_small_mod((cursor + 1) as nat, len as nat);
    } else {
        lemma_mod_self_0(len);
        lemma_small_mod((len - 1) as nat, len as nat);
    }
    if cursor > 0 {
        lemma_mod_add_multiples_vanish(cursor - 1, len);
        lemma_small_mod((cursor - 1) as nat, len as nat);
    } else {
        lemma_small_mod((len - 1) as nat, len as nat);
        lemma_mod_self_0(len);
    }
}

/// What a key does in the list.
pub enum Action {
    Confirm,
    Cancel,
    Up,
    Down,
    Delete,
    Backspace,
    Insert(char),
    Nothing,
}

/// The keys the picker tells apart.
pub enum KeyCode {
    Enter,
    Esc,
    Up,
    Down,
    Delete,
    Backspace,
    Char(char),
    /// Any other key.
    Other,
}

/// A key press: the key and whether Control was held.
pub struct Key {
    pub code: KeyCode,
    pub ctrl: bool,
}

pub open spec fn key_action_spec(key: Key) -> Action {
    match key.code {
        KeyCode::Enter => Action::Confirm,
        KeyCode::Esc => Action::Cancel,
        KeyCode::Down => Action::Down,
        KeyCode::Up => Action::Up,
        KeyCode::Delete => Action::Delete,
        KeyCode::Backspace => Action::Backspace,
        KeyCode::Char(c) => if key.ctrl {
            if c == 'c' || c == 'g' {
                Action::Cancel
            } else if c == 'n' {
                Action::Down
            } else if c == 'p' {
                Action::Up
            } else if c == 'd' {
                Action::Delete
            } else {
                Action::Nothing
            }
        } else {
            Action::Insert(c)
        },
        KeyCode::Other => Action::Nothing,
    }
}

/// The arrows move the way they point, with or without Control, and
/// Ctrl-n and Ctrl-p do the same: down goes to the next row (the first
/// after the last), up to the previous one (the last before the first).
pub proof fn lemma_arrows_move_their_way(key: Key, cursor: int, len: int)
    requires
        0 <= cursor < len,
    ensures
        key.code == KeyCode::Down || (key.code == KeyCode::Char('n') && key.ctrl) ==> (
        key_action_spec(key) == Action::Down && Picker::cursor_after_down(cursor, len) == (if cursor
            + 1 < len {
            cursor + 1
        } else {
            0
        })),
        key.code == KeyCode::Up || (key.code == KeyCode::Char('p') && key.ctrl) ==> (
        key_action_spec(key) == Action::Up && Picker::cursor_after_up(cursor, len) == (if cursor
            > 0 {
            cursor - 1
        } else {
            len - 1
        })),
{
    lemma_small_mod(cursor as nat, len as nat);
    if cursor + 1 < len {
        lemma_small_mod((cursor + 1) as nat, len as nat);
    } else {
        lemma_mod_self_0(len);
    }
    lemma_small_mod((len - 1) as nat, len as nat);
    if cursor > 0 {
        lemma_mod_add_multiples_vanish(cursor - 1, len);
        lemma_small_mod((cursor - 1) as nat, len as nat);
    }
}

/// What each key does, as the help says it: Enter chooses, Esc and Ctrl-c
/// (or Ctrl-g) leave, Delete and Ctrl-d remove, Backspace works on the
/// filter, and a character typed without Control goes into the filter as it
/// is.
pub proof fn lemma_keys_do_what_the_help_says(key: Key)
    ensures
        key.code == KeyCode::Enter ==> key_action_spec(key) == Action::Confirm,
        key.code == KeyCode::Esc || key.code == KeyCode::Char('c') && key.ctrl ==> key_action_spec(
            key,
        ) == Action::Cancel,
        key.code == KeyCode::Delete || key.code == KeyCode::Char('d') && key.ctrl
            ==> key_action_spec(key) == Action::Delete,
        key.code == KeyCode::Backspace ==> key_action_spec(key) == Action::Backspace,
        forall|c: char| key.code == KeyCode::Char(c) && !key.ctrl ==> key_action_spec(key)
            == Action::Insert(c),
{
}

/// In the removal dialog, `y` removes the worktree, `b` the branch with it
/// (and only when there is one), `n`, Esc and Ctrl-c leave it alone, and any
/// other key is no answer.
pub proof fn lemma_the_dialog_answers(key: Key, has_branch: bool)
    ensures
        key.code == KeyCode::Char('y') || key.code == KeyCode::Char('Y') ==> confirm_answer_spec(
            key,
            has_branch,
        ) == Answer::Worktree,
        key.code == KeyCode::Char('b') || key.code == KeyCode::Char('B') ==> confirm_answer_spec(
            key,
            has_branch,
        ) == (if has_branch {
            Answer::WorktreeAndBranch
        } else {
            Answer::Ignore
        }),
        key.code == KeyCode::Char('n') || key.code == KeyCode::Esc || key.code == KeyCode::Char(
            'c',
        ) && key.ctrl ==> confirm_answer_spec(key, has_branch) == Answer::Cancel,
        confirm_answer_spec(key, has_branch) == Answer::WorktreeAndBranch ==> has_branch,
{
}

/// Maps a key to an action.
///
/// `Delete` is bound to Ctrl-D as well: on Mac keyboards the key labelled
/// "delete" sends Backspace, which the filter needs.
pub fn key_action(key: &Key) -> (r: Action)
    ensures
        r == key_action_spec(*key),
{
    let ctrl = key.ctrl;
    match key.code {
        KeyCode::Enter => Action::Confirm,
        KeyCode::Esc => Action::Cancel,
        KeyCode::Down => Action::Down,
        KeyCode::Up => Action::Up,
        KeyCode::Delete => Action::Delete,
        KeyCode::Backspace => Action::Backspace,
        KeyCode::Char(c) => {
            if ctrl {
                if c == 'c' || c == 'g' {
                    Action::Cancel
                } else if c == 'n' {
                    Action::Down
                } else if c == 'p' {
                    Action::Up
                } else if c == 'd' {
                    Action::Delete
                } else {
                    Action::Nothing
                }
            } else {
                Action::Insert(c)
            }
        },
        KeyCode::Other => Action::Nothing,
    }
}

/// An answer in the removal dialog.
pub enum Answer {
    /// Remove the worktree.
    Worktree,
    /// Remove the worktree and its branch.
    WorktreeAndBranch,
    /// Leave it.
    Cancel,
    /// Not an answer; keep asking.
    Ignore,
}

pub open spec fn confirm_answer_spec(key: Key, has_branch: bool) -> Answer {
    match key.code {
        KeyCode::Char(c) => if c == 'y' || c == 'Y' {
            Answer::Worktree
        } else if (c == 'b' || c == 'B') && has_branch {
            Answer::WorktreeAndBranch
        } else if c == 'n' || c == 'N' {
            Answer::Cancel
        } else if c == 'c' && key.ctrl {
            Answer::Cancel
        } else {
            Answer::Ignore
        },
        KeyCode::Esc => Answer::Cancel,
        _ => Answer::Ignore,
    }
}

/// What a key answers in the dialog; `b` only means something when the
/// worktree has a branch.
pub fn confirm_answer(key: &Key, has_branch: bool) -> (r: Answer)
    ensures
        r == confirm_answer_spec(*key, has_branch),
{
    match key.code {
        KeyCode::Char(c) => {
            if c == 'y' || c == 'Y' {
                Answer::Worktree
            } else if (c == 'b' || c == 'B') && has_branch {
                Answer::WorktreeAndBranch
            } else if c == 'n' || c == 'N' {
                Answer::Cancel
            } else if c == 'c' && key.ctrl {
                Answer::Cancel
            } else {
                Answer::Ignore
            }
        },
        KeyCode::Esc => Answer::Cancel,
        _ => Answer::Ignore,
    }
}

/// Kept to plain ASCII on purpose.
///
/// Arrows and the return symbol land in ranges that terminals disagree about:
/// some fonts have no glyph, and U+25B6 in particular has an emoji
/// presentation that renders double width and shifts the whole row.
///
/// The help says what Backspace does right now: it erases while there is
/// something typed, and removes the worktree once the filter is empty.
pub const HELP: &'static str = "up/down move   enter cd   ctrl-d delete   backspace erase   esc cancel";

/// The help once the filter is empty, when Backspace removes too.
pub const HELP_EMPTY: &'static str = "up/down move   enter cd   ctrl-d/backspace delete   esc cancel";

/// The help on a terminal too narrow for the whole of it: `up/down move`
/// goes first rather than a word being cut in half.
pub const HELP_NARROW: &'static str = "enter cd   ctrl-d delete   backspace erase   esc cancel";

pub const HELP_EMPTY_NARROW: &'static str = "enter cd   ctrl-d/backspace delete   esc cancel";

/// The help line for a terminal `cols` wide.
pub fn help_line(filter_empty: bool, cols: usize) -> (r: &'static str)
    ensures
        r@ == (if filter_empty {
            if HELP_EMPTY@.len() <= cols {
                HELP_EMPTY@
            } else {
                HELP_EMPTY_NARROW@
            }
        } else if HELP@.len() <= cols {
            HELP@
        } else {
            HELP_NARROW@
        }),
{
    if filter_empty {
        if HELP_EMPTY.unicode_len() <= cols {
            HELP_EMPTY
        } else {
            HELP_EMPTY_NARROW
        }
    } else if HELP.unicode_len() <= cols {
        HELP
    } else {
        HELP_NARROW
    }
}

/// The dialog's title.
pub const CONFIRM_TITLE: &'static str = "Remove this worktree?";

/// The dialog's warning for a worktree with uncommitted changes.
pub const DIRTY_WARNING: &'static str = "  ! uncommitted changes will be lost";

/// The dialog's keys for a worktree with a branch.
pub const KEYS_WITH_BRANCH: &'static str =
    "[y] remove worktree   [b] remove worktree and branch   [n] cancel";

/// The dialog's keys for a worktree without one.
pub const KEYS_WITHOUT_BRANCH: &'static str = "[y] remove worktree   [n] cancel";

/// `line` cut or padded to exactly `width` characters.
pub open spec fn fit_spec(line: Seq<char>, width: nat) -> Seq<char> {
    if line.len() >= width {
        line.take(width as int)
    } else {
        pad(line, width)
    }
}

/// Truncates to `width` and pads to it, so a highlighted row spans the line.
pub fn fit(line: &str, width: usize) -> (r: String)
    ensures
        r@ == fit_spec(line@, width as nat),
        r@.len() == width,
{
    let v = to_chars(line);
    if v.len() >= width {
        let r = string_of(&v, 0, width);
        assert(r@ == v@.take(width as int));
        r
    } else {
        let mut r = String::new();
        push_padded(&mut r, line, width);
        assert(r@ =~= pad(line@, width as nat));
        r
    }
}

/// The row of a worktree in the picker.
pub open spec fn item_of(cwd: Seq<char>, w: WorktreeView, main: WorktreeView, item: Item) -> bool {
    &&& item.name@ == display_name_spec(w, main)
    &&& item.head@ == Worktree::short_head_spec(w)
    &&& item.note@ == note_spec(w)
    &&& item.is_current == crate::paths::starts_with_spec(cwd, w.path)
    &&& item.path@ == w.path
    &&& item.worktree@ == w
}

/// A picker row is marked `*` exactly when the current directory is its
/// worktree or lies below it, as in `gwt list --plain`.
pub proof fn lemma_picker_marks_where_you_stand(cwd: Seq<char>, w: WorktreeView, main: WorktreeView, item: Item)
    requires
        item_of(cwd, w, main, item),
    ensures
        item.is_current <==> (crate::paths::is_abs(cwd) == crate::paths::is_abs(w.path) && exists|
            rest: Seq<Seq<char>>,
        | crate::paths::comps(cwd) == crate::paths::comps(w.path) + rest),
{
    let cc = crate::paths::comps(cwd);
    let wc = crate::paths::comps(w.path);
    if item.is_current {
        assert(cc == wc + cc.skip(wc.len() as int));
    }
    if crate::paths::is_abs(cwd) == crate::paths::is_abs(w.path) && exists|rest: Seq<Seq<char>>|
        cc == wc + rest {
        let rest = choose|rest: Seq<Seq<char>>| cc == wc + rest;
        assert(cc.take(wc.len() as int) == wc);
    }
}

/// The rows of the picker, one per worktree in order; `dirty[i]` says
/// whether worktree `i` has uncommitted changes, and `merged` are the
/// branches in the main worktree's `HEAD`.
pub fn load(repo: &Repo, worktrees: &Vec<Worktree>, dirty: &Vec<bool>, merged: &Vec<String>) -> (r:
    Vec<Item>)
    requires
        dirty.len() == worktrees.len(),
    ensures
        forall|i: int|
            0 <= i < r@.len() ==> (#[trigger] r@[i]).dirty == dirty@[i] && r@[i].merged == (
            worktrees@[i].branch is Some && views(merged@).contains(worktrees@[i].branch->0@)),
        r@.len() == worktrees@.len(),
        forall|i: int|
            0 <= i < r@.len() ==> item_of(
                repo.cwd@,
                wt_views(worktrees@)[i],
                wt_views(worktrees@)[0],
                #[trigger] r@[i],
            ),
{
    let ghost ws = wt_views(worktrees@);
    let mut out: Vec<Item> = Vec::new();
    if worktrees.len() == 0 {
        return out;
    }
    assert(ws[0] == worktrees@[0]@);
    let mut i: usize = 0;
    while i < worktrees.len()
        invariant
            i <= worktrees.len(),
            worktrees.len() > 0,
            ws == wt_views(worktrees@),
            ws[0] == worktrees@[0]@,
            out@.len() == i,
            dirty.len() == worktrees.len(),
            forall|j: int| 0 <= j < i ==> item_of(repo.cwd@, ws[j], ws[0], #[trigger] out@[j]),
            forall|j: int|
                0 <= j < i ==> (#[trigger] out@[j]).dirty == dirty@[j] && out@[j].merged == (
                worktrees@[j].branch is Some && views(merged@).contains(worktrees@[j].branch->0@)),
        decreases worktrees.len() - i,
    {
        let wt = &worktrees[i];
        assert(ws[i as int] == wt@);
        let is_merged = match &wt.branch {
            Some(b) => crate::git::is_merged(merged, b.as_str()),
            None => false,
        };
        let item = Item {
            dirty: dirty[i],
            merged: is_merged,
            name: repo.display_name(wt, &worktrees[0]),
            head: wt.short_head(),
            note: note(wt),
            is_current: crate::paths::starts_with(repo.cwd.as_str(), wt.path.as_str()),
            path: wt.path.clone(),
            worktree: wt.duplicate(),
        };
        out.push(item);
        i = i + 1;
    }
    out
}

/// The names of the rows the filter lets through, in order.
pub open spec fn matched_names(picker: Picker) -> Seq<Seq<char>> {
    picker.matches_spec().map_values(|i: usize| picker.items@[i as int].name@)
}

/// The widest name among the rows the filter lets through.
pub fn name_width(picker: &Picker) -> (r: usize)
    ensures
        r as nat == max_len(matched_names(*picker)),
{
    let m = picker.matches();
    let ghost names = matched_names(*picker);
    assert(names.len() == m@.len());
    let mut w: usize = 0;
    let mut i: usize = 0;
    while i < m.len()
        invariant
            i <= m.len(),
            m@ == picker.matches_spec(),
            names == matched_names(*picker),
            names.len() == m@.len(),
            forall|j: int| 0 <= j < m@.len() ==> #[trigger] m@[j] < picker.items@.len(),
            w as nat == max_len(names.take(i as int)),
        decreases m.len() - i,
    {
        assert(names.take(i + 1).drop_last() == names.take(i as int));
        assert(names.take(i + 1).last() == picker.items@[m@[i as int] as int].name@);
        let n = picker.items[m[i]].name.as_str().unicode_len();
        if n > w {
            w = n;
        }
        i = i + 1;
    }
    assert(names.take(m.len() as int) == names);
    w
}

/// What the STATUS column says of a row: `dirty` and `merged` where they
/// hold, then the worktree's notes (`bare`, `detached`, `locked`).
pub open spec fn status_spec(item: Item) -> Seq<char> {
    join(
        (if item.dirty {
            seq!["dirty"@]
        } else {
            seq![]
        }) + (if item.merged {
            seq!["merged"@]
        } else {
            seq![]
        }),
        ", "@,
    ) + item.note@
}

pub fn status_text(item: &Item) -> (r: String)
    ensures
        r@ == status_spec(*item),
{
    let mut r = String::new();
    let ghost d: Seq<Seq<char>> = if item.dirty { seq!["dirty"@] } else { seq![] };
    let ghost m: Seq<Seq<char>> = if item.merged { seq!["merged"@] } else { seq![] };
    if item.dirty {
        push_str(&mut r, "dirty");
    }
    if item.merged {
        if item.dirty {
            push_str(&mut r, ", ");
        }
        push_str(&mut r, "merged");
    }
    proof {
        let w = d + m;
        if item.dirty && item.merged {
            assert(w == seq!["dirty"@, "merged"@]);
            assert(w.drop_last() == seq!["dirty"@]);
            assert(join(w, ", "@) == join(w.drop_last(), ", "@) + ", "@ + w.last());
        } else if item.dirty {
            assert(w == seq!["dirty"@]);
        } else if item.merged {
            assert(w == seq!["merged"@]);
        } else {
            assert(w.len() == 0);
            reveal_strlit("");
        }
        assert(r@ == join(w, ", "@));
    }
    push_str(&mut r, item.note.as_str());
    r
}

/// The widest name among the rows shown, or the width of the `WORKTREE`
/// heading when that is wider.
pub fn name_column(picker: &Picker) -> (r: usize)
    ensures
        r as nat == (if max_len(matched_names(*picker)) >= 8 {
            max_len(matched_names(*picker))
        } else {
            8
        }),
{
    let w = name_width(picker);
    if w >= 8 {
        w
    } else {
        8
    }
}

/// The heading over the rows.
pub fn header_line(width: usize) -> (r: String)
    ensures
        r@ == "  "@ + pad("WORKTREE"@, width as nat) + "  "@ + pad("HEAD"@, 7) + "  STATUS"@,
{
    let mut r = String::from_str("  ");
    push_padded(&mut r, "WORKTREE", width);
    push_str(&mut r, "  ");
    push_padded(&mut r, "HEAD", 7);
    push_str(&mut r, "  STATUS");
    r
}

/// One row as drawn: `*` where you stand, the name padded to `width`, the
/// commit, and the status, fitted to `cols`. The path is not shown: it
/// follows from the name.
pub fn row_text(item: &Item, width: usize, cols: usize) -> (r: String)
    ensures
        r@ == fit_spec(
            seq![if item.is_current { '*' } else { ' ' }] + " "@ + pad(item.name@, width as nat)
                + "  "@ + pad(item.head@, 7) + "  "@ + status_spec(*item),
            cols as nat,
        ),
{
    let mut line = String::new();
    if item.is_current {
        push_char(&mut line, '*');
    } else {
        push_char(&mut line, ' ');
    }
    push_str(&mut line, " ");
    push_padded(&mut line, item.name.as_str(), width);
    push_str(&mut line, "  ");
    push_padded(&mut line, item.head.as_str(), 7);
    push_str(&mut line, "  ");
    let status = status_text(item);
    push_str(&mut line, status.as_str());
    fit(line.as_str(), cols)
}

/// How much of the list is in view, at the right of the filter line:
/// `4 worktrees` before anything is typed, `1 of 4` after, so that
/// filtering everything away reads as `0 of 4`.
pub open spec fn count_spec(filter_empty: bool, shown: nat, total: nat) -> Seq<char> {
    if filter_empty {
        decimal(total) + (if total == 1 {
            " worktree"@
        } else {
            " worktrees"@
        })
    } else {
        decimal(shown) + " of "@ + decimal(total)
    }
}

/// The filter line: what was typed (a hint while nothing is), and the
/// count at the right edge of a terminal `cols` wide; the count is left
/// out when it does not fit.
pub fn prompt_line(filter: &str, shown: usize, total: usize, cols: usize) -> (r: String)
    ensures
        ({
            let left = "> "@ + (if filter@.len() == 0 {
                "type to filter"@
            } else {
                filter@
            });
            let right = count_spec(filter@.len() == 0, shown as nat, total as nat);
            r@ == if left.len() + 2 + right.len() <= cols {
                pad(left, (cols - right.len()) as nat) + right
            } else {
                fit_spec(left, cols as nat)
            }
        }),
{
    let mut left = String::from_str("> ");
    let empty = filter.is_empty();
    if empty {
        push_str(&mut left, "type to filter");
    } else {
        push_str(&mut left, filter);
    }
    let mut right = if empty {
        decimal_string(total)
    } else {
        decimal_string(shown)
    };
    if empty {
        if total == 1 {
            push_str(&mut right, " worktree");
        } else {
            push_str(&mut right, " worktrees");
        }
    } else {
        push_str(&mut right, " of ");
        let t = decimal_string(total);
        push_str(&mut right, t.as_str());
    }
    let l = left.as_str().unicode_len();
    let rl = right.as_str().unicode_len();
    if l <= cols && rl <= cols - l && 2 <= cols - l - rl {
        let mut r = String::new();
        push_padded(&mut r, left.as_str(), cols - rl);
        push_str(&mut r, right.as_str());
        r
    } else {
        fit(left.as_str(), cols)
    }
}

/// The status line when a removal is refused: ``cannot remove `x`: why``.
pub fn blocked_message(label: &str, blocker: &Blocker) -> (r: String)
    ensures
        r@ == "cannot remove `"@ + label@ + "`: "@ + blocker.reason_spec(),
{
    let mut m = String::from_str("cannot remove `");
    push_str(&mut m, label);
    push_str(&mut m, "`: ");
    push_str(&mut m, blocker.reason());
    m
}

/// The status line after a removal: ``removed `x` `` and, with the branch,
/// `and its branch`.
pub fn removed_message(label: &str, with_branch: bool) -> (r: String)
    ensures
        r@ == "removed `"@ + label@ + "`"@ + (if with_branch {
            " and its branch"@
        } else {
            ""@
        }),
{
    let mut m = String::from_str("removed `");
    push_str(&mut m, label);
    push_str(&mut m, "`");
    if with_branch {
        push_str(&mut m, " and its branch");
    } else {
        push_str(&mut m, "");
    }
    m
}

/// The dialog's line about the branch: whether removing it too loses work.
pub fn branch_line(branch: &str, merged: bool) -> (r: String)
    ensures
        r@ == "  branch `"@ + branch@ + "` ("@ + (if merged {
            "merged"@
        } else {
            "NOT merged"@
        }) + ")"@,
{
    let mut m = String::from_str("  branch `");
    push_str(&mut m, branch);
    push_str(&mut m, "` (");
    if merged {
        push_str(&mut m, "merged");
    } else {
        push_str(&mut m, "NOT merged");
    }
    push_str(&mut m, ")");
    m
}

/// The status line when a confirmed removal failed: ``failed to remove `x`:
/// why``.
pub fn failed_message(label: &str, error: &str) -> (r: String)
    ensures
        r@ == "failed to remove `"@ + label@ + "`: "@ + error@,
{
    let mut m = String::from_str("failed to remove `");
    push_str(&mut m, label);
    push_str(&mut m, "`: ");
    push_str(&mut m, error);
    m
}

/// The confirmation dialog, one entry per screen line from the top: the
/// title, the path, the warning about uncommitted changes when there are
/// any, and the branch with whether it is merged when there is one.
pub fn dialog_lines(path: &str, dirty: bool, branch: &Option<String>, merged: bool) -> (r: Vec<
    String,
>)
    ensures
        r@.len() == 4 + (if dirty {
            1int
        } else {
            0int
        }) + (if branch is Some {
            1int
        } else {
            0int
        }),
        r@[0]@ == CONFIRM_TITLE@,
        r@[1]@.len() == 0,
        r@[2]@ == "  "@ + path@,
        r@[3]@.len() == 0,
        dirty ==> r@[4]@ == DIRTY_WARNING@,
        branch matches Some(b) ==> r@[r@.len() - 1]@ == "  branch `"@ + b@ + "` ("@ + (if merged {
            "merged"@
        } else {
            "NOT merged"@
        }) + ")"@,
{
    let mut out: Vec<String> = Vec::new();
    out.push(String::from_str(CONFIRM_TITLE));
    out.push(String::new());
    let mut p = String::from_str("  ");
    push_str(&mut p, path);
    out.push(p);
    out.push(String::new());
    if dirty {
        out.push(String::from_str(DIRTY_WARNING));
    }
    match branch {
        Some(b) => {
            out.push(branch_line(b.as_str(), merged));
        },
        None => {},
    }
    out
}

/// The dialog's keys: `b` only when there is a branch to remove too.
pub fn dialog_keys(has_branch: bool) -> (r: &'static str)
    ensures
        r@ == (if has_branch {
            KEYS_WITH_BRANCH@
        } else {
            KEYS_WITHOUT_BRANCH@
        }),
{
    if has_branch {
        KEYS_WITH_BRANCH
    } else {
        KEYS_WITHOUT_BRANCH
    }
}

} // verus!
