//! `gwt init` — drop a `.gwt.toml` template into the main worktree.
use vstd::prelude::*;

use crate::text::push_str;

verus! {

/// Whether the template may be written: always where there is no file yet,
/// over an existing one only with `--force`.
pub fn may_write_template(present: bool, force: bool) -> (r: bool)
    ensures
        r == (!present || force),
{
    !present || force
}

/// The refusal when the file is already there.
pub fn exists_message(path: &str) -> (r: String)
    ensures
        r@ == path@ + " already exists (pass --force to overwrite)"@,
{
    let mut m = String::from_str(path);
    push_str(&mut m, " already exists (pass --force to overwrite)");
    m
}

} // verus!
