//! Handing a directory back to the shell.
//!
//! A process cannot change its parent's working directory, so `gwt` has to ask
//! the shell function from `gwt shell-init` to do it.
//!
//! The request travels through a file named by `GWT_CD_FILE` rather than
//! stdout. Stdout would work for `gwt cd`, whose only output *is* the path, but
//! not for `gwt list`, which prints a table the shell must not treat as a
//! destination.
use vstd::prelude::*;

use crate::text::push_char;

verus! {

/// Environment variable holding the path of the hand-off file.
pub const CD_FILE_VAR: &'static str = "GWT_CD_FILE";

/// Where the request goes: the hand-off file when the variable names one,
/// `None` (stdout) when it is unset or empty.
pub fn hand_off_file(var: Option<String>) -> (r: Option<String>)
    ensures
        match var {
            Some(f) => if f@.len() > 0 {
                r == Some(f)
            } else {
                r is None
            },
            None => r is None,
        },
{
    match var {
        Some(f) => {
            if f.as_str().is_empty() {
                None
            } else {
                Some(f)
            }
        },
        None => None,
    }
}

/// What is written: the path and a newline.
pub fn request_text(path: &str) -> (r: String)
    ensures
        r@ == path@.push('\n'),
{
    let mut r = String::from_str(path);
    push_char(&mut r, '\n');
    r
}

} // verus!
