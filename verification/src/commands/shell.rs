//! `gwt shell-init` / `gwt completion` — shell integration.
use vstd::prelude::*;

use crate::cli::Shell;

verus! {

/// Environment variable the completion stubs use to ask gwt for candidates.
pub const COMPLETE_VAR: &'static str = "COMPLETE";

/// Wrapper function that turns a chosen worktree into a real directory change.
///
/// A child process cannot move its parent shell, so `gwt` writes the directory
/// it wants into the file named by `GWT_CD_FILE` and the function below reads
/// it. Going through a file rather than stdout leaves `gwt list` free to print
/// its table, and keeps `gwt list --paths | peco` streaming as before.
///
/// Only the subcommands that can ask for a `cd` pay for the temporary file.
pub const POSIX_FUNCTION: &'static str = r#"
gwt() {
    case "${1-}" in
        cd|list|ls)
            __gwt_file="$(mktemp "${TMPDIR:-/tmp}/gwt-cd.XXXXXX")" || return 1
            GWT_CD_FILE="$__gwt_file" command gwt "$@"
            __gwt_status=$?
            __gwt_target="$(cat "$__gwt_file" 2>/dev/null)"
            rm -f "$__gwt_file"
            unset __gwt_file
            if [ "$__gwt_status" -eq 0 ] && [ -n "$__gwt_target" ]; then
                cd "$__gwt_target" || { unset __gwt_target; return 1; }
            fi
            unset __gwt_target
            return "$__gwt_status"
            ;;
        *)
            command gwt "$@"
            ;;
    esac
}
"#;

pub const FISH_FUNCTION: &'static str = r#"
function gwt --wraps gwt --description 'git worktree manager'
    if test (count $argv) -ge 1; and contains -- "$argv[1]" cd list ls
        set -l __gwt_file (mktemp "$TMPDIR"/gwt-cd.XXXXXX 2>/dev/null; or mktemp /tmp/gwt-cd.XXXXXX)
        GWT_CD_FILE=$__gwt_file command gwt $argv
        set -l __gwt_status $status
        set -l __gwt_target (cat $__gwt_file 2>/dev/null)
        rm -f $__gwt_file
        if test $__gwt_status -eq 0; and test -n "$__gwt_target"
            cd $__gwt_target
        end
        return $__gwt_status
    else
        command gwt $argv
    end
end
"#;

/// The `cd` wrapper for a shell: the POSIX one for bash and zsh, its own
/// for fish.
pub fn shell_function(shell: Shell) -> (r: &'static str)
    ensures
        r@ == (if shell == Shell::Fish {
            FISH_FUNCTION@
        } else {
            POSIX_FUNCTION@
        }),
{
    match shell {
        Shell::Bash | Shell::Zsh => POSIX_FUNCTION,
        Shell::Fish => FISH_FUNCTION,
    }
}

} // verus!
