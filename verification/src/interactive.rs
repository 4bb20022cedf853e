//! Whether the command line may prompt, and the guard placed at the entry of
//! every interactive flow.
//!
//! The setting is decided once at start-up and handed to these functions by the
//! caller; when it was never recorded the command line counts as interactive.
use vstd::prelude::*;

use crate::text::push_str;

verus! {

/// The start-up decision: prompting is off when `--non-interactive` was given,
/// when `JIRAC_NON_INTERACTIVE` is set, or when stdin is not a terminal.
pub fn non_interactive_setting(flag: bool, env_var_set: bool, stdin_is_terminal: bool) -> (r: bool)
    ensures
        r == (flag || env_var_set || !stdin_is_terminal),
{
    flag || env_var_set || !stdin_is_terminal
}

/// Whether prompting is off, given the setting recorded at start-up (`None`
/// when nothing was recorded).
pub fn is_non_interactive(recorded: Option<bool>) -> (r: bool)
    ensures
        r == (recorded == Some(true)),
{
    match recorded {
        Some(v) => v,
        None => false,
    }
}

/// The refusal given instead of a prompt for `what`, pointing at `flag`.
pub open spec fn refusal_text(what: Seq<char>, flag: Seq<char>) -> Seq<char> {
    "cannot prompt for "@ + what + ": no interactive terminal. Pass "@ + flag
        + " instead (or run without --non-interactive on a terminal)."@
}

/// The guard of an interactive flow: `what` names the thing asked for, `flag`
/// the option that supplies it without a prompt.
pub fn require_interactive(recorded: Option<bool>, what: &str, flag: &str) -> (r: Result<(), String>)
    ensures
        r is Err <==> recorded == Some(true),
        r matches Err(m) ==> m@ == refusal_text(what@, flag@),
{
    if is_non_interactive(recorded) {
        let mut m = String::new();
        push_str(&mut m, "cannot prompt for ");
        push_str(&mut m, what);
        push_str(&mut m, ": no interactive terminal. Pass ");
        push_str(&mut m, flag);
        push_str(&mut m, " instead (or run without --non-interactive on a terminal).");
        return Err(m);
    }
    Ok(())
}

} // verus!
