//! Messages for a terminal, coloured with ANSI escape sequences.

use vstd::prelude::*;

verus! {

/// `msg` behind a red `Error:` label.
pub open spec fn error_text(msg: Seq<char>) -> Seq<char> {
    "\x1b[91mError:\x1b[0m "@ + msg
}

/// `msg` in yellow.
pub open spec fn warning_text(msg: Seq<char>) -> Seq<char> {
    "\x1b[93m"@ + msg + "\x1b[0m"@
}

/// `msg` in blue.
pub open spec fn highlight_text(msg: Seq<char>) -> Seq<char> {
    "\x1b[94m"@ + msg + "\x1b[0m"@
}

/// Returns a formatted error message: `msg` behind a red `Error:` label.
pub fn make_error_message(msg: String) -> (text: String)
    ensures
        text@ == error_text(msg@),
{
    String::from_str("\x1b[91mError:\x1b[0m ").concat(msg.as_str())
}

/// Returns a formatted warning message: `msg` in yellow.
pub fn make_warning_message(msg: String) -> (text: String)
    ensures
        text@ == warning_text(msg@),
{
    String::from_str("\x1b[93m").concat(msg.as_str()).concat("\x1b[0m")
}

/// Formats the given string to appear in blue.
pub fn highlight_message(msg: String) -> (text: String)
    ensures
        text@ == highlight_text(msg@),
{
    String::from_str("\x1b[94m").concat(msg.as_str()).concat("\x1b[0m")
}

} // verus!
