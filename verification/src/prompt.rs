//! The looks of the prompt.

use vstd::prelude::*;
use vstd::string::StringExecFns;

verus! {

/// `text` in bold green.
pub open spec fn green_of(text: Seq<char>) -> Seq<char> {
    "\x1b[1;32m"@ + text + "\x1b[0m"@
}

/// `text` in bold.
pub open spec fn bold_of(text: Seq<char>) -> Seq<char> {
    "\x1b[1m"@ + text + "\x1b[m"@
}

/// The prompt of the interpreter.
pub fn plain() -> (prompt: String)
    ensures
        prompt@ == "> "@,
{
    String::from_str("> ")
}

/// Wraps `text` in the escape sequences for bold green.
pub fn green(text: &str) -> (shown: String)
    ensures
        shown@ == green_of(text@),
{
    String::from_str("\x1b[1;32m").concat(text).concat("\x1b[0m")
}

/// Wraps `text` in the escape sequences for bold.
pub fn bold(text: &str) -> (shown: String)
    ensures
        shown@ == bold_of(text@),
{
    String::from_str("\x1b[1m").concat(text).concat("\x1b[m")
}

/// The prompt to show: the colored one for the interpreter's own prompt,
/// and any other prompt as it is.
pub fn shown<'a>(colored: &'a str, prompt: &'a str, default: bool) -> (text: &'a str)
    ensures
        text@ == if default {
            colored@
        } else {
            prompt@
        },
{
    if default {
        colored
    } else {
        prompt
    }
}

} // verus!
