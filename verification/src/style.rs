//! Terminal styling for the questions put to the author, done by the
//! `owo-colors` crate.

use vstd::prelude::*;

verus! {

/// Text set in bold: switched on before it, all attributes reset after it.
pub open spec fn bold(text: Seq<char>) -> Seq<char> {
    "\x1b[1m"@ + text + "\x1b[0m"@
}

/// Text set in green: the colour before it, the default foreground after it.
pub open spec fn green(text: Seq<char>) -> Seq<char> {
    "\x1b[32m"@ + text + "\x1b[39m"@
}

/// Text set in blue: the colour before it, the default foreground after it.
pub open spec fn blue(text: Seq<char>) -> Seq<char> {
    "\x1b[34m"@ + text + "\x1b[39m"@
}

/// Calls `OwoColorize::bold` and formats the result. Trusted: the crate writes
/// the escape sequence `ESC[1m`, then the text unchanged, then `ESC[0m`.
#[verifier::external_body]
pub(crate) fn in_bold(text: &str) -> (styled: String)
    ensures
        styled@ == bold(text@),
{
    format!("{}", owo_colors::OwoColorize::bold(&text))
}

/// Calls `OwoColorize::green` and formats the result. Trusted: the crate
/// writes the escape sequence `ESC[32m`, then the text unchanged, then
/// `ESC[39m`.
#[verifier::external_body]
pub(crate) fn in_green(text: &str) -> (styled: String)
    ensures
        styled@ == green(text@),
{
    format!("{}", owo_colors::OwoColorize::green(&text))
}

/// Calls `OwoColorize::blue` and formats the result. Trusted: the crate writes
/// the escape sequence `ESC[34m`, then the text unchanged, then `ESC[39m`.
#[verifier::external_body]
pub(crate) fn in_blue(text: &str) -> (styled: String)
    ensures
        styled@ == blue(text@),
{
    format!("{}", owo_colors::OwoColorize::blue(&text))
}

} // verus!
