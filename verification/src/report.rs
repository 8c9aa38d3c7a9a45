//! The words that are shown for a file: its path as a header, then a
//! verdict, `ok` in green or `failed` in red with a reason in brackets.

use vstd::prelude::*;
use vstd::string::StringExecFns;
use nu_ansi_term::Color;

verus! {

/// `text` in green: between the escape sequence that switches to a green
/// foreground and the one that resets.
pub open spec fn in_green(text: Seq<char>) -> Seq<char> {
    "\u{1b}[32m"@ + text + "\u{1b}[0m"@
}

/// `text` in red: between the escape sequence that switches to a red
/// foreground and the one that resets.
pub open spec fn in_red(text: Seq<char>) -> Seq<char> {
    "\u{1b}[31m"@ + text + "\u{1b}[0m"@
}

/// The header for a path: the path, a colon and a space.
pub open spec fn header_text(path: Seq<char>) -> Seq<char> {
    path + ": "@
}

/// The verdict on a file that was tagged.
pub open spec fn ok_text() -> Seq<char> {
    in_green("ok"@)
}

/// The verdict on a file that was not tagged, for the given reason.
pub open spec fn failed_text(reason: Seq<char>) -> Seq<char> {
    in_red("failed"@) + " ("@ + reason + ")"@
}

/// `nu_ansi_term::Color::paint` on `Color::Green`, shown as a string: the
/// text between the code for a green foreground and the reset code.
#[verifier::external_body]
fn paint_green(text: &str) -> (out: String)
    ensures
        out@ == in_green(text@),
{
    Color::Green.paint(text).to_string()
}

/// `nu_ansi_term::Color::paint` on `Color::Red`, shown as a string: the text
/// between the code for a red foreground and the reset code.
#[verifier::external_body]
fn paint_red(text: &str) -> (out: String)
    ensures
        out@ == in_red(text@),
{
    Color::Red.paint(text).to_string()
}

/// The header that is shown for `path`.
pub fn header(path: &str) -> (out: String)
    ensures
        out@ == header_text(path@),
{
    let mut out = String::from_str(path);
    out.append(": ");
    out
}

/// The verdict that is shown for a file that was tagged.
pub fn verdict_ok() -> (out: String)
    ensures
        out@ == ok_text(),
{
    paint_green("ok")
}

/// The verdict that is shown for a file that was not tagged.
pub fn verdict_failed(reason: &str) -> (out: String)
    ensures
        out@ == failed_text(reason@),
{
    let mut out = paint_red("failed");
    out.append(" (");
    out.append(reason);
    out.append(")");
    out
}

} // verus!
