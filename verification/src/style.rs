//! Colours and weights for the terminal.

use vstd::prelude::*;

verus! {

/// `s` between the escape sequence for a foreground colour and the one that
/// goes back to the default.
pub open spec fn coloured(code: Seq<char>, s: Seq<char>) -> Seq<char> {
    "\x1b["@ + code + "m"@ + s + "\x1b[39m"@
}

/// `s` between the escape sequence for an effect and the one that resets all.
pub open spec fn styled(code: Seq<char>, s: Seq<char>) -> Seq<char> {
    "\x1b["@ + code + "m"@ + s + "\x1b[0m"@
}

/// `s` in green.
pub open spec fn green(s: Seq<char>) -> Seq<char> {
    coloured("32"@, s)
}

/// `s` in yellow.
pub open spec fn yellow(s: Seq<char>) -> Seq<char> {
    coloured("33"@, s)
}

/// `s` in red.
pub open spec fn red(s: Seq<char>) -> Seq<char> {
    coloured("31"@, s)
}

/// `s` in magenta.
pub open spec fn magenta(s: Seq<char>) -> Seq<char> {
    coloured("35"@, s)
}

/// `s` in bold.
pub open spec fn bold(s: Seq<char>) -> Seq<char> {
    styled("1"@, s)
}

/// `s` dimmed.
pub open spec fn dimmed(s: Seq<char>) -> Seq<char> {
    styled("2"@, s)
}

/// `s` in italics.
pub open spec fn italic(s: Seq<char>) -> Seq<char> {
    styled("3"@, s)
}

/// `owo_colors::OwoColorize::green`: shows the text after the sequence for a
/// green foreground and before the one for the default foreground.
#[verifier::external_body]
pub(crate) fn paint_green(s: &str) -> (r: String)
    ensures
        r@ == green(s@),
{
    owo_colors::OwoColorize::green(&s).to_string()
}

/// `owo_colors::OwoColorize::yellow`: shows the text after the sequence for a
/// yellow foreground and before the one for the default foreground.
#[verifier::external_body]
pub(crate) fn paint_yellow(s: &str) -> (r: String)
    ensures
        r@ == yellow(s@),
{
    owo_colors::OwoColorize::yellow(&s).to_string()
}

/// `owo_colors::OwoColorize::red`: shows the text after the sequence for a red
/// foreground and before the one for the default foreground.
#[verifier::external_body]
pub(crate) fn paint_red(s: &str) -> (r: String)
    ensures
        r@ == red(s@),
{
    owo_colors::OwoColorize::red(&s).to_string()
}

/// `owo_colors::OwoColorize::magenta`: shows the text after the sequence for a
/// magenta foreground and before the one for the default foreground.
#[verifier::external_body]
pub(crate) fn paint_magenta(s: &str) -> (r: String)
    ensures
        r@ == magenta(s@),
{
    owo_colors::OwoColorize::magenta(&s).to_string()
}

/// `owo_colors::OwoColorize::bold`: shows the text after the sequence for bold
/// and before the one that resets everything.
#[verifier::external_body]
pub(crate) fn embolden(s: &str) -> (r: String)
    ensures
        r@ == bold(s@),
{
    owo_colors::OwoColorize::bold(&s).to_string()
}

/// `owo_colors::OwoColorize::dimmed`: shows the text after the sequence for
/// dimmed and before the one that resets everything.
#[verifier::external_body]
pub(crate) fn dim(s: &str) -> (r: String)
    ensures
        r@ == dimmed(s@),
{
    owo_colors::OwoColorize::dimmed(&s).to_string()
}

/// `owo_colors::OwoColorize::italic`: shows the text after the sequence for
/// italics and before the one that resets everything.
#[verifier::external_body]
pub(crate) fn italicize(s: &str) -> (r: String)
    ensures
        r@ == italic(s@),
{
    owo_colors::OwoColorize::italic(&s).to_string()
}

} // verus!
