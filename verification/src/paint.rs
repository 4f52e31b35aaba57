//! Terminal colours for short texts.

use colored::Colorize;
use vstd::prelude::*;

verus! {

/// The colours that the port lists use.
#[derive(Clone, Copy, Debug, PartialEq, Eq, Structural)]
pub enum Tint {
    /// A port that accepts connections.
    Green,
    /// A port that does not.
    Red,
    /// The placeholder shown when there is no port.
    Dim,
}

/// The escape character that starts a terminal control sequence.
pub open spec fn escape_char() -> char {
    '\u{1b}'
}

/// The control sequence that switches a colour on.
pub open spec fn tint_on(tint: Tint) -> Seq<char> {
    match tint {
        Tint::Green => seq![escape_char(), '[', '3', '2', 'm'],
        Tint::Red => seq![escape_char(), '[', '3', '1', 'm'],
        Tint::Dim => seq![escape_char(), '[', '9', '0', 'm'],
    }
}

/// The control sequence that switches all colours off.
pub open spec fn tint_off() -> Seq<char> {
    seq![escape_char(), '[', '0', 'm']
}

/// `out` is `text` in the colour `tint`, or `text` itself where colours are
/// switched off.
pub open spec fn tinted(out: Seq<char>, text: Seq<char>, tint: Tint) -> bool {
    out == text || out == tint_on(tint) + text + tint_off()
}

/// `Colorize::green` of the crate `colored`, written out as a `String`.
/// Whether that crate colours at all depends on the environment and on its
/// global override, so either outcome is allowed for: the text between the
/// escape sequence for green and the reset sequence, or the text as it is.
/// A text that holds an escape character is left out, because a reset
/// sequence inside it would be rewritten.
#[verifier::external_body]
pub(crate) fn paint_green(text: &str) -> (r: String)
    requires
        !text@.contains(escape_char()),
    ensures
        tinted(r@, text@, Tint::Green),
{
    text.green().to_string()
}

/// `Colorize::red` of the crate `colored`, written out as a `String`: the
/// text between the escape sequence for red and the reset sequence, or the
/// text as it is where colours are switched off.
#[verifier::external_body]
pub(crate) fn paint_red(text: &str) -> (r: String)
    requires
        !text@.contains(escape_char()),
    ensures
        tinted(r@, text@, Tint::Red),
{
    text.red().to_string()
}

/// `Colorize::bright_black` of the crate `colored`, written out as a
/// `String`: the text between the escape sequence for bright black and the
/// reset sequence, or the text as it is where colours are switched off.
#[verifier::external_body]
pub(crate) fn paint_dim(text: &str) -> (r: String)
    requires
        !text@.contains(escape_char()),
    ensures
        tinted(r@, text@, Tint::Dim),
{
    text.bright_black().to_string()
}

} // verus!
