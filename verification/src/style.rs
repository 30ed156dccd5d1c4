//! Terminal colors, through the `colored` crate.
//!
//! Whether `colored` emits escape codes depends on the terminal and the
//! environment (`NO_COLOR`, `CLICOLOR`, an explicit override), so a painted
//! string is known only up to that choice: either the text itself, or the
//! text between the style's opening sequence and the reset sequence.

use vstd::prelude::*;

use colored::Colorize;

use crate::text::contains_seq;

verus! {

/// The styles the interface uses.
#[derive(Debug, Clone, Copy, PartialEq, Eq, Structural)]
pub enum Paint {
    Bold,
    Dimmed,
    Green,
    Yellow,
    Cyan,
    Magenta,
    Red,
}

/// The SGR parameter of a style.
pub open spec fn sgr_code(p: Paint) -> Seq<char> {
    match p {
        Paint::Bold => seq!['1'],
        Paint::Dimmed => seq!['2'],
        Paint::Green => seq!['3', '2'],
        Paint::Yellow => seq!['3', '3'],
        Paint::Cyan => seq!['3', '6'],
        Paint::Magenta => seq!['3', '5'],
        Paint::Red => seq!['3', '1'],
    }
}

/// The sequence that ends any style.
pub open spec fn reset_sequence() -> Seq<char> {
    seq!['\u{1b}', '[', '0', 'm']
}

/// `text` wrapped in the escape sequences of style `p`.
pub open spec fn escaped(text: Seq<char>, p: Paint) -> Seq<char> {
    seq!['\u{1b}', '['] + sgr_code(p) + seq!['m'] + text + reset_sequence()
}

/// `out` is `text` shown in style `p`: with or without escape codes.
pub open spec fn painted(out: Seq<char>, text: Seq<char>, p: Paint) -> bool {
    out == text || out == escaped(text, p)
}

/// `colored` re-opens the style after any reset inside the text; texts
/// without one are painted plainly.
pub open spec fn plain_text(text: Seq<char>) -> bool {
    !contains_seq(text, reset_sequence())
}

/// Trusted: `Colorize::bold` then `to_string` (colored's `Display`), which
/// writes `\x1b[1m`, the text and `\x1b[0m`, or the text alone when colors are off.
#[verifier::external_body]
fn paint_bold(text: &str) -> (r: String)
    ensures
        plain_text(text@) ==> painted(r@, text@, Paint::Bold),
{
    text.bold().to_string()
}

/// Trusted: `Colorize::dimmed` then `to_string`; code `2`.
#[verifier::external_body]
fn paint_dimmed(text: &str) -> (r: String)
    ensures
        plain_text(text@) ==> painted(r@, text@, Paint::Dimmed),
{
    text.dimmed().to_string()
}

/// Trusted: `Colorize::green` then `to_string`; code `32`.
#[verifier::external_body]
fn paint_green(text: &str) -> (r: String)
    ensures
        plain_text(text@) ==> painted(r@, text@, Paint::Green),
{
    text.green().to_string()
}

/// Trusted: `Colorize::yellow` then `to_string`; code `33`.
#[verifier::external_body]
fn paint_yellow(text: &str) -> (r: String)
    ensures
        plain_text(text@) ==> painted(r@, text@, Paint::Yellow),
{
    text.yellow().to_string()
}

/// Trusted: `Colorize::cyan` then `to_string`; code `36`.
#[verifier::external_body]
fn paint_cyan(text: &str) -> (r: String)
    ensures
        plain_text(text@) ==> painted(r@, text@, Paint::Cyan),
{
    text.cyan().to_string()
}

/// Trusted: `Colorize::magenta` then `to_string`; code `35`.
#[verifier::external_body]
fn paint_magenta(text: &str) -> (r: String)
    ensures
        plain_text(text@) ==> painted(r@, text@, Paint::Magenta),
{
    text.magenta().to_string()
}

/// Trusted: `Colorize::red` then `to_string`; code `31`.
#[verifier::external_body]
fn paint_red(text: &str) -> (r: String)
    ensures
        plain_text(text@) ==> painted(r@, text@, Paint::Red),
{
    text.red().to_string()
}

/// `text` in style `p`.
pub fn paint(text: &str, p: Paint) -> (r: String)
    ensures
        plain_text(text@) ==> painted(r@, text@, p),
{
    match p {
        Paint::Bold => paint_bold(text),
        Paint::Dimmed => paint_dimmed(text),
        Paint::Green => paint_green(text),
        Paint::Yellow => paint_yellow(text),
        Paint::Cyan => paint_cyan(text),
        Paint::Magenta => paint_magenta(text),
        Paint::Red => paint_red(text),
    }
}

} // verus!
