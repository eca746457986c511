//! Colouring text for a terminal, through the `colored` crate.

use colored::ColoredString;
use colored::Colorize;
use vstd::prelude::*;
use crate::text::{contains_text, decimal};

verus! {

#[verifier::external_type_specification]
#[verifier::external_body]
pub struct ExColoredString(ColoredString);

/// The text that a `ColoredString` holds (its `input`, what it
/// dereferences to).
pub uninterp spec fn colored_input(c: ColoredString) -> Seq<char>;

/// The foreground colour of a `ColoredString` (its `fgcolor`), as the
/// number that selects it in a terminal: 0 where it has none, 30 to 37 and
/// 90 to 97 for the sixteen standard colours, -1 for a true colour.
pub uninterp spec fn colored_fg(c: ColoredString) -> int;

/// Whether a `ColoredString`'s style holds bold.
pub uninterp spec fn colored_bold(c: ColoredString) -> bool;

/// Whether a `ColoredString` has a background colour (`bgcolor`) or a style
/// other than bold.
pub uninterp spec fn colored_extra(c: ColoredString) -> bool;

/// The sequence that ends a coloured stretch of text.
pub open spec fn reset_code() -> Seq<char> {
    "\u{1b}[0m"@
}

/// The sequence that starts text in the foreground colour `fg` (none where
/// it is 0), bold or not: `ESC [`, then `1` for bold, a `;` between the
/// two where there are both, the colour's number, and `m`.
pub open spec fn style_prefix(fg: int, bold: bool) -> Seq<char> {
    "\u{1b}["@ + (if bold {
        "1"@
    } else {
        Seq::<char>::empty()
    }) + (if bold && fg > 0 {
        ";"@
    } else {
        Seq::<char>::empty()
    }) + (if fg > 0 {
        decimal(fg as nat)
    } else {
        Seq::<char>::empty()
    }) + "m"@
}

/// `r` shows `text` in the foreground colour `fg`, bold or not: `text` as
/// it is (where colouring is off, or there is nothing to paint), or
/// `text` between the sequence of that colour and style and the reset
/// sequence. Nothing is claimed where `text` itself holds a reset
/// sequence, which `colored` rewrites.
pub open spec fn painting(r: Seq<char>, text: Seq<char>, fg: int, bold: bool) -> bool {
    ||| contains_text(text, reset_code())
    ||| r == text
    ||| ((fg > 0 || bold) && r == style_prefix(fg, bold) + text + reset_code())
}

/// `Colorize::red` on a `&str`: the same text, to be shown red, with no
/// background and no style.
#[verifier::external_body]
pub(crate) fn red(s: &str) -> (r: ColoredString)
    ensures
        colored_input(r) == s@,
        colored_fg(r) == 31,
        !colored_bold(r),
        !colored_extra(r),
{
    s.red()
}

/// `Colorize::green` on a `&str`: the same text, to be shown green, with no
/// background and no style.
#[verifier::external_body]
pub(crate) fn green(s: &str) -> (r: ColoredString)
    ensures
        colored_input(r) == s@,
        colored_fg(r) == 32,
        !colored_bold(r),
        !colored_extra(r),
{
    s.green()
}

/// `Colorize::yellow` on a `&str`: the same text, to be shown yellow, with no
/// background and no style.
#[verifier::external_body]
pub(crate) fn yellow(s: &str) -> (r: ColoredString)
    ensures
        colored_input(r) == s@,
        colored_fg(r) == 33,
        !colored_bold(r),
        !colored_extra(r),
{
    s.yellow()
}

/// `Colorize::blue` on a `&str`: the same text, to be shown blue, with no
/// background and no style.
#[verifier::external_body]
pub(crate) fn blue(s: &str) -> (r: ColoredString)
    ensures
        colored_input(r) == s@,
        colored_fg(r) == 34,
        !colored_bold(r),
        !colored_extra(r),
{
    s.blue()
}

/// `Colorize::cyan` on a `&str`: the same text, to be shown cyan, with no
/// background and no style.
#[verifier::external_body]
pub(crate) fn cyan(s: &str) -> (r: ColoredString)
    ensures
        colored_input(r) == s@,
        colored_fg(r) == 36,
        !colored_bold(r),
        !colored_extra(r),
{
    s.cyan()
}

/// `Colorize::bright_yellow` on a `&str`: the same text, to be shown bright
/// yellow, with no background and no style.
#[verifier::external_body]
pub(crate) fn bright_yellow(s: &str) -> (r: ColoredString)
    ensures
        colored_input(r) == s@,
        colored_fg(r) == 93,
        !colored_bold(r),
        !colored_extra(r),
{
    s.bright_yellow()
}

/// `Colorize::bold` on a `ColoredString`: the same text and colours, also
/// bold.
#[verifier::external_body]
pub(crate) fn bold(c: ColoredString) -> (r: ColoredString)
    ensures
        colored_input(r) == colored_input(c),
        colored_fg(r) == colored_fg(c),
        colored_bold(r),
        colored_extra(r) == colored_extra(c),
{
    c.bold()
}

/// The text of a `ColoredString` as its `Display` writes it. Whether
/// colours are written depends on the terminal and the environment (and on
/// `colored::control::set_override`), so the contract says that the result
/// is the text either plain or in its colour and style; it says nothing of
/// a string with a background colour, another style or a true colour,
/// which the library does not make.
#[verifier::external_body]
pub(crate) fn shown(c: &ColoredString) -> (r: String)
    ensures
        !colored_extra(*c) && colored_fg(*c) >= 0 ==> painting(
            r@,
            colored_input(*c),
            colored_fg(*c),
            colored_bold(*c),
        ),
{
    c.to_string()
}

} // verus!
