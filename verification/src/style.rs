//! Coloured terminal text, through crossterm's styling.

use crossterm::style::{Color, Stylize};
use vstd::prelude::*;

verus! {

/// The foreground colours the tool uses.
#[derive(Clone, Copy, PartialEq, Eq, Debug)]
pub enum Hue {
    Red,
    Yellow,
    Magenta,
    Green,
    Cyan,
    Blue,
    DarkGrey,
}

/// The colour parameters that crossterm writes for a foreground colour
/// (its 256-colour palette index).
pub open spec fn hue_code(h: Hue) -> Seq<char> {
    match h {
        Hue::Red => "5;9"@,
        Hue::Yellow => "5;11"@,
        Hue::Magenta => "5;13"@,
        Hue::Green => "5;10"@,
        Hue::Cyan => "5;14"@,
        Hue::Blue => "5;12"@,
        Hue::DarkGrey => "5;8"@,
    }
}

/// What crossterm may print for `text` in the foreground colour `h`:
/// the colour's escape sequence, the text, and the escape sequence that
/// resets the foreground; with colours turned off through `NO_COLOR`, empty
/// escape sequences around the text; on a Windows console without ANSI
/// support, nothing (crossterm then styles the console itself and writes no
/// text into the formatter).
pub open spec fn painted(text: Seq<char>, h: Hue, r: Seq<char>) -> bool {
    ||| r == "\x1b[38;"@ + hue_code(h) + "m"@ + text + "\x1b[39m"@
    ||| r == "\x1b[m"@ + text + "\x1b[m"@
    ||| r == Seq::<char>::empty()
}

/// What crossterm may print for `text` in bold and in the foreground colour
/// `h`: as `painted`, with the bold escape sequence after the colour and a
/// full reset after the text.
pub open spec fn painted_bold(text: Seq<char>, h: Hue, r: Seq<char>) -> bool {
    ||| r == "\x1b[38;"@ + hue_code(h) + "m\x1b[1m"@ + text + "\x1b[0m"@
    ||| r == "\x1b[m\x1b[1m"@ + text + "\x1b[0m"@
    ||| r == Seq::<char>::empty()
}

/// Formats `text` with crossterm's `Stylize::with` (the methods `red`,
/// `yellow`, ... of `Stylize` are `with` on the matching colour). What it
/// prints depends on the environment (`NO_COLOR`) and the console, so the
/// contract lists every outcome of the source rather than one.
#[verifier::external_body]
pub(crate) fn paint(text: &str, h: Hue) -> (r: String)
    ensures
        painted(text@, h, r@),
{
    let color = match h {
        Hue::Red => Color::Red,
        Hue::Yellow => Color::Yellow,
        Hue::Magenta => Color::Magenta,
        Hue::Green => Color::Green,
        Hue::Cyan => Color::Cyan,
        Hue::Blue => Color::Blue,
        Hue::DarkGrey => Color::DarkGrey,
    };
    format!("{}", text.with(color))
}

/// Formats `text` with crossterm's `Stylize::bold` and then a foreground
/// colour, as `"...".bold().blue()` does. As for `paint`, the contract lists
/// every outcome that the source allows.
#[verifier::external_body]
pub(crate) fn paint_bold(text: &str, h: Hue) -> (r: String)
    ensures
        painted_bold(text@, h, r@),
{
    let color = match h {
        Hue::Red => Color::Red,
        Hue::Yellow => Color::Yellow,
        Hue::Magenta => Color::Magenta,
        Hue::Green => Color::Green,
        Hue::Cyan => Color::Cyan,
        Hue::Blue => Color::Blue,
        Hue::DarkGrey => Color::DarkGrey,
    };
    format!("{}", text.bold().with(color))
}

} // verus!
