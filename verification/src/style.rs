//! Terminal styling through the `colored` crate.
//!
//! `colored` decides at run time whether to colour at all (from `NO_COLOR`,
//! `CLICOLOR`, `CLICOLOR_FORCE`, whether standard output is a terminal, and
//! any override set in the process), so each styled text has two possible
//! outcomes: the text as it is, or the text painted with one style.

use vstd::prelude::*;
use colored::Colorize;
use crate::decimal::decimal;

verus! {

/// The escape sequence `ESC [ code m`.
pub open spec fn sgr(code: Seq<char>) -> Seq<char> {
    seq!['\x1b', '['] + code + seq!['m']
}

/// The escape sequence that clears every style.
pub open spec fn sgr_reset() -> Seq<char> {
    sgr(seq!['0'])
}

/// `s` with `style` put again after each reset sequence in it, so that a
/// reset inside the text does not end the outer style.
pub open spec fn restyle_after_resets(s: Seq<char>, style: Seq<char>) -> Seq<char>
    decreases s.len(),
{
    if s.len() == 0 {
        s
    } else if s.len() >= 4 && s.take(4) == sgr_reset() {
        sgr_reset() + style + restyle_after_resets(s.skip(4), style)
    } else {
        seq![s[0]] + restyle_after_resets(s.drop_first(), style)
    }
}

/// `s` painted with the style whose parameters are `code`.
pub open spec fn painted(s: Seq<char>, code: Seq<char>) -> Seq<char> {
    sgr(code) + restyle_after_resets(s, sgr(code)) + sgr_reset()
}

/// `r` is a possible rendering of `s` styled with `code`.
pub open spec fn paint_outcome(s: Seq<char>, code: Seq<char>, r: Seq<char>) -> bool {
    r == s || r == painted(s, code)
}

/// The style parameters of green text.
pub open spec fn green_code() -> Seq<char> {
    seq!['3', '2']
}

/// The style parameters of bold, bright white text.
pub open spec fn bold_bright_white_code() -> Seq<char> {
    seq!['1', ';', '9', '7']
}

/// The style parameters of the 24-bit colour `(r, g, b)`.
pub open spec fn truecolor_code(r: u8, g: u8, b: u8) -> Seq<char> {
    seq!['3', '8', ';', '2', ';'] + decimal(r as nat) + seq![';'] + decimal(g as nat) + seq![';']
        + decimal(b as nat)
}

/// The style parameters of one of the sixteen basic foreground colours.
pub open spec fn basic_fg_code(code: Seq<char>) -> bool {
    &&& code.len() == 2
    &&& code[0] == '3' || code[0] == '9'
    &&& '0' <= code[1] <= '7'
}

/// `r` is a possible rendering of `s` in the 24-bit colour `(red, green,
/// blue)`: plain, in that colour, or in the basic colour that stands in for
/// it where the terminal does not announce 24-bit colour.
pub open spec fn truecolor_outcome(s: Seq<char>, red: u8, green: u8, blue: u8, r: Seq<char>) -> bool {
    ||| r == s
    ||| r == painted(s, truecolor_code(red, green, blue))
    ||| exists|code: Seq<char>| basic_fg_code(code) && r == #[trigger] painted(s, code)
}

/// `Colorize::green` of `colored`, shown with `Display`: the text as it is
/// when colouring is off, else the text in green.
#[verifier::external_body]
pub fn paint_green(s: &str) -> (r: String)
    ensures
        paint_outcome(s@, green_code(), r@),
{
    format!("{}", s.green())
}

/// `Colorize::bright_white` then `Colorize::bold` of `colored`, shown with
/// `Display`: the text as it is when colouring is off, else the text in
/// bold bright white.
#[verifier::external_body]
pub fn paint_bold_bright_white(s: &str) -> (r: String)
    ensures
        paint_outcome(s@, bold_bright_white_code(), r@),
{
    format!("{}", s.bright_white().bold())
}

/// `Colorize::truecolor` of `colored`, shown with `Display`: the text as it
/// is when colouring is off; else in the colour `(red, green, blue)` when
/// `COLORTERM` announces 24-bit colour, and in the nearest basic colour
/// otherwise. Which basic colour that is, is not stated.
#[verifier::external_body]
pub fn paint_truecolor(s: &str, red: u8, green: u8, blue: u8) -> (r: String)
    ensures
        truecolor_outcome(s@, red, green, blue, r@),
{
    format!("{}", s.truecolor(red, green, blue))
}

} // verus!
