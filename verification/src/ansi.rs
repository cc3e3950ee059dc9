//! The ANSI escape sequences the picker emits, as sequences of characters.
//!
//! The executable strings come from termion; the spec functions here say,
//! character by character, what those strings hold, so that the contracts of
//! the rendering functions can pin down entire frames.

use vstd::prelude::*;

verus! {

/// The escape sequence that switches the foreground color to green,
/// used to emphasize the currently selected option.
pub open spec fn green_fg_seq() -> Seq<char> {
    "\u{1b}[38;5;2m"@
}

/// The escape sequence that resets the foreground color to the default.
pub open spec fn reset_fg_seq() -> Seq<char> {
    "\u{1b}[39m"@
}

/// The escape sequence that clears everything from the cursor to the end
/// of the screen.
pub open spec fn clear_after_seq() -> Seq<char> {
    "\u{1b}[J"@
}

/// The character for one decimal digit value.
pub open spec fn digit_char(d: int) -> char {
    if d == 0 {
        '0'
    } else if d == 1 {
        '1'
    } else if d == 2 {
        '2'
    } else if d == 3 {
        '3'
    } else if d == 4 {
        '4'
    } else if d == 5 {
        '5'
    } else if d == 6 {
        '6'
    } else if d == 7 {
        '7'
    } else if d == 8 {
        '8'
    } else {
        '9'
    }
}

/// The decimal digits of a nonnegative number, most significant first,
/// without leading zeros (a lone zero for 0).
pub open spec fn decimal_seq(n: int) -> Seq<char>
    decreases n,
{
    if n < 10 {
        seq![digit_char(n)]
    } else {
        decimal_seq(n / 10).push(digit_char(n % 10))
    }
}

/// The escape sequence that moves the cursor up by `n` rows.
pub open spec fn cursor_up_seq(n: int) -> Seq<char> {
    "\u{1b}["@ + decimal_seq(n) + "A"@
}

/// Relies on termion::color::Green::fg_str, the ANSI escape that sets the
/// foreground color to green: `ESC [ 3 8 ; 5 ; 2 m`.
#[verifier::external_body]
pub(crate) fn green_fg() -> (r: String)
    ensures
        r@ == green_fg_seq(),
{
    termion::color::Green.fg_str().to_string()
}

/// Relies on termion::color::Reset::fg_str, the ANSI escape that resets the
/// foreground color: `ESC [ 3 9 m`.
#[verifier::external_body]
pub(crate) fn reset_fg() -> (r: String)
    ensures
        r@ == reset_fg_seq(),
{
    termion::color::Reset.fg_str().to_string()
}

/// Relies on the Display impl of termion::clear::AfterCursor, which writes
/// `ESC [ J`.
#[verifier::external_body]
pub(crate) fn clear_after() -> (r: String)
    ensures
        r@ == clear_after_seq(),
{
    format!("{}", termion::clear::AfterCursor)
}

/// Relies on the Display impl of termion::cursor::Up, which writes `ESC [`,
/// the row count in decimal, then `A`.
#[verifier::external_body]
pub(crate) fn cursor_up(n: u16) -> (r: String)
    ensures
        r@ == cursor_up_seq(n as int),
{
    format!("{}", termion::cursor::Up(n))
}

} // verus!
