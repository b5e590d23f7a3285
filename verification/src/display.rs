//! What the screen shows: one line of text for each recorded time, or a
//! prompt while there is none, and the room left above the text.

use vstd::prelude::*;
use vstd::string::*;
use crate::model::NANOS_PER_MILLI;
use crate::state::AppState;

verus! {

/// Rows of the screen that the frame around the text takes: one above, one
/// below.
pub const FRAME_ROWS: u16 = 2;

/// The decimal digit for `d`, which is below ten.
pub open spec fn digit(d: nat) -> char
    recommends
        d < 10,
{
    "0123456789"@[d as int]
}

/// `n` written in decimal, without leading zeros.
pub open spec fn decimal(n: nat) -> Seq<char>
    decreases n,
{
    if n < 10 {
        seq![digit(n)]
    } else {
        decimal(n / 10).push(digit(n % 10))
    }
}

/// The number that a decimal digit stands for.
pub open spec fn digit_value(c: char) -> nat
    recommends
        '0' <= c <= '9',
{
    (c as nat - '0' as nat) as nat
}

/// The number that a text of decimal digits stands for.
pub open spec fn decimal_value(text: Seq<char>) -> nat
    decreases text.len(),
{
    if text.len() == 0 {
        0
    } else {
        decimal_value(text.drop_last()) * 10 + digit_value(text.last())
    }
}

/// `decimal` writes a number as one reads it: the text is not empty, holds
/// digits only, has no leading zero but for zero itself, and stands for the
/// number that was written.
pub proof fn lemma_decimal_reads_back(n: nat)
    ensures
        decimal(n).len() >= 1,
        forall|i: int| 0 <= i < decimal(n).len() ==> '0' <= #[trigger] decimal(n)[i] <= '9',
        n > 0 ==> decimal(n)[0] != '0',
        decimal_value(decimal(n)) == n,
    decreases n,
{
    reveal_strlit("0123456789");
    if n < 10 {
        assert(decimal(n).drop_last() =~= Seq::<char>::empty());
        assert(decimal_value(decimal(n).drop_last()) == 0);
    } else {
        lemma_decimal_reads_back(n / 10);
        assert(decimal(n).drop_last() =~= decimal(n / 10));
    }
}

/// The line for one recorded time: its whole milliseconds, then the unit.
pub open spec fn interval_line(nanos: nat) -> Seq<char> {
    decimal(nanos / (NANOS_PER_MILLI as nat)) + " ms"@
}

/// The line shown while nothing is recorded.
pub open spec fn prompt() -> Seq<char> {
    "please click the mouse!"@
}

/// The lines on the screen, top to bottom: the prompt while the list is
/// empty, else one line per recorded time, in the order of the list.
pub open spec fn display_text(recorded: Seq<nat>) -> Seq<Seq<char>> {
    if recorded.len() == 0 {
        seq![prompt()]
    } else {
        Seq::new(recorded.len(), |i: int| interval_line(recorded[i]))
    }
}

/// The empty rows above the text that centre `entries` lines in a framed
/// screen of `height` rows: half of the rows that are left, rounded down.
/// There is none to give where the frame and the lines do not fit.
pub open spec fn centred_padding(height: nat, entries: nat) -> Option<nat> {
    if entries + FRAME_ROWS <= height {
        Some(((height - (entries + FRAME_ROWS)) / 2) as nat)
    } else {
        None
    }
}

/// The text of one decimal digit.
fn digit_text(d: u128) -> (text: &'static str)
    requires
        d < 10,
    ensures
        text@ == seq![digit(d as nat)],
{
    proof {
        reveal_strlit("0123456789");
        reveal_strlit("0");
        reveal_strlit("1");
        reveal_strlit("2");
        reveal_strlit("3");
        reveal_strlit("4");
        reveal_strlit("5");
        reveal_strlit("6");
        reveal_strlit("7");
        reveal_strlit("8");
        reveal_strlit("9");
    }
    if d == 0 {
        "0"
    } else if d == 1 {
        "1"
    } else if d == 2 {
        "2"
    } else if d == 3 {
        "3"
    } else if d == 4 {
        "4"
    } else if d == 5 {
        "5"
    } else if d == 6 {
        "6"
    } else if d == 7 {
        "7"
    } else if d == 8 {
        "8"
    } else {
        "9"
    }
}

/// Appends `n` in decimal to `text`.
fn append_decimal(text: &mut String, n: u128)
    ensures
        final(text)@ == old(text)@ + decimal(n as nat),
    decreases n,
{
    if n >= 10 {
        append_decimal(text, n / 10);
    }
    text.append(digit_text(n % 10));
    assert(text@ =~= old(text)@ + decimal(n as nat));
}

/// The line of text for one recorded time, given in nanoseconds.
pub fn format_interval(nanos: u128) -> (line: String)
    ensures
        line@ == interval_line(nanos as nat),
{
    let mut line = String::new();
    append_decimal(&mut line, nanos / NANOS_PER_MILLI);
    line.append(" ms");
    line
}

/// The lines to show for the tracker as it stands.
pub fn display_lines(app: &AppState) -> (lines: Vec<String>)
    ensures
        lines.deep_view() == display_text(app@.recorded),
{
    let recorded = app.snapshot();
    let mut lines: Vec<String> = Vec::new();
    if recorded.len() == 0 {
        lines.push("please click the mouse!".to_owned());
    } else {
        let mut i: usize = 0;
        while i < recorded.len()
            invariant
                i <= recorded.len(),
                lines.len() == i,
                forall|k: int| 0 <= k < i ==> lines[k]@ == interval_line(recorded[k] as nat),
            decreases recorded.len() - i,
        {
            lines.push(format_interval(recorded[i]));
            i += 1;
        }
    }
    assert(lines.deep_view() =~= display_text(app@.recorded));
    lines
}

/// The empty rows to leave above the text on a screen of `height` rows, or
/// `None` where the screen is too low for the frame and the recorded lines.
pub fn padding_top(app: &AppState, height: u16) -> (padding: Option<u16>)
    ensures
        match padding {
            Some(rows) => centred_padding(height as nat, app@.recorded.len()) == Some(rows as nat),
            None => centred_padding(height as nat, app@.recorded.len()) is None,
        },
{
    let entries = app.snapshot().len();
    if height >= FRAME_ROWS && entries <= (height - FRAME_ROWS) as usize {
        Some((height - FRAME_ROWS - entries as u16) / 2)
    } else {
        None
    }
}

} // verus!
