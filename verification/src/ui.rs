//! What the screen shows: the help line, the look of the input line and
//! the place of the cursor in it.

use crate::controls::InputMode;
use unicode_width::UnicodeWidthStr;
use vstd::prelude::*;

verus! {

/// The view that fills the main part of the screen.
#[derive(Copy, Clone, Debug, PartialEq, Eq, Structural)]
pub enum Screen {
    Board,
    Logs,
}

/// A stretch of the help line: its text, and whether it is shown in bold.
#[derive(Copy, Clone, Debug)]
pub struct HelpSpan {
    pub text: &'static str,
    pub bold: bool,
}

/// The number of terminal columns that a text takes up.
pub uninterp spec fn display_width(s: Seq<char>) -> nat;

/// The width of a text in terminal columns, by `UnicodeWidthStr::width` of
/// the crate unicode-width: the result is that crate's width of the text,
/// which depends on the text alone.
#[verifier::external_body]
fn width_of(s: &str) -> (w: usize)
    ensures
        w == display_width(s@),
{
    UnicodeWidthStr::width(s)
}

/// The texts of the help line and whether each is bold.
pub open spec fn help_text(mode: InputMode) -> Seq<(Seq<char>, bool)> {
    match mode {
        InputMode::Normal => seq![("QUIT: q CMD: i Board: 1 Logs: 2"@, true)],
        InputMode::Editing => seq![
            ("Press "@, false),
            ("Esc"@, true),
            (" to stop editing, "@, false),
            ("Enter"@, true),
            (" to send CMD"@, false),
        ],
    }
}

/// The column of the cursor: one past the border of the input box and
/// past the text, whose width counts modulo 65536.
pub open spec fn cursor_column(x: int, width: int) -> int {
    x + width % 0x10000 + 1
}

/// Whether the cursor's column and row both fit a terminal coordinate.
pub open spec fn cursor_fits(x: int, y: int, width: int) -> bool {
    cursor_column(x, width) <= u16::MAX && y + 1 <= u16::MAX
}

/// The help line for an input mode.
pub fn help_message(mode: InputMode) -> (spans: Vec<HelpSpan>)
    ensures
        spans@.len() == help_text(mode).len(),
        forall|i: int|
            0 <= i < spans@.len() ==> (#[trigger] spans@[i]).text@ == help_text(mode)[i].0
                && spans@[i].bold == help_text(mode)[i].1,
{
    let mut spans: Vec<HelpSpan> = Vec::new();
    match mode {
        InputMode::Normal => {
            spans.push(HelpSpan { text: "QUIT: q CMD: i Board: 1 Logs: 2", bold: true });
        },
        InputMode::Editing => {
            spans.push(HelpSpan { text: "Press ", bold: false });
            spans.push(HelpSpan { text: "Esc", bold: true });
            spans.push(HelpSpan { text: " to stop editing, ", bold: false });
            spans.push(HelpSpan { text: "Enter", bold: true });
            spans.push(HelpSpan { text: " to send CMD", bold: false });
        },
    }
    spans
}

/// Whether the help line blinks: it does in normal mode.
pub fn help_blinks(mode: InputMode) -> (r: bool)
    ensures
        r == (mode == InputMode::Normal),
{
    match mode {
        InputMode::Normal => true,
        InputMode::Editing => false,
    }
}

/// Whether the input line is highlighted: it is while editing.
pub fn input_highlighted(mode: InputMode) -> (r: bool)
    ensures
        r == (mode == InputMode::Editing),
{
    match mode {
        InputMode::Normal => false,
        InputMode::Editing => true,
    }
}

/// The place of the cursor in an input box whose corner is at column `x`
/// and row `y`, behind a text of the given width.
pub fn cursor_at(x: u16, y: u16, width: usize) -> (at: (u16, u16))
    requires
        cursor_fits(x as int, y as int, width as int),
    ensures
        at.0 == cursor_column(x as int, width as int),
        at.1 == y + 1,
{
    let w: u16 = (width % 0x10000) as u16;
    (x + w + 1, y + 1)
}

/// The place of the cursor behind the input line; none where it would lie
/// beyond the last terminal coordinate.
pub fn cursor(x: u16, y: u16, input: &str) -> (at: Option<(u16, u16)>)
    ensures
        at == (if cursor_fits(x as int, y as int, display_width(input@) as int) {
            Some((cursor_column(x as int, display_width(input@) as int) as u16, (y + 1) as u16))
        } else {
            None
        }),
{
    let width = width_of(input);
    let w: usize = width % 0x10000;
    if w < 0xffff && x <= 0xffff - 1 - (w as u16) && y < 0xffff {
        Some(cursor_at(x, y, width))
    } else {
        None
    }
}

} // verus!
