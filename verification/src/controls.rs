//! Keyboard control: what a key does to the input line, the input mode
//! and the game.
//!
//! In normal mode `i` starts editing and `q` quits. While editing, a
//! character is added to the input line, backspace takes the last one
//! away, escape goes back to normal mode, and enter sends the line to the
//! game as a move request and clears it. Any other key does nothing.

use crate::game::GameState;
use crate::game::texts;
use crate::moves::Move;
use crate::notation::parsed;
use crate::state::MoveError;
use vstd::prelude::*;

verus! {

/// What the program does after a key was handled.
#[derive(Copy, Clone, Debug, PartialEq, Eq, Structural)]
pub enum Controls {
    Continue,
    Quit,
}

/// Whether keys are commands or text for the input line.
#[derive(Copy, Clone, Debug, PartialEq, Eq, Structural)]
pub enum InputMode {
    Editing,
    Normal,
}

/// A key of the keyboard, as far as the program tells keys apart.
#[derive(Copy, Clone, Debug, PartialEq, Eq, Structural)]
pub enum Key {
    Char(char),
    Enter,
    Backspace,
    Esc,
    Other,
}

/// The input mode after a key.
pub open spec fn mode_after(mode: InputMode, key: Option<Key>) -> InputMode {
    match (mode, key) {
        (InputMode::Normal, Some(Key::Char(c))) => if c == 'i' {
            InputMode::Editing
        } else {
            InputMode::Normal
        },
        (InputMode::Editing, Some(Key::Esc)) => InputMode::Normal,
        _ => mode,
    }
}

/// The input line after a key.
pub open spec fn input_after(mode: InputMode, input: Seq<char>, key: Option<Key>) -> Seq<char> {
    match (mode, key) {
        (InputMode::Editing, Some(Key::Enter)) => Seq::empty(),
        (InputMode::Editing, Some(Key::Char(c))) => input.push(c),
        (InputMode::Editing, Some(Key::Backspace)) => if input.len() > 0 {
            input.drop_last()
        } else {
            input
        },
        _ => input,
    }
}

/// Whether a key quits the program: `q` in normal mode, and no other.
pub open spec fn quits(mode: InputMode, key: Option<Key>) -> bool {
    mode == InputMode::Normal && key == Some(Key::Char('q'))
}

/// Appends a character to a string, by `String::push` of the standard
/// library: the string afterwards is the string before with the character
/// at its end.
#[verifier::external_body]
fn push_char(s: &mut String, c: char)
    ensures
        final(s)@ == old(s)@.push(c),
{
    s.push(c)
}

/// Removes the last character of a string, by `String::pop` of the
/// standard library: an empty string stays empty and none is returned;
/// any other string loses its last character, which is returned.
#[verifier::external_body]
fn pop_char(s: &mut String) -> (c: Option<char>)
    ensures
        old(s)@.len() == 0 ==> c is None && final(s)@ == old(s)@,
        old(s)@.len() > 0 ==> c == Some(old(s)@.last()) && final(s)@ == old(s)@.drop_last(),
{
    s.pop()
}

/// Whether a key sends the input line to the game as a move request:
/// enter while editing, and no other.
pub open spec fn sends(mode: InputMode, key: Option<Key>) -> bool {
    mode == InputMode::Editing && key == Some(Key::Enter)
}

/// Handles a key, if one was pressed. Says whether the program goes on,
/// and, where the key sent the input line to the game, what the game
/// answered.
///
/// Enter while editing hands the input line to the game as a move in
/// coordinate notation: the move that it stands for is applied, or the
/// reason why none was is the answer and the game stays as it was. Every
/// other key leaves the game alone. The screen and the transcript stay as
/// they are.
pub fn controls(state: &mut GameState, key: Option<Key>) -> (r: (
    Controls,
    Option<Result<Move, MoveError>>,
))
    requires
        old(state).wf(),
    ensures
        final(state).wf(),
        final(state).screen == old(state).screen,
        texts(final(state).messages@) == texts(old(state).messages@),
        final(state).input_mode == mode_after(old(state).input_mode, key),
        final(state).input@ == input_after(old(state).input_mode, old(state).input@, key),
        r.0 == (if quits(old(state).input_mode, key) {
            Controls::Quit
        } else {
            Controls::Continue
        }),
        r.1 == (if sends(old(state).input_mode, key) {
            Some(
                match parsed(old(state).input@) {
                    None => Err::<Move, MoveError>(MoveError::MalformedNotation),
                    Some(rq) => old(state)@.requested(rq.from, rq.to, rq.promotion),
                },
            )
        } else {
            None
        }),
        final(state)@ == (match r.1 {
            Some(Ok(m)) => old(state)@.applied(m),
            _ => old(state)@,
        }),
        r.1 matches Some(Ok(m)) ==> m.valid(),
        old(state).in_play() ==> final(state).in_play(),
{
    let mut answer: Option<Result<Move, MoveError>> = None;
    match key {
        Some(code) => match state.input_mode {
            InputMode::Normal => match code {
                Key::Char(c) => {
                    if c == 'i' {
                        state.input_mode = InputMode::Editing;
                    } else if c == 'q' {
                        return (Controls::Quit, None);
                    }
                },
                _ => {},
            },
            InputMode::Editing => match code {
                Key::Enter => {
                    let line = state.input.clone();
                    answer = Some(state.play(line.as_str()));
                    state.input = String::new();
                    assert(state.input@ =~= Seq::<char>::empty());
                },
                Key::Char(c) => {
                    push_char(&mut state.input, c);
                },
                Key::Backspace => {
                    let _ = pop_char(&mut state.input);
                },
                Key::Esc => {
                    state.input_mode = InputMode::Normal;
                },
                Key::Other => {},
            },
        },
        None => {},
    }
    (Controls::Continue, answer)
}

} // verus!
