//! What the keys do: the decisions behind keyboard input, on keys already
//! decoded by the caller.

use crate::round::{alphabetic, ascii_lower, next_game_state, GameEvent, GameStates, Prompt};
use vstd::prelude::*;

verus! {

/// A decoded key press.
#[derive(Clone, Copy, Debug, PartialEq, Eq, Structural)]
pub enum Key {
    Char(char),
    Backspace,
    Enter,
    Tab,
    Up,
    Down,
    Other,
}

/// Switches of the session: the debug panel and the sound.
#[derive(Clone, Copy, Debug, PartialEq, Eq, Structural)]
pub struct Flags {
    pub debug: bool,
    pub sound: bool,
}

impl Default for Flags {
    fn default() -> (r: Self)
        ensures
            r == (Flags { debug: false, sound: true }),
    {
        Flags { debug: false, sound: true }
    }
}

/// What a key asks of the caller beyond the flags.
#[derive(Clone, Copy, Debug, PartialEq, Eq, Structural)]
pub enum KeyAction {
    Nothing,
    ScrollUp,
    ScrollDown,
    Submit,
}

/// The flags after `key`: `=` switches the debug panel, Tab the sound.
pub open spec fn toggled(flags: Flags, key: Key) -> Flags {
    match key {
        Key::Char('=') => Flags { debug: !flags.debug, ..flags },
        Key::Tab => Flags { sound: !flags.sound, ..flags },
        _ => flags,
    }
}

/// The action of `key` in `state`: the arrows scroll the letter, Enter
/// submits the prompt while playing.
pub open spec fn key_action(key: Key, state: GameStates) -> KeyAction {
    match key {
        Key::Up => KeyAction::ScrollUp,
        Key::Down => KeyAction::ScrollDown,
        Key::Enter => if state == GameStates::Playing {
            KeyAction::Submit
        } else {
            KeyAction::Nothing
        },
        _ => KeyAction::Nothing,
    }
}

/// The prompt text after `key`: a letter is added in lower case, Backspace
/// takes back the last character, other keys leave it.
pub open spec fn typed_text(text: Seq<char>, key: Key) -> Seq<char> {
    match key {
        Key::Char(c) => if alphabetic(c) {
            text.push(ascii_lower(c))
        } else {
            text
        },
        Key::Backspace => if text.len() > 0 {
            text.drop_last()
        } else {
            text
        },
        _ => text,
    }
}

/// `key` edits the prompt, and the typing cue plays.
pub open spec fn types(key: Key) -> bool {
    match key {
        Key::Char(c) => alphabetic(c),
        Key::Backspace => true,
        _ => false,
    }
}

/// Applies `key` to the flags and says what else it asks for.
pub fn handle_keyboard_input_system(key: Key, state: GameStates, flags: &mut Flags) -> (r:
    KeyAction)
    ensures
        *final(flags) == toggled(*old(flags), key),
        r == key_action(key, state),
{
    match key {
        Key::Char(c) => {
            if c == '=' {
                flags.debug = !flags.debug;
            }
            KeyAction::Nothing
        },
        Key::Tab => {
            flags.sound = !flags.sound;
            KeyAction::Nothing
        },
        Key::Up => KeyAction::ScrollUp,
        Key::Down => KeyAction::ScrollDown,
        Key::Enter => if state == GameStates::Playing {
            KeyAction::Submit
        } else {
            KeyAction::Nothing
        },
        _ => KeyAction::Nothing,
    }
}

/// Applies `key` to the prompt: a letter is typed, Backspace takes one back.
/// Says whether the typing cue plays.
pub fn handle_prompt_input_system(key: Key, prompt: &mut Prompt) -> (typed: bool)
    ensures
        final(prompt).remaining_ms == old(prompt).remaining_ms,
        final(prompt).text@ == typed_text(old(prompt).text@, key),
        typed == types(key),
{
    match key {
        Key::Char(c) => {
            let before = crate::round::is_letter(c);
            prompt.push_key(c);
            before
        },
        Key::Backspace => {
            prompt.backspace();
            true
        },
        _ => false,
    }
}

/// On the rules screen, the space bar moves on to printing the letter.
pub fn pass_info_screen_system(key: Key, state: &mut GameStates)
    requires
        *old(state) == GameStates::Info,
    ensures
        *final(state) == if key == Key::Char(' ') {
            GameStates::Printing
        } else {
            GameStates::Info
        },
{
    if key == Key::Char(' ') {
        *state = next_game_state(*state, GameEvent::ContinuePressed, false);
    }
}

} // verus!
