//! What a key press asks of the dashboard.
use vstd::prelude::*;

verus! {

/// What a key press asks for.
#[derive(Debug, Clone, Copy, PartialEq, Eq, Structural)]
pub enum InputIntent {
    ClearInput,
    Quit,
    MoveUp,
    MoveDown,
    CycleLeft,
    CycleRight,
    Submit,
    Backspace,
    EnterCommandMode,
    InsertChar(char),
    Ignore,
}

/// The key that was pressed, as far as the dashboard tells keys apart.
#[derive(Debug, Clone, Copy, PartialEq, Eq, Structural)]
pub enum Key {
    Char(char),
    Esc,
    Up,
    Down,
    Left,
    Right,
    Enter,
    Backspace,
    Other,
}

/// The modifiers held with a key: none, exactly Shift, exactly Control, or
/// any other combination.
#[derive(Debug, Clone, Copy, PartialEq, Eq, Structural)]
pub enum Modifiers {
    Empty,
    Shift,
    Control,
    Other,
}

/// What a key asks for: Control-C clears, Control-D quits, and other Control
/// keys do nothing; Esc quits; the arrows move the selection and cycle the
/// action; Enter submits; Backspace deletes; a space outside command mode
/// enters it; any other character, alone or with Shift, is typed.
pub open spec fn map_key_spec(key: Key, modifiers: Modifiers, command_mode: bool) -> InputIntent {
    if modifiers == Modifiers::Control {
        match key {
            Key::Char('c') => InputIntent::ClearInput,
            Key::Char('d') => InputIntent::Quit,
            _ => InputIntent::Ignore,
        }
    } else {
        match key {
            Key::Esc => InputIntent::Quit,
            Key::Up => InputIntent::MoveUp,
            Key::Down => InputIntent::MoveDown,
            Key::Left => InputIntent::CycleLeft,
            Key::Right => InputIntent::CycleRight,
            Key::Enter => InputIntent::Submit,
            Key::Backspace => InputIntent::Backspace,
            Key::Char(c) => if c == ' ' && !command_mode {
                InputIntent::EnterCommandMode
            } else if modifiers == Modifiers::Empty || modifiers == Modifiers::Shift {
                InputIntent::InsertChar(c)
            } else {
                InputIntent::Ignore
            },
            Key::Other => InputIntent::Ignore,
        }
    }
}

/// What a key asks for.
pub fn map_key_event(key: Key, modifiers: Modifiers, command_mode: bool) -> (r: InputIntent)
    ensures
        r == map_key_spec(key, modifiers, command_mode),
{
    if modifiers == Modifiers::Control {
        return match key {
            Key::Char('c') => InputIntent::ClearInput,
            Key::Char('d') => InputIntent::Quit,
            _ => InputIntent::Ignore,
        };
    }
    match key {
        Key::Esc => InputIntent::Quit,
        Key::Up => InputIntent::MoveUp,
        Key::Down => InputIntent::MoveDown,
        Key::Left => InputIntent::CycleLeft,
        Key::Right => InputIntent::CycleRight,
        Key::Enter => InputIntent::Submit,
        Key::Backspace => InputIntent::Backspace,
        Key::Char(c) => {
            if c == ' ' && !command_mode {
                InputIntent::EnterCommandMode
            } else if modifiers == Modifiers::Empty || modifiers == Modifiers::Shift {
                InputIntent::InsertChar(c)
            } else {
                InputIntent::Ignore
            }
        },
        Key::Other => InputIntent::Ignore,
    }
}

/// Without Control, each key asks for what it names: the Up and Down arrows
/// move the selection up and down, the Left and Right arrows cycle the action
/// left and right, Enter submits, Backspace deletes, Esc quits, and a character
/// other than a space opening command mode is typed, alone or with Shift.
/// With Control, `c` clears the input, `d` quits, and other keys do nothing.
pub proof fn law_keys_ask_for_what_they_name(modifiers: Modifiers, command_mode: bool, c: char)
    ensures
        modifiers != Modifiers::Control ==> {
            &&& map_key_spec(Key::Up, modifiers, command_mode) == InputIntent::MoveUp
            &&& map_key_spec(Key::Down, modifiers, command_mode) == InputIntent::MoveDown
            &&& map_key_spec(Key::Left, modifiers, command_mode) == InputIntent::CycleLeft
            &&& map_key_spec(Key::Right, modifiers, command_mode) == InputIntent::CycleRight
            &&& map_key_spec(Key::Enter, modifiers, command_mode) == InputIntent::Submit
            &&& map_key_spec(Key::Backspace, modifiers, command_mode) == InputIntent::Backspace
            &&& map_key_spec(Key::Esc, modifiers, command_mode) == InputIntent::Quit
            &&& map_key_spec(Key::Other, modifiers, command_mode) == InputIntent::Ignore
        },
        (modifiers == Modifiers::Empty || modifiers == Modifiers::Shift) && (c != ' ' || command_mode)
            ==> map_key_spec(Key::Char(c), modifiers, command_mode) == InputIntent::InsertChar(c),
        modifiers != Modifiers::Control && !command_mode ==> map_key_spec(
            Key::Char(' '),
            modifiers,
            command_mode,
        ) == InputIntent::EnterCommandMode,
        map_key_spec(Key::Char('c'), Modifiers::Control, command_mode) == InputIntent::ClearInput,
        map_key_spec(Key::Char('d'), Modifiers::Control, command_mode) == InputIntent::Quit,
        c != 'c' && c != 'd' ==> map_key_spec(Key::Char(c), Modifiers::Control, command_mode)
            == InputIntent::Ignore,
{
}

} // verus!
