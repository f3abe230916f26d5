//! What the operator's key presses mean.

use crate::text::push_char;
use vstd::prelude::*;

verus! {

/// A key press, as far as the client tells keys apart.
#[derive(Clone, Copy, Debug, PartialEq, Eq, Structural)]
pub enum Key {
    /// A character key, including the return key as a line feed.
    Char(char),
    /// A character key pressed together with the control key.
    Ctrl(char),
    /// Any other key.
    Other,
}

/// What the operator asks for.
#[derive(Clone, Copy, Debug, PartialEq, Eq, Structural)]
pub enum Intent {
    Refresh,
    CreateRoom,
    Quit,
    Nothing,
}

/// The meaning of a key while the client idles: control-r refreshes,
/// control-n creates a room, and q, control-q and control-c quit.
pub fn listen_for_input(key: Key) -> (intent: Intent)
    ensures
        intent == match key {
            Key::Ctrl('r') => Intent::Refresh,
            Key::Ctrl('n') => Intent::CreateRoom,
            Key::Char('q') => Intent::Quit,
            Key::Ctrl('q') => Intent::Quit,
            Key::Ctrl('c') => Intent::Quit,
            _ => Intent::Nothing,
        },
{
    match key {
        Key::Ctrl(c) => {
            if c == 'r' {
                Intent::Refresh
            } else if c == 'n' {
                Intent::CreateRoom
            } else if c == 'q' || c == 'c' {
                Intent::Quit
            } else {
                Intent::Nothing
            }
        },
        Key::Char(c) => {
            if c == 'q' {
                Intent::Quit
            } else {
                Intent::Nothing
            }
        },
        Key::Other => Intent::Nothing,
    }
}

/// The meaning of a key while the client shows that there are no rooms:
/// control-n creates a room and control-c quits.
pub fn display_empty_room(key: Key) -> (intent: Intent)
    ensures
        intent == match key {
            Key::Ctrl('n') => Intent::CreateRoom,
            Key::Ctrl('c') => Intent::Quit,
            _ => Intent::Nothing,
        },
{
    match key {
        Key::Ctrl(c) => {
            if c == 'n' {
                Intent::CreateRoom
            } else if c == 'c' {
                Intent::Quit
            } else {
                Intent::Nothing
            }
        },
        _ => Intent::Nothing,
    }
}

/// What the operator chose from the list of rooms.
#[derive(Clone, Copy, Debug, PartialEq, Eq, Structural)]
pub enum RoomChoice {
    /// Leave the list without joining.
    Leave,
    /// Join the room at this position of the list.
    Join(usize),
    Nothing,
}

/// The value of a decimal digit.
pub open spec fn digit_value(c: char) -> int {
    c as int - '0' as int
}

/// Whether `c` is one of the digits 0 to 9.
pub open spec fn is_digit(c: char) -> bool {
    '0' <= c <= '9'
}

/// The meaning of a key while the client shows `rooms` rooms to choose from:
/// control-c leaves the list, and a digit below the number of rooms joins the
/// room at that position.
pub fn display_rooms(key: Key, rooms: usize) -> (choice: RoomChoice)
    ensures
        choice == match key {
            Key::Ctrl('c') => RoomChoice::Leave,
            Key::Char(c) if is_digit(c) && digit_value(c) < rooms => RoomChoice::Join(
                digit_value(c) as usize,
            ),
            _ => RoomChoice::Nothing,
        },
{
    match key {
        Key::Ctrl(c) => {
            if c == 'c' {
                RoomChoice::Leave
            } else {
                RoomChoice::Nothing
            }
        },
        Key::Char(c) => {
            if '0' <= c && c <= '9' {
                let index = (c as u32 - '0' as u32) as usize;
                if index < rooms {
                    RoomChoice::Join(index)
                } else {
                    RoomChoice::Nothing
                }
            } else {
                RoomChoice::Nothing
            }
        },
        Key::Other => RoomChoice::Nothing,
    }
}

/// Where the typing of a room name stands after a key.
#[derive(Clone, Copy, Debug, PartialEq, Eq, Structural)]
pub enum NameEntry {
    /// The operator gave up: no room is created.
    Cancelled,
    /// The operator confirmed the name typed so far.
    Confirmed,
    /// A character was appended: the line is to be redrawn.
    Typed,
    /// The key means nothing here.
    Ignored,
}

/// One key of the typing of a room name into `name`: control-c cancels, the
/// return key confirms, any other character is appended, and other keys are
/// ignored.
pub fn type_room_name(name: &mut String, key: Key) -> (entry: NameEntry)
    ensures
        entry == match key {
            Key::Ctrl('c') => NameEntry::Cancelled,
            Key::Char('\n') => NameEntry::Confirmed,
            Key::Char(_) => NameEntry::Typed,
            _ => NameEntry::Ignored,
        },
        final(name)@ == match key {
            Key::Char(c) if c != '\n' => old(name)@.push(c),
            _ => old(name)@,
        },
{
    match key {
        Key::Ctrl(c) => {
            if c == 'c' {
                NameEntry::Cancelled
            } else {
                NameEntry::Ignored
            }
        },
        Key::Char(c) => {
            if c == '\n' {
                NameEntry::Confirmed
            } else {
                push_char(name, c);
                NameEntry::Typed
            }
        },
        Key::Other => NameEntry::Ignored,
    }
}

} // verus!
