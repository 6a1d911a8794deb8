//! Physical key codes of the Mac keyboard and the logical keys and
//! characters they stand for.

use vstd::prelude::*;
use vstd::string::StrSliceExecFns;

use crate::config::KeyCode;
use crate::navigation::Direction;
use crate::picker::PickerInput;
use crate::text::str_eq;

verus! {

/// Virtual key code that the keyboard reports for a logical key.
pub open spec fn native_code(code: KeyCode) -> i64 {
    match code {
        KeyCode::KeyA => 0,
        KeyCode::KeyS => 1,
        KeyCode::KeyD => 2,
        KeyCode::KeyF => 3,
        KeyCode::KeyH => 4,
        KeyCode::KeyG => 5,
        KeyCode::KeyZ => 6,
        KeyCode::KeyX => 7,
        KeyCode::KeyC => 8,
        KeyCode::KeyV => 9,
        KeyCode::KeyB => 11,
        KeyCode::KeyQ => 12,
        KeyCode::KeyW => 13,
        KeyCode::KeyE => 14,
        KeyCode::KeyR => 15,
        KeyCode::KeyY => 16,
        KeyCode::KeyT => 17,
        KeyCode::Digit1 => 18,
        KeyCode::Digit2 => 19,
        KeyCode::Digit3 => 20,
        KeyCode::Digit4 => 21,
        KeyCode::Digit6 => 22,
        KeyCode::Digit5 => 23,
        KeyCode::Equal => 24,
        KeyCode::Digit9 => 25,
        KeyCode::Digit7 => 26,
        KeyCode::Minus => 27,
        KeyCode::Digit8 => 28,
        KeyCode::Digit0 => 29,
        KeyCode::BracketRight => 30,
        KeyCode::KeyO => 31,
        KeyCode::KeyU => 32,
        KeyCode::BracketLeft => 33,
        KeyCode::KeyI => 34,
        KeyCode::KeyP => 35,
        KeyCode::KeyL => 37,
        KeyCode::KeyJ => 38,
        KeyCode::KeyK => 40,
        KeyCode::Quote => 39,
        KeyCode::Semicolon => 41,
        KeyCode::Backslash => 42,
        KeyCode::Comma => 43,
        KeyCode::Slash => 44,
        KeyCode::KeyN => 45,
        KeyCode::KeyM => 46,
        KeyCode::Period => 47,
        KeyCode::Space => 49,
        KeyCode::Escape => 53,
        KeyCode::F1 => 122,
        KeyCode::F2 => 120,
        KeyCode::F3 => 99,
        KeyCode::F4 => 118,
        KeyCode::F5 => 96,
        KeyCode::F6 => 97,
        KeyCode::F7 => 98,
        KeyCode::F8 => 100,
        KeyCode::F9 => 101,
        KeyCode::F10 => 109,
        KeyCode::F11 => 103,
        KeyCode::F12 => 111,
        KeyCode::Enter => 36,
        KeyCode::Tab => 48,
        KeyCode::Backspace => 51,
        KeyCode::Delete => 117,
        KeyCode::Insert => 114,
        KeyCode::Home => 115,
        KeyCode::End => 119,
        KeyCode::PageUp => 116,
        KeyCode::PageDown => 121,
        KeyCode::ArrowLeft => 123,
        KeyCode::ArrowRight => 124,
        KeyCode::ArrowDown => 125,
        KeyCode::ArrowUp => 126,
    }
}

/// The virtual key code of a logical key.
pub fn keycode_to_native(code: KeyCode) -> (r: i64)
    ensures
        r == native_code(code),
{
    match code {
        KeyCode::KeyA => 0,
        KeyCode::KeyS => 1,
        KeyCode::KeyD => 2,
        KeyCode::KeyF => 3,
        KeyCode::KeyH => 4,
        KeyCode::KeyG => 5,
        KeyCode::KeyZ => 6,
        KeyCode::KeyX => 7,
        KeyCode::KeyC => 8,
        KeyCode::KeyV => 9,
        KeyCode::KeyB => 11,
        KeyCode::KeyQ => 12,
        KeyCode::KeyW => 13,
        KeyCode::KeyE => 14,
        KeyCode::KeyR => 15,
        KeyCode::KeyY => 16,
        KeyCode::KeyT => 17,
        KeyCode::Digit1 => 18,
        KeyCode::Digit2 => 19,
        KeyCode::Digit3 => 20,
        KeyCode::Digit4 => 21,
        KeyCode::Digit6 => 22,
        KeyCode::Digit5 => 23,
        KeyCode::Equal => 24,
        KeyCode::Digit9 => 25,
        KeyCode::Digit7 => 26,
        KeyCode::Minus => 27,
        KeyCode::Digit8 => 28,
        KeyCode::Digit0 => 29,
        KeyCode::BracketRight => 30,
        KeyCode::KeyO => 31,
        KeyCode::KeyU => 32,
        KeyCode::BracketLeft => 33,
        KeyCode::KeyI => 34,
        KeyCode::KeyP => 35,
        KeyCode::KeyL => 37,
        KeyCode::KeyJ => 38,
        KeyCode::KeyK => 40,
        KeyCode::Quote => 39,
        KeyCode::Semicolon => 41,
        KeyCode::Backslash => 42,
        KeyCode::Comma => 43,
        KeyCode::Slash => 44,
        KeyCode::KeyN => 45,
        KeyCode::KeyM => 46,
        KeyCode::Period => 47,
        KeyCode::Space => 49,
        KeyCode::Escape => 53,
        KeyCode::F1 => 122,
        KeyCode::F2 => 120,
        KeyCode::F3 => 99,
        KeyCode::F4 => 118,
        KeyCode::F5 => 96,
        KeyCode::F6 => 97,
        KeyCode::F7 => 98,
        KeyCode::F8 => 100,
        KeyCode::F9 => 101,
        KeyCode::F10 => 109,
        KeyCode::F11 => 103,
        KeyCode::F12 => 111,
        KeyCode::Enter => 36,
        KeyCode::Tab => 48,
        KeyCode::Backspace => 51,
        KeyCode::Delete => 117,
        KeyCode::Insert => 114,
        KeyCode::Home => 115,
        KeyCode::End => 119,
        KeyCode::PageUp => 116,
        KeyCode::PageDown => 121,
        KeyCode::ArrowLeft => 123,
        KeyCode::ArrowRight => 124,
        KeyCode::ArrowDown => 125,
        KeyCode::ArrowUp => 126,
    }
}

/// Letter that a virtual key code types, if it is a letter key.
pub open spec fn letter_of_native(keycode: i64) -> Option<char> {
    if keycode == 0 {
        Some('a')
    } else if keycode == 1 {
        Some('s')
    } else if keycode == 2 {
        Some('d')
    } else if keycode == 3 {
        Some('f')
    } else if keycode == 4 {
        Some('h')
    } else if keycode == 5 {
        Some('g')
    } else if keycode == 6 {
        Some('z')
    } else if keycode == 7 {
        Some('x')
    } else if keycode == 8 {
        Some('c')
    } else if keycode == 9 {
        Some('v')
    } else if keycode == 11 {
        Some('b')
    } else if keycode == 12 {
        Some('q')
    } else if keycode == 13 {
        Some('w')
    } else if keycode == 14 {
        Some('e')
    } else if keycode == 15 {
        Some('r')
    } else if keycode == 16 {
        Some('y')
    } else if keycode == 17 {
        Some('t')
    } else if keycode == 31 {
        Some('o')
    } else if keycode == 32 {
        Some('u')
    } else if keycode == 34 {
        Some('i')
    } else if keycode == 35 {
        Some('p')
    } else if keycode == 38 {
        Some('j')
    } else if keycode == 40 {
        Some('k')
    } else if keycode == 37 {
        Some('l')
    } else if keycode == 46 {
        Some('m')
    } else if keycode == 45 {
        Some('n')
    } else {
        None
    }
}

/// The letter a virtual key code types, if it is a letter key.
pub fn keycode_to_letter(keycode: i64) -> (r: Option<char>)
    ensures
        r == letter_of_native(keycode),
{
    match keycode {
        0 => Some('a'),
        1 => Some('s'),
        2 => Some('d'),
        3 => Some('f'),
        4 => Some('h'),
        5 => Some('g'),
        6 => Some('z'),
        7 => Some('x'),
        8 => Some('c'),
        9 => Some('v'),
        11 => Some('b'),
        12 => Some('q'),
        13 => Some('w'),
        14 => Some('e'),
        15 => Some('r'),
        16 => Some('y'),
        17 => Some('t'),
        31 => Some('o'),
        32 => Some('u'),
        34 => Some('i'),
        35 => Some('p'),
        38 => Some('j'),
        40 => Some('k'),
        37 => Some('l'),
        46 => Some('m'),
        45 => Some('n'),
        _ => None,
    }
}

/// The arrow direction of a virtual key code.
pub fn keycode_to_direction(keycode: i64) -> (r: Option<Direction>)
    ensures
        r == (if keycode == 123 {
            Some(Direction::Left)
        } else if keycode == 124 {
            Some(Direction::Right)
        } else if keycode == 125 {
            Some(Direction::Down)
        } else if keycode == 126 {
            Some(Direction::Up)
        } else {
            None
        }),
{
    match keycode {
        123 => Some(Direction::Left),
        124 => Some(Direction::Right),
        125 => Some(Direction::Down),
        126 => Some(Direction::Up),
        _ => None,
    }
}

/// Character that a virtual key code types on a US layout, with or without shift.
pub open spec fn printable_of_native(keycode: i64, shift: bool) -> Option<char> {
    if keycode == 0 {
        Some(if shift { 'A' } else { 'a' })
    } else if keycode == 1 {
        Some(if shift { 'S' } else { 's' })
    } else if keycode == 2 {
        Some(if shift { 'D' } else { 'd' })
    } else if keycode == 3 {
        Some(if shift { 'F' } else { 'f' })
    } else if keycode == 4 {
        Some(if shift { 'H' } else { 'h' })
    } else if keycode == 5 {
        Some(if shift { 'G' } else { 'g' })
    } else if keycode == 6 {
        Some(if shift { 'Z' } else { 'z' })
    } else if keycode == 7 {
        Some(if shift { 'X' } else { 'x' })
    } else if keycode == 8 {
        Some(if shift { 'C' } else { 'c' })
    } else if keycode == 9 {
        Some(if shift { 'V' } else { 'v' })
    } else if keycode == 11 {
        Some(if shift { 'B' } else { 'b' })
    } else if keycode == 12 {
        Some(if shift { 'Q' } else { 'q' })
    } else if keycode == 13 {
        Some(if shift { 'W' } else { 'w' })
    } else if keycode == 14 {
        Some(if shift { 'E' } else { 'e' })
    } else if keycode == 15 {
        Some(if shift { 'R' } else { 'r' })
    } else if keycode == 16 {
        Some(if shift { 'Y' } else { 'y' })
    } else if keycode == 17 {
        Some(if shift { 'T' } else { 't' })
    } else if keycode == 18 {
        Some(if shift { '!' } else { '1' })
    } else if keycode == 19 {
        Some(if shift { '@' } else { '2' })
    } else if keycode == 20 {
        Some(if shift { '#' } else { '3' })
    } else if keycode == 21 {
        Some(if shift { '$' } else { '4' })
    } else if keycode == 22 {
        Some(if shift { '^' } else { '6' })
    } else if keycode == 23 {
        Some(if shift { '%' } else { '5' })
    } else if keycode == 24 {
        Some(if shift { '+' } else { '=' })
    } else if keycode == 25 {
        Some(if shift { '(' } else { '9' })
    } else if keycode == 26 {
        Some(if shift { '&' } else { '7' })
    } else if keycode == 27 {
        Some(if shift { '_' } else { '-' })
    } else if keycode == 28 {
        Some(if shift { '*' } else { '8' })
    } else if keycode == 29 {
        Some(if shift { ')' } else { '0' })
    } else if keycode == 30 {
        Some(if shift { '}' } else { ']' })
    } else if keycode == 31 {
        Some(if shift { 'O' } else { 'o' })
    } else if keycode == 32 {
        Some(if shift { 'U' } else { 'u' })
    } else if keycode == 33 {
        Some(if shift { '{' } else { '[' })
    } else if keycode == 34 {
        Some(if shift { 'I' } else { 'i' })
    } else if keycode == 35 {
        Some(if shift { 'P' } else { 'p' })
    } else if keycode == 37 {
        Some(if shift { 'L' } else { 'l' })
    } else if keycode == 38 {
        Some(if shift { 'J' } else { 'j' })
    } else if keycode == 39 {
        Some(if shift { '"' } else { '\'' })
    } else if keycode == 40 {
        Some(if shift { 'K' } else { 'k' })
    } else if keycode == 41 {
        Some(if shift { ':' } else { ';' })
    } else if keycode == 42 {
        Some(if shift { '|' } else { '\\' })
    } else if keycode == 43 {
        Some(if shift { '<' } else { ',' })
    } else if keycode == 44 {
        Some(if shift { '?' } else { '/' })
    } else if keycode == 45 {
        Some(if shift { 'N' } else { 'n' })
    } else if keycode == 46 {
        Some(if shift { 'M' } else { 'm' })
    } else if keycode == 47 {
        Some(if shift { '>' } else { '.' })
    } else if keycode == 49 {
        Some(if shift { ' ' } else { ' ' })
    } else if keycode == 50 {
        Some(if shift { '~' } else { '`' })
    } else {
        None
    }
}

/// The character a virtual key code types on a US layout.
pub fn printable_char_from_keycode(keycode: i64, shift: bool) -> (r: Option<char>)
    ensures
        r == printable_of_native(keycode, shift),
{
    match keycode {
        0 => Some(if shift { 'A' } else { 'a' }),
        1 => Some(if shift { 'S' } else { 's' }),
        2 => Some(if shift { 'D' } else { 'd' }),
        3 => Some(if shift { 'F' } else { 'f' }),
        4 => Some(if shift { 'H' } else { 'h' }),
        5 => Some(if shift { 'G' } else { 'g' }),
        6 => Some(if shift { 'Z' } else { 'z' }),
        7 => Some(if shift { 'X' } else { 'x' }),
        8 => Some(if shift { 'C' } else { 'c' }),
        9 => Some(if shift { 'V' } else { 'v' }),
        11 => Some(if shift { 'B' } else { 'b' }),
        12 => Some(if shift { 'Q' } else { 'q' }),
        13 => Some(if shift { 'W' } else { 'w' }),
        14 => Some(if shift { 'E' } else { 'e' }),
        15 => Some(if shift { 'R' } else { 'r' }),
        16 => Some(if shift { 'Y' } else { 'y' }),
        17 => Some(if shift { 'T' } else { 't' }),
        18 => Some(if shift { '!' } else { '1' }),
        19 => Some(if shift { '@' } else { '2' }),
        20 => Some(if shift { '#' } else { '3' }),
        21 => Some(if shift { '$' } else { '4' }),
        22 => Some(if shift { '^' } else { '6' }),
        23 => Some(if shift { '%' } else { '5' }),
        24 => Some(if shift { '+' } else { '=' }),
        25 => Some(if shift { '(' } else { '9' }),
        26 => Some(if shift { '&' } else { '7' }),
        27 => Some(if shift { '_' } else { '-' }),
        28 => Some(if shift { '*' } else { '8' }),
        29 => Some(if shift { ')' } else { '0' }),
        30 => Some(if shift { '}' } else { ']' }),
        31 => Some(if shift { 'O' } else { 'o' }),
        32 => Some(if shift { 'U' } else { 'u' }),
        33 => Some(if shift { '{' } else { '[' }),
        34 => Some(if shift { 'I' } else { 'i' }),
        35 => Some(if shift { 'P' } else { 'p' }),
        37 => Some(if shift { 'L' } else { 'l' }),
        38 => Some(if shift { 'J' } else { 'j' }),
        39 => Some(if shift { '"' } else { '\'' }),
        40 => Some(if shift { 'K' } else { 'k' }),
        41 => Some(if shift { ':' } else { ';' }),
        42 => Some(if shift { '|' } else { '\\' }),
        43 => Some(if shift { '<' } else { ',' }),
        44 => Some(if shift { '?' } else { '/' }),
        45 => Some(if shift { 'N' } else { 'n' }),
        46 => Some(if shift { 'M' } else { 'm' }),
        47 => Some(if shift { '>' } else { '.' }),
        49 => Some(' '),
        50 => Some(if shift { '~' } else { '`' }),
        _ => None,
    }
}

/// Picker input that a virtual key code gives.
pub open spec fn picker_input_of_native(keycode: i64, shift: bool) -> Option<PickerInput> {
    if keycode == 125 {
        Some(PickerInput::SelectDown)
    } else if keycode == 126 {
        Some(PickerInput::SelectUp)
    } else if keycode == 36 {
        Some(PickerInput::Confirm)
    } else if keycode == 53 {
        Some(PickerInput::Cancel)
    } else if keycode == 51 || keycode == 117 {
        Some(PickerInput::SearchBackspace)
    } else {
        match printable_of_native(keycode, shift) {
            Some(c) => Some(PickerInput::SearchChar(c)),
            None => None,
        }
    }
}

/// The picker input of a virtual key code: arrows move, return confirms,
/// escape cancels, delete erases, and typing keys give characters.
pub fn picker_input_from_keycode(keycode: i64, shift: bool) -> (r: Option<PickerInput>)
    ensures
        r == picker_input_of_native(keycode, shift),
{
    match keycode {
        125 => Some(PickerInput::SelectDown),
        126 => Some(PickerInput::SelectUp),
        36 => Some(PickerInput::Confirm),
        53 => Some(PickerInput::Cancel),
        51 | 117 => Some(PickerInput::SearchBackspace),
        _ => match printable_char_from_keycode(keycode, shift) {
            Some(c) => Some(PickerInput::SearchChar(c)),
            None => None,
        },
    }
}

/// Picker input that a named key gives.
pub open spec fn picker_input_of_name(key: Seq<char>, shift: bool) -> Option<PickerInput> {
    if key == "down"@ {
        Some(PickerInput::SelectDown)
    } else if key == "up"@ {
        Some(PickerInput::SelectUp)
    } else if key == "enter"@ || key == "return"@ {
        Some(PickerInput::Confirm)
    } else if key == "escape"@ || key == "esc"@ {
        Some(PickerInput::Cancel)
    } else if key == "backspace"@ || key == "delete"@ {
        Some(PickerInput::SearchBackspace)
    } else if key == "space"@ {
        Some(PickerInput::SearchChar(' '))
    } else if key.len() == 1 {
        let c = key[0];
        Some(
            PickerInput::SearchChar(
                if shift && 'a' <= c <= 'z' {
                    ((c as u8) - 32) as char
                } else {
                    c
                },
            ),
        )
    } else {
        None
    }
}

/// The picker input of a key given by name, as a window toolkit reports it.
pub fn picker_input_from_key(key: &str, shift: bool) -> (r: Option<PickerInput>)
    ensures
        r == picker_input_of_name(key@, shift),
{
    if str_eq(key, "down") {
        Some(PickerInput::SelectDown)
    } else if str_eq(key, "up") {
        Some(PickerInput::SelectUp)
    } else if str_eq(key, "enter") || str_eq(key, "return") {
        Some(PickerInput::Confirm)
    } else if str_eq(key, "escape") || str_eq(key, "esc") {
        Some(PickerInput::Cancel)
    } else if str_eq(key, "backspace") || str_eq(key, "delete") {
        Some(PickerInput::SearchBackspace)
    } else if str_eq(key, "space") {
        Some(PickerInput::SearchChar(' '))
    } else if key.unicode_len() == 1 {
        let c = key.get_char(0);
        if shift && 'a' <= c && c <= 'z' {
            Some(PickerInput::SearchChar(((c as u8) - 32) as char))
        } else {
            Some(PickerInput::SearchChar(c))
        }
    } else {
        None
    }
}

/// Letter keys type their own letter: the key code of each letter key reads
/// back as that letter.
pub proof fn lemma_letter_keys_round_trip()
    ensures
        letter_of_native(native_code(KeyCode::KeyA)) == Some('a'),
        letter_of_native(native_code(KeyCode::KeyB)) == Some('b'),
        letter_of_native(native_code(KeyCode::KeyC)) == Some('c'),
        letter_of_native(native_code(KeyCode::KeyD)) == Some('d'),
        letter_of_native(native_code(KeyCode::KeyE)) == Some('e'),
        letter_of_native(native_code(KeyCode::KeyF)) == Some('f'),
        letter_of_native(native_code(KeyCode::KeyG)) == Some('g'),
        letter_of_native(native_code(KeyCode::KeyH)) == Some('h'),
        letter_of_native(native_code(KeyCode::KeyI)) == Some('i'),
        letter_of_native(native_code(KeyCode::KeyJ)) == Some('j'),
        letter_of_native(native_code(KeyCode::KeyK)) == Some('k'),
        letter_of_native(native_code(KeyCode::KeyL)) == Some('l'),
        letter_of_native(native_code(KeyCode::KeyM)) == Some('m'),
        letter_of_native(native_code(KeyCode::KeyN)) == Some('n'),
        letter_of_native(native_code(KeyCode::KeyO)) == Some('o'),
        letter_of_native(native_code(KeyCode::KeyP)) == Some('p'),
        letter_of_native(native_code(KeyCode::KeyQ)) == Some('q'),
        letter_of_native(native_code(KeyCode::KeyR)) == Some('r'),
        letter_of_native(native_code(KeyCode::KeyS)) == Some('s'),
        letter_of_native(native_code(KeyCode::KeyT)) == Some('t'),
        letter_of_native(native_code(KeyCode::KeyU)) == Some('u'),
        letter_of_native(native_code(KeyCode::KeyV)) == Some('v'),
        letter_of_native(native_code(KeyCode::KeyW)) == Some('w'),
        letter_of_native(native_code(KeyCode::KeyX)) == Some('x'),
        letter_of_native(native_code(KeyCode::KeyY)) == Some('y'),
        letter_of_native(native_code(KeyCode::KeyZ)) == Some('z'),
{
}

} // verus!
