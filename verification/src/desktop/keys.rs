//! Turns key presses into the bytes that a terminal expects.

use vstd::prelude::*;

verus! {

/// The keys of a keyboard that matter to a terminal.
#[derive(Clone, Copy, Debug, PartialEq, Eq, Structural)]
pub enum Key {
    A,
    B,
    C,
    D,
    E,
    F,
    G,
    H,
    I,
    J,
    K,
    L,
    M,
    N,
    O,
    P,
    Q,
    R,
    S,
    T,
    U,
    V,
    W,
    X,
    Y,
    Z,
    Num0,
    Num1,
    Num2,
    Num3,
    Num4,
    Num5,
    Num6,
    Num7,
    Num8,
    Num9,
    Enter,
    Backspace,
    Tab,
    Escape,
    Delete,
    Insert,
    Home,
    End,
    PageUp,
    PageDown,
    ArrowUp,
    ArrowDown,
    ArrowRight,
    ArrowLeft,
    F1,
    F2,
    F3,
    F4,
    F5,
    F6,
    F7,
    F8,
    F9,
    F10,
    F11,
    F12,
    Space,
    OpenBracket,
    Backslash,
    CloseBracket,
    Questionmark,
    Other,
}

/// The keys that are held down with another one. `command` is the shortcut key of the platform,
/// `mac_cmd` the one of macOS.
#[derive(Clone, Copy, Debug, PartialEq, Eq, Structural)]
pub struct Modifiers {
    pub alt: bool,
    pub ctrl: bool,
    pub shift: bool,
    pub mac_cmd: bool,
    pub command: bool,
}

/// The place of a letter in the alphabet, from one on.
pub open spec fn letter_number(key: Key) -> Option<u8> {
    match key {
        Key::A => Some(1),
        Key::B => Some(2),
        Key::C => Some(3),
        Key::D => Some(4),
        Key::E => Some(5),
        Key::F => Some(6),
        Key::G => Some(7),
        Key::H => Some(8),
        Key::I => Some(9),
        Key::J => Some(10),
        Key::K => Some(11),
        Key::L => Some(12),
        Key::M => Some(13),
        Key::N => Some(14),
        Key::O => Some(15),
        Key::P => Some(16),
        Key::Q => Some(17),
        Key::R => Some(18),
        Key::S => Some(19),
        Key::T => Some(20),
        Key::U => Some(21),
        Key::V => Some(22),
        Key::W => Some(23),
        Key::X => Some(24),
        Key::Y => Some(25),
        Key::Z => Some(26),
        _ => None,
    }
}

pub fn letter(key: Key) -> (r: Option<u8>)
    ensures
        r == letter_number(key),
{
    match key {
        Key::A => Some(1),
        Key::B => Some(2),
        Key::C => Some(3),
        Key::D => Some(4),
        Key::E => Some(5),
        Key::F => Some(6),
        Key::G => Some(7),
        Key::H => Some(8),
        Key::I => Some(9),
        Key::J => Some(10),
        Key::K => Some(11),
        Key::L => Some(12),
        Key::M => Some(13),
        Key::N => Some(14),
        Key::O => Some(15),
        Key::P => Some(16),
        Key::Q => Some(17),
        Key::R => Some(18),
        Key::S => Some(19),
        Key::T => Some(20),
        Key::U => Some(21),
        Key::V => Some(22),
        Key::W => Some(23),
        Key::X => Some(24),
        Key::Y => Some(25),
        Key::Z => Some(26),
        _ => None,
    }
}

/// The control byte of a key that is pressed with the control key.
pub open spec fn control_byte(key: Key) -> Option<u8> {
    match key {
        Key::Space => Some(0x00),
        Key::Num2 => Some(0x00),
        Key::Num3 => Some(0x1b),
        Key::Num4 => Some(0x1c),
        Key::Num5 => Some(0x1d),
        Key::Num6 => Some(0x1e),
        Key::Num7 => Some(0x1f),
        Key::Num8 => Some(0x7f),
        Key::OpenBracket => Some(0x1b),
        Key::Backslash => Some(0x1c),
        Key::CloseBracket => Some(0x1d),
        Key::Questionmark => Some(0x7f),
        _ => letter_number(key),
    }
}

fn ctrl_byte(key: Key) -> (r: Option<u8>)
    ensures
        r == control_byte(key),
{
    match key {
        Key::Space => Some(0x00),
        Key::Num2 => Some(0x00),
        Key::Num3 => Some(0x1b),
        Key::Num4 => Some(0x1c),
        Key::Num5 => Some(0x1d),
        Key::Num6 => Some(0x1e),
        Key::Num7 => Some(0x1f),
        Key::Num8 => Some(0x7f),
        Key::OpenBracket => Some(0x1b),
        Key::Backslash => Some(0x1c),
        Key::CloseBracket => Some(0x1d),
        Key::Questionmark => Some(0x7f),
        _ => letter(key),
    }
}

/// The number that stands for the modifiers in an escape sequence.
pub open spec fn modifier_number(modifiers: Modifiers) -> u8 {
    (1 + (if modifiers.shift {
        1int
    } else {
        0
    }) + (if modifiers.alt {
        2int
    } else {
        0
    }) + (if modifiers.ctrl {
        4int
    } else {
        0
    })) as u8
}

fn modifier_code(modifiers: Modifiers) -> (r: u8)
    ensures
        r == modifier_number(modifiers),
        1 <= r <= 8,
{
    let mut n: u8 = 1;
    if modifiers.shift {
        n = n + 1;
    }
    if modifiers.alt {
        n = n + 2;
    }
    if modifiers.ctrl {
        n = n + 4;
    }
    n
}

/// The sequence of an arrow key: `ESC [ code`, or `ESC [ 1 ; modifiers code`.
pub open spec fn arrow_sequence(code: u8, modifiers: Modifiers) -> Seq<u8> {
    if modifier_number(modifiers) == 1 {
        seq![0x1bu8, 0x5b, code]
    } else {
        seq![0x1bu8, 0x5b, 0x31, 0x3b, (0x30 + modifier_number(modifiers)) as u8, code]
    }
}

/// The sequence of an editing key: `ESC [ code ~`, or `ESC [ code ; modifiers ~`.
pub open spec fn tilde_sequence(code: u8, modifiers: Modifiers) -> Seq<u8> {
    if modifier_number(modifiers) == 1 {
        seq![0x1bu8, 0x5b, code, 0x7e]
    } else {
        seq![0x1bu8, 0x5b, code, 0x3b, (0x30 + modifier_number(modifiers)) as u8, 0x7e]
    }
}

fn arrow(code: u8, modifiers: Modifiers) -> (r: Vec<u8>)
    ensures
        r@ == arrow_sequence(code, modifiers),
{
    let n: u8 = modifier_code(modifiers);
    if n == 1 {
        vec![0x1b, 0x5b, code]
    } else {
        vec![0x1b, 0x5b, 0x31, 0x3b, 0x30 + n, code]
    }
}

fn tilde(code: u8, modifiers: Modifiers) -> (r: Vec<u8>)
    ensures
        r@ == tilde_sequence(code, modifiers),
{
    let n: u8 = modifier_code(modifiers);
    if n == 1 {
        vec![0x1b, 0x5b, code, 0x7e]
    } else {
        vec![0x1b, 0x5b, code, 0x3b, 0x30 + n, 0x7e]
    }
}

/// The sequence of a key that is not a character; the function keys pay no heed to modifiers.
pub open spec fn key_sequence(key: Key, modifiers: Modifiers) -> Option<Seq<u8>> {
    match key {
        Key::Enter => Some(seq![0x0du8]),
        Key::Backspace => Some(seq![0x7fu8]),
        Key::Tab => Some(seq![0x09u8]),
        Key::Escape => Some(seq![0x1bu8]),
        Key::Delete => Some(tilde_sequence(0x33, modifiers)),
        Key::Insert => Some(tilde_sequence(0x32, modifiers)),
        Key::Home => Some(seq![0x1bu8, 0x5b, 0x48]),
        Key::End => Some(seq![0x1bu8, 0x5b, 0x46]),
        Key::PageUp => Some(tilde_sequence(0x35, modifiers)),
        Key::PageDown => Some(tilde_sequence(0x36, modifiers)),
        Key::ArrowUp => Some(arrow_sequence(0x41, modifiers)),
        Key::ArrowDown => Some(arrow_sequence(0x42, modifiers)),
        Key::ArrowRight => Some(arrow_sequence(0x43, modifiers)),
        Key::ArrowLeft => Some(arrow_sequence(0x44, modifiers)),
        Key::F1 => Some(seq![0x1bu8, 0x4f, 0x50]),
        Key::F2 => Some(seq![0x1bu8, 0x4f, 0x51]),
        Key::F3 => Some(seq![0x1bu8, 0x4f, 0x52]),
        Key::F4 => Some(seq![0x1bu8, 0x4f, 0x53]),
        Key::F5 => Some(seq![0x1bu8, 0x5b, 0x31, 0x35, 0x7e]),
        Key::F6 => Some(seq![0x1bu8, 0x5b, 0x31, 0x37, 0x7e]),
        Key::F7 => Some(seq![0x1bu8, 0x5b, 0x31, 0x38, 0x7e]),
        Key::F8 => Some(seq![0x1bu8, 0x5b, 0x31, 0x39, 0x7e]),
        Key::F9 => Some(seq![0x1bu8, 0x5b, 0x32, 0x30, 0x7e]),
        Key::F10 => Some(seq![0x1bu8, 0x5b, 0x32, 0x31, 0x7e]),
        Key::F11 => Some(seq![0x1bu8, 0x5b, 0x32, 0x33, 0x7e]),
        Key::F12 => Some(seq![0x1bu8, 0x5b, 0x32, 0x34, 0x7e]),
        _ => None,
    }
}

fn special_key_sequence(key: Key, modifiers: Modifiers) -> (r: Option<Vec<u8>>)
    ensures
        match r {
            Some(bytes) => key_sequence(key, modifiers) == Some(bytes@),
            None => key_sequence(key, modifiers) is None,
        },
{
    match key {
        Key::Enter => Some(bytes_of(&[0x0d])),
        Key::Backspace => Some(bytes_of(&[0x7f])),
        Key::Tab => Some(bytes_of(&[0x09])),
        Key::Escape => Some(bytes_of(&[0x1b])),
        Key::Delete => Some(tilde(0x33, modifiers)),
        Key::Insert => Some(tilde(0x32, modifiers)),
        Key::Home => Some(bytes_of(&[0x1b, 0x5b, 0x48])),
        Key::End => Some(bytes_of(&[0x1b, 0x5b, 0x46])),
        Key::PageUp => Some(tilde(0x35, modifiers)),
        Key::PageDown => Some(tilde(0x36, modifiers)),
        Key::ArrowUp => Some(arrow(0x41, modifiers)),
        Key::ArrowDown => Some(arrow(0x42, modifiers)),
        Key::ArrowRight => Some(arrow(0x43, modifiers)),
        Key::ArrowLeft => Some(arrow(0x44, modifiers)),
        Key::F1 => Some(bytes_of(&[0x1b, 0x4f, 0x50])),
        Key::F2 => Some(bytes_of(&[0x1b, 0x4f, 0x51])),
        Key::F3 => Some(bytes_of(&[0x1b, 0x4f, 0x52])),
        Key::F4 => Some(bytes_of(&[0x1b, 0x4f, 0x53])),
        Key::F5 => Some(bytes_of(&[0x1b, 0x5b, 0x31, 0x35, 0x7e])),
        Key::F6 => Some(bytes_of(&[0x1b, 0x5b, 0x31, 0x37, 0x7e])),
        Key::F7 => Some(bytes_of(&[0x1b, 0x5b, 0x31, 0x38, 0x7e])),
        Key::F8 => Some(bytes_of(&[0x1b, 0x5b, 0x31, 0x39, 0x7e])),
        Key::F9 => Some(bytes_of(&[0x1b, 0x5b, 0x32, 0x30, 0x7e])),
        Key::F10 => Some(bytes_of(&[0x1b, 0x5b, 0x32, 0x31, 0x7e])),
        Key::F11 => Some(bytes_of(&[0x1b, 0x5b, 0x32, 0x33, 0x7e])),
        Key::F12 => Some(bytes_of(&[0x1b, 0x5b, 0x32, 0x34, 0x7e])),
        _ => None,
    }
}

fn bytes_of(bytes: &[u8]) -> (r: Vec<u8>)
    ensures
        r@ == bytes@,
{
    let mut out: Vec<u8> = Vec::new();
    out.extend_from_slice(bytes);
    out
}

/// The bytes that a key event sends to the terminal. Releases send none, and neither do the
/// shortcuts of macOS, which are the application's own.
pub open spec fn key_bytes(key: Key, modifiers: Modifiers, pressed: bool) -> Option<Seq<u8>> {
    if !pressed || modifiers.mac_cmd {
        None
    } else if modifiers.ctrl && control_byte(key) is Some {
        Some(seq![control_byte(key)->Some_0])
    } else {
        key_sequence(key, modifiers)
    }
}

pub fn key_event_to_bytes(key: Key, modifiers: Modifiers, pressed: bool) -> (r: Option<Vec<u8>>)
    ensures
        match r {
            Some(bytes) => key_bytes(key, modifiers, pressed) == Some(bytes@),
            None => key_bytes(key, modifiers, pressed) is None,
        },
{
    if !pressed || modifiers.mac_cmd {
        return None;
    }
    if modifiers.ctrl {
        match ctrl_byte(key) {
            Some(byte) => {
                return Some(bytes_of(&[byte]));
            },
            None => {},
        }
    }
    special_key_sequence(key, modifiers)
}

/// The sequence of an arrow key tells which of its modifiers were held.
pub proof fn law_arrows_tell_modifiers_apart(code: u8, a: Modifiers, b: Modifiers)
    requires
        arrow_sequence(code, a) == arrow_sequence(code, b),
    ensures
        a.alt == b.alt && a.ctrl == b.ctrl && a.shift == b.shift,
{
    let first = arrow_sequence(code, a);
    let second = arrow_sequence(code, b);
    assert(first.len() == second.len());
    assert(first.len() == 3 || first[4] == second[4]);
}

/// The letters are numbered from one on, in the order of the alphabet, and nothing else is.
pub proof fn law_letters_are_numbered(key: Key)
    ensures
        letter_number(key) == (match key {
            Key::A => Some(1u8), Key::B => Some(2u8), Key::C => Some(3u8), Key::D => Some(4u8),
            Key::E => Some(5u8), Key::F => Some(6u8), Key::G => Some(7u8), Key::H => Some(8u8),
            Key::I => Some(9u8), Key::J => Some(10u8), Key::K => Some(11u8), Key::L => Some(12u8),
            Key::M => Some(13u8), Key::N => Some(14u8), Key::O => Some(15u8), Key::P => Some(16u8),
            Key::Q => Some(17u8), Key::R => Some(18u8), Key::S => Some(19u8), Key::T => Some(20u8),
            Key::U => Some(21u8), Key::V => Some(22u8), Key::W => Some(23u8), Key::X => Some(24u8),
            Key::Y => Some(25u8), Key::Z => Some(26u8),
            _ => None::<u8>,
        }),
{
}

/// A key that is pressed by itself gives the bytes that xterm gives for it: the arrows end in `A` to
/// `D`, up, down, right and left; the editing keys are numbered and end in a tilde; of the function
/// keys the first four are those of the VT100.
pub proof fn law_bare_keys_are_those_of_xterm(modifiers: Modifiers)
    requires
        !modifiers.alt && !modifiers.ctrl && !modifiers.shift && !modifiers.mac_cmd,
    ensures
        key_bytes(Key::ArrowUp, modifiers, true) == Some(seq![0x1bu8, 0x5bu8, 0x41u8]),
        key_bytes(Key::ArrowDown, modifiers, true) == Some(seq![0x1bu8, 0x5bu8, 0x42u8]),
        key_bytes(Key::ArrowRight, modifiers, true) == Some(seq![0x1bu8, 0x5bu8, 0x43u8]),
        key_bytes(Key::ArrowLeft, modifiers, true) == Some(seq![0x1bu8, 0x5bu8, 0x44u8]),
        key_bytes(Key::Home, modifiers, true) == Some(seq![0x1bu8, 0x5bu8, 0x48u8]),
        key_bytes(Key::End, modifiers, true) == Some(seq![0x1bu8, 0x5bu8, 0x46u8]),
        key_bytes(Key::Insert, modifiers, true) == Some(seq![0x1bu8, 0x5bu8, 0x32u8, 0x7eu8]),
        key_bytes(Key::Delete, modifiers, true) == Some(seq![0x1bu8, 0x5bu8, 0x33u8, 0x7eu8]),
        key_bytes(Key::PageUp, modifiers, true) == Some(seq![0x1bu8, 0x5bu8, 0x35u8, 0x7eu8]),
        key_bytes(Key::PageDown, modifiers, true) == Some(seq![0x1bu8, 0x5bu8, 0x36u8, 0x7eu8]),
        key_bytes(Key::Enter, modifiers, true) == Some(seq![0x0du8]),
        key_bytes(Key::Backspace, modifiers, true) == Some(seq![0x7fu8]),
        key_bytes(Key::Tab, modifiers, true) == Some(seq![0x09u8]),
        key_bytes(Key::Escape, modifiers, true) == Some(seq![0x1bu8]),
{
}

/// The function keys give the same bytes whatever is held with them.
pub proof fn law_function_keys_are_those_of_xterm(modifiers: Modifiers)
    requires
        !modifiers.mac_cmd,
    ensures
        key_bytes(Key::F1, modifiers, true) == Some(seq![0x1bu8, 0x4fu8, 0x50u8]),
        key_bytes(Key::F2, modifiers, true) == Some(seq![0x1bu8, 0x4fu8, 0x51u8]),
        key_bytes(Key::F3, modifiers, true) == Some(seq![0x1bu8, 0x4fu8, 0x52u8]),
        key_bytes(Key::F4, modifiers, true) == Some(seq![0x1bu8, 0x4fu8, 0x53u8]),
        key_bytes(Key::F5, modifiers, true) == Some(seq![0x1bu8, 0x5bu8, 0x31u8, 0x35u8, 0x7eu8]),
        key_bytes(Key::F6, modifiers, true) == Some(seq![0x1bu8, 0x5bu8, 0x31u8, 0x37u8, 0x7eu8]),
        key_bytes(Key::F7, modifiers, true) == Some(seq![0x1bu8, 0x5bu8, 0x31u8, 0x38u8, 0x7eu8]),
        key_bytes(Key::F8, modifiers, true) == Some(seq![0x1bu8, 0x5bu8, 0x31u8, 0x39u8, 0x7eu8]),
        key_bytes(Key::F9, modifiers, true) == Some(seq![0x1bu8, 0x5bu8, 0x32u8, 0x30u8, 0x7eu8]),
        key_bytes(Key::F10, modifiers, true) == Some(seq![0x1bu8, 0x5bu8, 0x32u8, 0x31u8, 0x7eu8]),
        key_bytes(Key::F11, modifiers, true) == Some(seq![0x1bu8, 0x5bu8, 0x32u8, 0x33u8, 0x7eu8]),
        key_bytes(Key::F12, modifiers, true) == Some(seq![0x1bu8, 0x5bu8, 0x32u8, 0x34u8, 0x7eu8]),
{
}

/// With other keys held, an arrow gives the digit that stands for them before its last byte, and an
/// editing key gives it before its tilde: one, and one more for shift, two for alt, four for control.
pub proof fn law_held_keys_are_told(key: Key, modifiers: Modifiers)
    requires
        !modifiers.mac_cmd,
        modifiers.alt || modifiers.ctrl || modifiers.shift,
    ensures
        ({
            let digit = 0x31 + (if modifiers.shift {
                1int
            } else {
                0
            }) + (if modifiers.alt {
                2int
            } else {
                0
            }) + (if modifiers.ctrl {
                4int
            } else {
                0
            });
            &&& (key == Key::ArrowUp || key == Key::ArrowDown || key == Key::ArrowRight || key
                == Key::ArrowLeft) ==> (key_bytes(key, modifiers, true) matches Some(bytes)
                && bytes.len() == 6 && bytes[0] == 0x1b && bytes[1] == 0x5b && bytes[2] == 0x31
                && bytes[3] == 0x3b && bytes[4] == digit && bytes[5] == (match key {
                Key::ArrowUp => 0x41u8,
                Key::ArrowDown => 0x42u8,
                Key::ArrowRight => 0x43u8,
                _ => 0x44u8,
            }))
            &&& (key == Key::Insert || key == Key::Delete || key == Key::PageUp || key
                == Key::PageDown) ==> (key_bytes(key, modifiers, true) matches Some(bytes)
                && bytes.len() == 6 && bytes[0] == 0x1b && bytes[1] == 0x5b && bytes[3] == 0x3b
                && bytes[4] == digit && bytes[5] == 0x7e && bytes[2] == (match key {
                Key::Insert => 0x32u8,
                Key::Delete => 0x33u8,
                Key::PageUp => 0x35u8,
                _ => 0x36u8,
            }))
            &&& (key == Key::Home || key == Key::End || key == Key::Enter || key == Key::Backspace
                || key == Key::Tab || key == Key::Escape) ==> key_bytes(key, modifiers, true)
                == key_bytes(
                key,
                Modifiers { alt: false, ctrl: false, shift: false, ..modifiers },
                true,
            )
        }),
{
}

/// With the control key a letter gives its number, and the keys of the other control characters
/// give those: the same bytes as on a terminal of old.
pub proof fn law_control_gives_control_characters(key: Key, modifiers: Modifiers)
    requires
        modifiers.ctrl && !modifiers.mac_cmd,
    ensures
        letter_number(key) matches Some(number) ==> key_bytes(key, modifiers, true) == Some(
            seq![number],
        ),
        key_bytes(Key::A, modifiers, true) == Some(seq![0x01u8]),
        key_bytes(Key::C, modifiers, true) == Some(seq![0x03u8]),
        key_bytes(Key::Z, modifiers, true) == Some(seq![0x1au8]),
        key_bytes(Key::Space, modifiers, true) == Some(seq![0x00u8]),
        key_bytes(Key::Num2, modifiers, true) == Some(seq![0x00u8]),
        key_bytes(Key::OpenBracket, modifiers, true) == Some(seq![0x1bu8]),
        key_bytes(Key::Num3, modifiers, true) == Some(seq![0x1bu8]),
        key_bytes(Key::Backslash, modifiers, true) == Some(seq![0x1cu8]),
        key_bytes(Key::Num4, modifiers, true) == Some(seq![0x1cu8]),
        key_bytes(Key::CloseBracket, modifiers, true) == Some(seq![0x1du8]),
        key_bytes(Key::Num5, modifiers, true) == Some(seq![0x1du8]),
        key_bytes(Key::Num6, modifiers, true) == Some(seq![0x1eu8]),
        key_bytes(Key::Num7, modifiers, true) == Some(seq![0x1fu8]),
        key_bytes(Key::Num8, modifiers, true) == Some(seq![0x7fu8]),
        key_bytes(Key::Questionmark, modifiers, true) == Some(seq![0x7fu8]),
{
}

/// Whether a key stands for a character, which reaches the terminal as text.
pub open spec fn is_character_key(key: Key) -> bool {
    match key {
        Key::Num0 | Key::Num1 | Key::Num2 | Key::Num3 | Key::Num4 | Key::Num5 | Key::Num6
        | Key::Num7 | Key::Num8 | Key::Num9 | Key::Space | Key::OpenBracket | Key::Backslash
        | Key::CloseBracket | Key::Questionmark | Key::Other => true,
        _ => letter_number(key) is Some,
    }
}

/// Two keys that are not characters give different bytes, whatever is held with both; a key that is
/// a character gives none of its own, and neither does a release or a shortcut of macOS.
pub proof fn law_keys_are_told_apart(a: Key, b: Key, modifiers: Modifiers, pressed: bool)
    ensures
        !pressed || modifiers.mac_cmd ==> key_bytes(a, modifiers, pressed) is None,
        pressed && !modifiers.mac_cmd && !is_character_key(a) ==> key_bytes(a, modifiers, pressed)
            is Some,
        pressed && !modifiers.ctrl && is_character_key(a) ==> key_bytes(a, modifiers, pressed)
            is None,
        pressed && !modifiers.mac_cmd && !is_character_key(a) && !is_character_key(b) && a != b
            ==> key_bytes(a, modifiers, pressed) != key_bytes(b, modifiers, pressed),
{
    if pressed && !modifiers.mac_cmd && !is_character_key(a) && !is_character_key(b) && a != b {
        let first = key_bytes(a, modifiers, pressed)->Some_0;
        let second = key_bytes(b, modifiers, pressed)->Some_0;
        assert(first.len() != second.len() || first[0] != second[0] || first[1] != second[1]
            || first[2] != second[2] || first[3] != second[3] || first[5] != second[5]);
    }
}

} // verus!
