//! Keys and escape sequences: what the menu writes to a terminal, and how
//! the bytes a terminal sends become keys. Reading the bytes and switching
//! the terminal to raw mode is the application's part.

use vstd::prelude::*;
use crate::text::{decimal, push_char, push_decimal};

verus! {

/// Hides the cursor.
pub const HIDE_CURSOR: &'static str = "\x1b[?25l";
/// Shows the cursor again.
pub const SHOW_CURSOR: &'static str = "\x1b[?25h";
/// Clears from the cursor to the end of the screen.
pub const CLEAR_TO_END: &'static str = "\x1b[J";

/// Moves the cursor to the start of the line `lines` above.
pub fn move_up(lines: u16) -> (s: String)
    ensures
        s@ == seq!['\x1b', '['] + decimal(lines as nat) + seq!['F'],
{
    let mut s = String::new();
    push_char(&mut s, '\x1b');
    push_char(&mut s, '[');
    push_decimal(&mut s, lines as u64);
    push_char(&mut s, 'F');
    assert(s@ =~= seq!['\x1b', '['] + decimal(lines as nat) + seq!['F']);
    s
}

/// A key the menu acts on. Anything else is deliberately not modelled.
#[derive(Debug, Clone, Copy, PartialEq, Eq, Structural)]
pub enum Key {
    Up,
    Down,
    Left,
    Right,
    /// Tab, and Shift-Tab as [`Key::BackTab`].
    Tab,
    BackTab,
    Enter,
    Escape,
    Interrupt,
    Backspace,
    Char(char),
    /// A recognised but unused key, or an escape sequence that was skipped.
    Other,
}

/// What the first byte of a keypress says.
#[derive(Debug, Clone, Copy, PartialEq, Eq, Structural)]
pub enum FirstByte {
    /// The key is complete.
    Done(Key),
    /// An escape: a bare Escape, or the start of a cursor key.
    Escape,
    /// The first byte of a UTF-8 character this many bytes long.
    Text(usize),
}

/// What a first byte means: end of input reads as an interrupt, so a
/// terminal that went away closes the menu rather than spinning.
pub open spec fn first_byte_spec(byte: Option<u8>) -> FirstByte {
    match byte {
        None => FirstByte::Done(Key::Interrupt),
        Some(b) => if b == 0x03 {
            FirstByte::Done(Key::Interrupt)
        } else if b == 0x0d || b == 0x0a {
            FirstByte::Done(Key::Enter)
        } else if b == 0x09 {
            FirstByte::Done(Key::Tab)
        } else if b == 0x1b {
            FirstByte::Escape
        } else if b == 0x08 || b == 0x7f {
            FirstByte::Done(Key::Backspace)
        } else if b <= 0x1f {
            FirstByte::Done(Key::Other)
        } else if b <= 0x7f {
            FirstByte::Text(1)
        } else if 0xc0 <= b && b <= 0xdf {
            FirstByte::Text(2)
        } else if 0xe0 <= b && b <= 0xef {
            FirstByte::Text(3)
        } else if 0xf0 <= b && b <= 0xf7 {
            FirstByte::Text(4)
        } else {
            FirstByte::Done(Key::Other)
        },
    }
}

/// Classifies the first byte of a keypress.
pub fn first_byte(byte: Option<u8>) -> (r: FirstByte)
    ensures
        r == first_byte_spec(byte),
{
    match byte {
        None => FirstByte::Done(Key::Interrupt),
        Some(b) => if b == 0x03 {
            FirstByte::Done(Key::Interrupt)
        } else if b == 0x0d || b == 0x0a {
            FirstByte::Done(Key::Enter)
        } else if b == 0x09 {
            FirstByte::Done(Key::Tab)
        } else if b == 0x1b {
            FirstByte::Escape
        } else if b == 0x08 || b == 0x7f {
            FirstByte::Done(Key::Backspace)
        } else if b <= 0x1f {
            FirstByte::Done(Key::Other)
        } else if b <= 0x7f {
            FirstByte::Text(1)
        } else if 0xc0 <= b && b <= 0xdf {
            FirstByte::Text(2)
        } else if 0xe0 <= b && b <= 0xef {
            FirstByte::Text(3)
        } else if 0xf0 <= b && b <= 0xf7 {
            FirstByte::Text(4)
        } else {
            FirstByte::Done(Key::Other)
        },
    }
}

/// The key an escape sequence names, from the two bytes that followed the
/// escape (`None` where the terminal sent nothing in time), and whether a
/// parameterised sequence's tail is still to be skipped.
///
/// CSI (`ESC [`) and SS3 (`ESC O`) both introduce cursor keys.
pub open spec fn escape_key_spec(second: Option<u8>, third: Option<u8>) -> (Key, bool) {
    match second {
        None => (Key::Escape, false),
        Some(b2) => if b2 != 0x5b && b2 != 0x4f {
            (Key::Other, false)
        } else {
            match third {
                None => (Key::Other, false),
                Some(b3) => if b3 == 0x41 {
                    (Key::Up, false)
                } else if b3 == 0x42 {
                    (Key::Down, false)
                } else if b3 == 0x43 {
                    (Key::Right, false)
                } else if b3 == 0x44 {
                    (Key::Left, false)
                } else if b3 == 0x5a {
                    (Key::BackTab, false)
                } else if (0x30 <= b3 && b3 <= 0x39) || b3 == 0x3b {
                    (Key::Other, true)
                } else {
                    (Key::Other, false)
                },
            }
        },
    }
}

/// Decodes what follows an escape byte.
pub fn escape_key(second: Option<u8>, third: Option<u8>) -> (r: (Key, bool))
    ensures
        r == escape_key_spec(second, third),
{
    match second {
        None => (Key::Escape, false),
        Some(b2) => if b2 != 0x5b && b2 != 0x4f {
            (Key::Other, false)
        } else {
            match third {
                None => (Key::Other, false),
                Some(b3) => if b3 == 0x41 {
                    (Key::Up, false)
                } else if b3 == 0x42 {
                    (Key::Down, false)
                } else if b3 == 0x43 {
                    (Key::Right, false)
                } else if b3 == 0x44 {
                    (Key::Left, false)
                } else if b3 == 0x5a {
                    (Key::BackTab, false)
                } else if (0x30 <= b3 && b3 <= 0x39) || b3 == 0x3b {
                    (Key::Other, true)
                } else {
                    (Key::Other, false)
                },
            }
        },
    }
}

/// Whether a byte ends a parameterised escape sequence.
pub fn ends_sequence(byte: u8) -> (r: bool)
    ensures
        r == (0x40 <= byte && byte <= 0x7e),
{
    0x40 <= byte && byte <= 0x7e
}

/// Reads `bytes` as UTF-8 with `std::str::from_utf8`: a string exactly when
/// the bytes are valid UTF-8, holding what they encode.
#[verifier::external_body]
fn utf8_str(bytes: &[u8]) -> (r: Option<&str>)
    ensures
        r is Some <==> vstd::utf8::valid_utf8(bytes@),
        r matches Some(s) ==> s@ == vstd::utf8::decode_utf8(bytes@),
{
    std::str::from_utf8(bytes).ok()
}

/// The key typed by a complete UTF-8 character's bytes: the character they
/// encode, or `Other` when they are not valid UTF-8.
pub open spec fn text_key_spec(bytes: Seq<u8>) -> Key {
    if vstd::utf8::valid_utf8(bytes) && vstd::utf8::decode_utf8(bytes).len() > 0 {
        Key::Char(vstd::utf8::decode_utf8(bytes)[0])
    } else {
        Key::Other
    }
}

/// Decodes the bytes of one typed character.
pub fn text_key(bytes: &[u8]) -> (k: Key)
    ensures
        k == text_key_spec(bytes@),
{
    match utf8_str(bytes) {
        None => Key::Other,
        Some(s) => {
            let mut chars = s.chars();
            proof { broadcast use vstd::string::group_string_axioms; }
            match chars.next() {
                Some(c) => Key::Char(c),
                None => Key::Other,
            }
        },
    }
}

} // verus!
