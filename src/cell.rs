//! One addressable byte of the store, as the page holds it.

use vstd::prelude::*;

verus! {

/// The digit for `n < 16`: `0-9`, then `A-F`.
pub open spec fn upper_hex_char(n: u8) -> char {
    if n < 10 {
        ((48 + n) as u8) as char
    } else {
        ((55 + n) as u8) as char
    }
}

/// The digit for `n < 16`: `0-9`, then `a-f`.
pub open spec fn lower_hex_char(n: u8) -> char {
    if n < 10 {
        ((48 + n) as u8) as char
    } else {
        ((87 + n) as u8) as char
    }
}

/// Whether `b` is a printable ASCII character, space through tilde.
pub open spec fn is_printable(b: u8) -> bool {
    0x20 <= b <= 0x7e
}

/// Two upper-case hexadecimal digits for a known byte, `XX` for an unknown one.
pub open spec fn cell_hex(v: Option<u8>) -> Seq<char> {
    match v {
        Some(b) => seq![upper_hex_char(b / 16), upper_hex_char(b % 16)],
        None => seq!['X', 'X'],
    }
}

/// Two lower-case hexadecimal digits for a known byte, `xx` for an unknown one.
pub open spec fn cell_hex_lower(v: Option<u8>) -> Seq<char> {
    match v {
        Some(b) => seq![lower_hex_char(b / 16), lower_hex_char(b % 16)],
        None => seq!['x', 'x'],
    }
}

/// The character of a printable byte, `.` for any other or an unknown one.
pub open spec fn cell_ascii(v: Option<u8>) -> Seq<char> {
    match v {
        Some(b) => if is_printable(b) {
            seq![b as char]
        } else {
            seq!['.']
        },
        None => seq!['.'],
    }
}

/// Relies on String::push: appends `c` to `s`.
#[verifier::external_body]
pub(crate) fn push_char(s: &mut String, c: char)
    ensures
        final(s)@ == old(s)@.push(c),
{
    s.push(c)
}

/// A byte read from the store, or `None` when the store could not read it.
#[derive(Clone, Copy, Debug, PartialEq, Eq)]
pub struct Cell {
    pub inner: Option<u8>,
}

fn upper_digit(n: u8) -> (c: char)
    requires
        n < 16,
    ensures
        c == upper_hex_char(n),
{
    if n < 10 {
        (48 + n) as char
    } else {
        (55 + n) as char
    }
}

pub(crate) fn lower_digit(n: u8) -> (c: char)
    requires
        n < 16,
    ensures
        c == lower_hex_char(n),
{
    if n < 10 {
        (48 + n) as char
    } else {
        (87 + n) as char
    }
}

impl Cell {
    /// The cell as two upper-case hexadecimal digits, or `XX` when unknown.
    pub fn hex(&self) -> (r: String)
        ensures
            r@ == cell_hex(self.inner),
    {
        let mut r = String::new();
        match self.inner {
            Some(b) => {
                push_char(&mut r, upper_digit(b / 16));
                push_char(&mut r, upper_digit(b % 16));
            },
            None => {
                push_char(&mut r, 'X');
                push_char(&mut r, 'X');
            },
        }
        assert(r@ =~= cell_hex(self.inner));
        r
    }

    /// The cell as two lower-case hexadecimal digits, or `xx` when unknown.
    pub fn hex_str(&self) -> (r: String)
        ensures
            r@ == cell_hex_lower(self.inner),
    {
        let mut r = String::new();
        match self.inner {
            Some(b) => {
                push_char(&mut r, lower_digit(b / 16));
                push_char(&mut r, lower_digit(b % 16));
            },
            None => {
                push_char(&mut r, 'x');
                push_char(&mut r, 'x');
            },
        }
        assert(r@ =~= cell_hex_lower(self.inner));
        r
    }

    /// The cell as one character: itself when printable, `.` otherwise.
    pub fn ascii(&self) -> (r: String)
        ensures
            r@ == cell_ascii(self.inner),
    {
        let mut r = String::new();
        match self.inner {
            Some(b) => {
                if 0x20 <= b && b <= 0x7e {
                    push_char(&mut r, b as char);
                } else {
                    push_char(&mut r, '.');
                }
            },
            None => {
                push_char(&mut r, '.');
            },
        }
        assert(r@ =~= cell_ascii(self.inner));
        r
    }
}

} // verus!
