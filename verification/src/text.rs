//! UTF-8 validity of raw datagram payloads.
//!
//! The relay broadcasts a datagram only when its bytes form valid UTF-8 text;
//! anything else is dropped. Validity is defined here as a specification over
//! the byte sequence, and checked at runtime by a verified scanner.

use vstd::prelude::*;

verus! {

/// Number of bytes in a UTF-8 encoded character whose leading byte is `b`,
/// or 0 when `b` cannot lead a character. Leading bytes 0xC0 and 0xC1 would
/// only start overlong two-byte forms and bytes above 0xF4 would encode code
/// points past U+10FFFF, so none of them leads a character.
pub open spec fn utf8_len(b: u8) -> int {
    if b < 0x80 {
        1
    } else if 0xC2 <= b && b <= 0xDF {
        2
    } else if 0xE0 <= b && b <= 0xEF {
        3
    } else if 0xF0 <= b && b <= 0xF4 {
        4
    } else {
        0
    }
}

/// A continuation byte of a multi-byte character.
pub open spec fn is_cont(b: u8) -> bool {
    0x80 <= b && b <= 0xBF
}

/// The bytes starting at position `i` form one well-formed character.
/// Presumes `i + utf8_len(s[i]) <= s.len()`.
///
/// The range restrictions on the second byte rule out overlong encodings
/// (0xE0 and 0xF0), surrogate code points (0xED) and code points past
/// U+10FFFF (0xF4).
pub open spec fn valid_char_at(s: Seq<u8>, i: int) -> bool {
    let l = utf8_len(s[i]);
    if l == 1 {
        true
    } else if l == 2 {
        is_cont(s[i + 1])
    } else if l == 3 {
        is_cont(s[i + 1]) && is_cont(s[i + 2]) && (s[i] != 0xE0 || s[i + 1] >= 0xA0) && (s[i]
            != 0xED || s[i + 1] <= 0x9F)
    } else if l == 4 {
        is_cont(s[i + 1]) && is_cont(s[i + 2]) && is_cont(s[i + 3]) && (s[i] != 0xF0 || s[i + 1]
            >= 0x90) && (s[i] != 0xF4 || s[i + 1] <= 0x8F)
    } else {
        false
    }
}

/// The bytes from position `i` to the end decompose into well-formed
/// characters.
pub open spec fn utf8_from(s: Seq<u8>, i: int) -> bool
    decreases s.len() - i,
    when 0 <= i <= s.len()
{
    if i == s.len() {
        true
    } else {
        let l = utf8_len(s[i]);
        0 < l && i + l <= s.len() && valid_char_at(s, i) && utf8_from(s, i + l)
    }
}

/// The whole byte sequence is valid UTF-8 text.
pub open spec fn is_utf8(s: Seq<u8>) -> bool {
    utf8_from(s, 0)
}

/// Runtime check that `data` is valid UTF-8, equivalent to the
/// specification `is_utf8`.
pub fn is_valid_utf8(data: &Vec<u8>) -> (r: bool)
    ensures
        r == is_utf8(data@),
{
    let n = data.len();
    let mut i: usize = 0;
    while i < n
        invariant
            i <= n,
            n == data@.len(),
            is_utf8(data@) == utf8_from(data@, i as int),
        decreases n - i,
    {
        let b = data[i];
        if b < 0x80 {
            i = i + 1;
        } else if 0xC2 <= b && b <= 0xDF {
            if n - i < 2 || !cont_byte(data[i + 1]) {
                return false;
            }
            i = i + 2;
        } else if 0xE0 <= b && b <= 0xEF {
            if n - i < 3 || !cont_byte(data[i + 1]) || !cont_byte(data[i + 2]) {
                return false;
            }
            if b == 0xE0 && data[i + 1] < 0xA0 {
                return false;
            }
            if b == 0xED && data[i + 1] > 0x9F {
                return false;
            }
            i = i + 3;
        } else if 0xF0 <= b && b <= 0xF4 {
            if n - i < 4 || !cont_byte(data[i + 1]) || !cont_byte(data[i + 2]) || !cont_byte(
                data[i + 3],
            ) {
                return false;
            }
            if b == 0xF0 && data[i + 1] < 0x90 {
                return false;
            }
            if b == 0xF4 && data[i + 1] > 0x8F {
                return false;
            }
            i = i + 4;
        } else {
            return false;
        }
    }
    true
}

/// Runtime check for a continuation byte.
fn cont_byte(b: u8) -> (r: bool)
    ensures
        r == is_cont(b),
{
    0x80 <= b && b <= 0xBF
}

} // verus!
