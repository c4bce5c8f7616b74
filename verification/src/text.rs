//! Comparing texts, and the classes of characters that names and secrets are made of.
use vstd::prelude::*;
use vstd::utf8::encode_utf8;

use crate::limits::MAX_NAME;

verus! {

/// Whether two texts hold the same characters.
pub fn same_text(a: &str, b: &str) -> (same: bool)
    ensures
        same == (a@ == b@),
{
    let x: &[u8] = a.as_bytes();
    let y: &[u8] = b.as_bytes();
    proof {
        vstd::utf8::encode_utf8_decode_utf8(a@);
        vstd::utf8::encode_utf8_decode_utf8(b@);
    }
    if x.len() != y.len() {
        return false;
    }
    let mut i: usize = 0;
    while i < x.len()
        invariant
            i <= x@.len(),
            x@.len() == y@.len(),
            x@ == encode_utf8(a@),
            y@ == encode_utf8(b@),
            forall|k: int| 0 <= k < i ==> x@[k] == y@[k],
        decreases x@.len() - i,
    {
        if x[i] != y[i] {
            return false;
        }
        i += 1;
    }
    assert(x@ =~= y@);
    true
}

/// Whether a text is one of those in a list.
pub fn one_of(text: &str, list: &[&str]) -> (found: bool)
    ensures
        found == exists|i: int| 0 <= i < list@.len() && list@[i]@ == text@,
{
    let mut i: usize = 0;
    while i < list.len()
        invariant
            i <= list@.len(),
            forall|k: int| 0 <= k < i ==> list@[k]@ != text@,
        decreases list@.len() - i,
    {
        if same_text(list[i], text) {
            return true;
        }
        i += 1;
    }
    false
}

/// A class of ASCII characters.
#[derive(Clone, Copy, Debug, PartialEq, Eq, Structural)]
pub enum CharClass {
    /// Letters, digits, `_` and `-`.
    Name,
    /// Letters, digits, `_`, `-` and `.`.
    Interface,
    /// Hexadecimal digits of either case.
    HexDigit,
}

/// An ASCII letter or digit.
pub open spec fn is_alphanumeric(c: char) -> bool {
    ('0' <= c && c <= '9') || ('A' <= c && c <= 'Z') || ('a' <= c && c <= 'z')
}

/// Membership of a character in a class.
pub open spec fn in_class(class: CharClass, c: char) -> bool {
    match class {
        CharClass::Name => is_alphanumeric(c) || c == '_' || c == '-',
        CharClass::Interface => is_alphanumeric(c) || c == '_' || c == '-' || c == '.',
        CharClass::HexDigit => ('0' <= c && c <= '9') || ('A' <= c && c <= 'F') || ('a' <= c && c
            <= 'f'),
    }
}

/// All characters of a text are of one class.
pub open spec fn all_in_class(class: CharClass, text: Seq<char>) -> bool {
    forall|i: int| 0 <= i < text.len() ==> in_class(class, #[trigger] text[i])
}

fn byte_in_class(class: CharClass, b: u8) -> (member: bool)
    requires
        b < 0x80,
    ensures
        member == in_class(class, b as char),
{
    let digit: bool = 0x30 <= b && b <= 0x39;
    match class {
        CharClass::Name => digit || (0x41 <= b && b <= 0x5a) || (0x61 <= b && b <= 0x7a) || b
            == 0x5f || b == 0x2d,
        CharClass::Interface => digit || (0x41 <= b && b <= 0x5a) || (0x61 <= b && b <= 0x7a) || b
            == 0x5f || b == 0x2d || b == 0x2e,
        CharClass::HexDigit => digit || (0x41 <= b && b <= 0x46) || (0x61 <= b && b <= 0x66),
    }
}

/// Whether a text has between `shortest` and `longest` characters, all of one class.
pub fn is_word(text: &str, class: CharClass, shortest: usize, longest: usize) -> (word: bool)
    ensures
        word == (shortest <= text@.len() <= longest && all_in_class(class, text@)),
{
    if !text.is_ascii() {
        proof {
            let i = choose|i: int| 0 <= i < text@.len() && !('\0' <= #[trigger] text@[i] <= '\u{7f}');
            assert(!in_class(class, text@[i]));
        }
        return false;
    }
    let bytes: &[u8] = text.as_bytes();
    proof {
        vstd::utf8::is_ascii_chars_encode_utf8(text@);
    }
    if bytes.len() < shortest || bytes.len() > longest {
        return false;
    }
    let mut i: usize = 0;
    while i < bytes.len()
        invariant
            i <= bytes@.len(),
            bytes@ == encode_utf8(text@),
            bytes@.len() == text@.len(),
            vstd::utf8::is_ascii_chars(text@),
            forall|k: int| 0 <= k < bytes@.len() ==> text@[k] as u8 == #[trigger] bytes@[k],
            forall|k: int| 0 <= k < i ==> in_class(class, #[trigger] text@[k]),
        decreases bytes@.len() - i,
    {
        let b: u8 = bytes[i];
        assert('\0' <= text@[i as int] <= '\u{7f}');
        assert(b as char == text@[i as int]);
        if !byte_in_class(class, b) {
            return false;
        }
        i += 1;
    }
    true
}

/// What a name looks like: 1 to 32 ASCII letters, digits, hyphens or underscores.
pub open spec fn is_name(text: Seq<char>) -> bool {
    1 <= text.len() <= MAX_NAME && all_in_class(CharClass::Name, text)
}

/// Whether a text can be registered as a name.
pub fn valid_name(name: &str) -> (valid: bool)
    ensures
        valid == is_name(name@),
{
    is_word(name, CharClass::Name, 1, MAX_NAME)
}

} // verus!
