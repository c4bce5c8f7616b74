//! Secrets: drawing the token of a name, and comparing secrets.
use subtle::ConstantTimeEq;
use vstd::prelude::*;

verus! {

/// The number of characters of a name's token.
pub const TOKEN_CHARS: u32 = 32;

/// `rand::random::<u128>`: a number drawn from the thread's generator. Nothing is claimed of it
/// but its type: every number can come.
#[verifier::external_body]
fn random_number() -> u128 {
    rand::random::<u128>()
}

/// `subtle::ConstantTimeEq::ct_eq` on byte slices: whether they hold the same bytes. That the
/// time taken does not depend on where they differ is not stated.
#[verifier::external_body]
fn ct_eq(a: &[u8], b: &[u8]) -> (equal: bool)
    ensures
        equal == (a@ == b@),
{
    a.ct_eq(b).into()
}

/// Whether two secrets are the same text.
pub fn same_secret(a: &str, b: &str) -> (same: bool)
    ensures
        same == (a@ == b@),
{
    proof {
        vstd::utf8::encode_utf8_decode_utf8(a@);
        vstd::utf8::encode_utf8_decode_utf8(b@);
    }
    ct_eq(a.as_bytes(), b.as_bytes())
}

/// The lower-case hexadecimal digit of a number below 16.
pub open spec fn hex_digit(n: int) -> char {
    if n < 10 {
        ('0' as int + n) as char
    } else {
        ('a' as int + n - 10) as char
    }
}

/// The last `width` hexadecimal digits of a number, the highest first, zeros in front.
pub open spec fn hex_digits(n: int, width: nat) -> Seq<char>
    decreases width,
{
    if width == 0 {
        Seq::empty()
    } else {
        hex_digits(n / 16, (width - 1) as nat).push(hex_digit(n % 16))
    }
}

fn digit_text(n: u128) -> (text: &'static str)
    requires
        n < 16,
    ensures
        text@ == seq![hex_digit(n as int)],
{
    proof {
        reveal_strlit("0");
        reveal_strlit("1");
        reveal_strlit("2");
        reveal_strlit("3");
        reveal_strlit("4");
        reveal_strlit("5");
        reveal_strlit("6");
        reveal_strlit("7");
        reveal_strlit("8");
        reveal_strlit("9");
        reveal_strlit("a");
        reveal_strlit("b");
        reveal_strlit("c");
        reveal_strlit("d");
        reveal_strlit("e");
        reveal_strlit("f");
    }
    if n == 0 {
        "0"
    } else if n == 1 {
        "1"
    } else if n == 2 {
        "2"
    } else if n == 3 {
        "3"
    } else if n == 4 {
        "4"
    } else if n == 5 {
        "5"
    } else if n == 6 {
        "6"
    } else if n == 7 {
        "7"
    } else if n == 8 {
        "8"
    } else if n == 9 {
        "9"
    } else if n == 10 {
        "a"
    } else if n == 11 {
        "b"
    } else if n == 12 {
        "c"
    } else if n == 13 {
        "d"
    } else if n == 14 {
        "e"
    } else {
        "f"
    }
}

/// The last `width` hexadecimal digits of a number, in lower case.
pub fn hex_text(n: u128, width: u32) -> (text: String)
    ensures
        text@ == hex_digits(n as int, width as nat),
    decreases width,
{
    if width == 0 {
        String::new()
    } else {
        let mut text = hex_text(n / 16, width - 1);
        text.append(digit_text(n % 16));
        assert(text@ =~= hex_digits(n as int, width as nat));
        text
    }
}

/// The token that stands for a 128-bit number: its 32 hexadecimal digits.
pub open spec fn token_text(n: u128) -> Seq<char> {
    hex_digits(n as int, TOKEN_CHARS as nat)
}

/// A text is the token of some 128-bit number.
pub open spec fn is_token(text: Seq<char>) -> bool {
    exists|n: u128| text == #[trigger] token_text(n)
}

/// Draws a fresh token.
pub fn token() -> (text: String)
    ensures
        is_token(text@),
{
    let n: u128 = random_number();
    let text = hex_text(n, TOKEN_CHARS);
    assert(text@ == token_text(n));
    text
}

spec fn power_of_16(width: nat) -> nat
    decreases width,
{
    if width == 0 {
        1
    } else {
        16 * power_of_16((width - 1) as nat)
    }
}

proof fn lemma_hex_digits_injective(a: int, b: int, width: nat)
    requires
        0 <= a < power_of_16(width),
        0 <= b < power_of_16(width),
        hex_digits(a, width) == hex_digits(b, width),
    ensures
        a == b,
    decreases width,
{
    if width > 0 {
        let rest = (width - 1) as nat;
        let x = hex_digits(a / 16, rest);
        let y = hex_digits(b / 16, rest);
        assert(x =~= x.push(hex_digit(a % 16)).drop_last());
        assert(y =~= y.push(hex_digit(b % 16)).drop_last());
        assert(x.push(hex_digit(a % 16)).last() == y.push(hex_digit(b % 16)).last());
        lemma_hex_digits_injective(a / 16, b / 16, rest);
    }
}

proof fn lemma_hex_digits_shape(n: int, width: nat)
    requires
        0 <= n,
    ensures
        hex_digits(n, width).len() == width,
        forall|i: int|
            0 <= i < width ==> {
                let c = #[trigger] hex_digits(n, width)[i];
                ('0' <= c && c <= '9') || ('a' <= c && c <= 'f')
            },
    decreases width,
{
    if width > 0 {
        lemma_hex_digits_shape(n / 16, (width - 1) as nat);
    }
}

/// A token has 32 characters, all of them lower-case hexadecimal digits.
pub proof fn law_token_shape(n: u128)
    ensures
        token_text(n).len() == TOKEN_CHARS,
        forall|i: int|
            0 <= i < TOKEN_CHARS ==> {
                let c = #[trigger] token_text(n)[i];
                ('0' <= c && c <= '9') || ('a' <= c && c <= 'f')
            },
{
    lemma_hex_digits_shape(n as int, TOKEN_CHARS as nat);
}

/// A token holds all 128 bits of its number: different numbers have different tokens.
pub proof fn law_token_injective(m: u128, n: u128)
    requires
        token_text(m) == token_text(n),
    ensures
        m == n,
{
    assert(u128::MAX < power_of_16(32)) by {
        reveal_with_fuel(power_of_16, 33);
    }
    lemma_hex_digits_injective(m as int, n as int, TOKEN_CHARS as nat);
}

} // verus!
