//! Byte encodings the providers need: the UTF-8 bytes of a string, standard
//! Base64 (for HTTP Basic authorization) and URL percent-encoding (for query
//! parameters). Both encoders are the outside crates'; what they compute is
//! stated here.
use vstd::prelude::*;

verus! {

/// The UTF-8 encoding of one character.
pub open spec fn char_bytes(c: char) -> Seq<u8> {
    let u = c as u32;
    if u < 0x80 {
        seq![u as u8]
    } else if u < 0x800 {
        seq![(0xC0 | (u >> 6)) as u8, (0x80 | (u & 0x3F)) as u8]
    } else if u < 0x10000 {
        seq![(0xE0 | (u >> 12)) as u8, (0x80 | ((u >> 6) & 0x3F)) as u8, (0x80 | (u & 0x3F)) as u8]
    } else {
        seq![
            (0xF0 | (u >> 18)) as u8,
            (0x80 | ((u >> 12) & 0x3F)) as u8,
            (0x80 | ((u >> 6) & 0x3F)) as u8,
            (0x80 | (u & 0x3F)) as u8,
        ]
    }
}

/// The UTF-8 encoding of a string.
pub open spec fn utf8_bytes(s: Seq<char>) -> Seq<u8>
    decreases s.len(),
{
    if s.len() == 0 {
        Seq::empty()
    } else {
        utf8_bytes(s.drop_last()) + char_bytes(s.last())
    }
}

/// The Base64 digit of a 6-bit value (standard alphabet).
pub open spec fn b64_digit(v: u8) -> char {
    if v < 26 {
        (('A' as u32) + v as u32) as char
    } else if v < 52 {
        (('a' as u32) + (v as u32 - 26)) as char
    } else if v < 62 {
        (('0' as u32) + (v as u32 - 52)) as char
    } else if v == 62 {
        '+'
    } else {
        '/'
    }
}

/// Standard Base64 with `=` padding.
pub open spec fn base64(b: Seq<u8>) -> Seq<char>
    decreases b.len(),
{
    if b.len() == 0 {
        Seq::empty()
    } else if b.len() == 1 {
        seq![b64_digit(b[0] >> 2), b64_digit((b[0] & 3) << 4), '=', '=']
    } else if b.len() == 2 {
        seq![
            b64_digit(b[0] >> 2),
            b64_digit(((b[0] & 3) << 4) | (b[1] >> 4)),
            b64_digit((b[1] & 15) << 2),
            '=',
        ]
    } else {
        seq![
            b64_digit(b[0] >> 2),
            b64_digit(((b[0] & 3) << 4) | (b[1] >> 4)),
            b64_digit(((b[1] & 15) << 2) | (b[2] >> 6)),
            b64_digit(b[2] & 63),
        ] + base64(b.skip(3))
    }
}

/// Whether the Base64 text of `n` bytes has a length that fits in `usize`.
pub open spec fn base64_size_fits(n: nat) -> bool {
    (n / 3) * 4 + (if n % 3 > 0 { 4nat } else { 0nat }) <= usize::MAX
}

/// `base64::encode` (version 0.13) of a string's bytes: standard alphabet
/// with padding. It panics when the size of its output overflows `usize`,
/// which `requires` leaves out.
#[verifier::external_body]
pub(crate) fn base64_encode(s: &str) -> (r: String)
    requires
        base64_size_fits(utf8_bytes(s@).len()),
    ensures
        r@ == base64(utf8_bytes(s@)),
{
    base64::encode(s)
}

/// A byte `urlencoding` leaves as it is: ASCII letters and digits, `-`,
/// `.`, `_` and `~`.
pub open spec fn unreserved(b: u8) -> bool {
    (48 <= b <= 57) || (65 <= b <= 90) || (97 <= b <= 122) || b == 45 || b == 46 || b == 95 || b
        == 126
}

/// The upper-case hexadecimal digit of a 4-bit value.
pub open spec fn hex_digit(v: u8) -> char {
    if v < 10 {
        (('0' as u32) + v as u32) as char
    } else {
        (('A' as u32) + (v as u32 - 10)) as char
    }
}

/// Percent-encoding: every byte but the unreserved ones becomes `%XX`.
pub open spec fn percent_encoded(b: Seq<u8>) -> Seq<char>
    decreases b.len(),
{
    if b.len() == 0 {
        Seq::empty()
    } else {
        percent_encoded(b.drop_last()) + if unreserved(b.last()) {
            seq![b.last() as char]
        } else {
            seq!['%', hex_digit(b.last() >> 4), hex_digit(b.last() & 15)]
        }
    }
}

/// `urlencoding::encode` (version 2): the UTF-8 bytes of the string with
/// every byte except ASCII alphanumerics and `-`, `.`, `_`, `~` written
/// as `%` and two upper-case hexadecimal digits.
#[verifier::external_body]
pub(crate) fn url_encode(s: &str) -> (r: String)
    ensures
        r@ == percent_encoded(utf8_bytes(s@)),
{
    urlencoding::encode(s).into_owned()
}

} // verus!
