//! Percent-encoding for URLs and form bodies.

use vstd::prelude::*;
use vstd::utf8::encode_utf8;
use crate::text::push_char;

verus! {

/// Whether the byte stands for itself in encoded text: an ASCII letter or
/// digit, or one of `-`, `_`, `.`, `~`.
pub open spec fn is_unreserved(b: u8) -> bool {
    ||| 0x41 <= b <= 0x5A
    ||| 0x61 <= b <= 0x7A
    ||| 0x30 <= b <= 0x39
    ||| b == 0x2D
    ||| b == 0x5F
    ||| b == 0x2E
    ||| b == 0x7E
}

/// The upper-case hexadecimal digit for `n`, which is below 16.
pub open spec fn hex_char(n: int) -> char {
    if n < 10 {
        (48 + n) as u8 as char
    } else {
        (55 + n) as u8 as char
    }
}

/// What one byte becomes: itself if it is unreserved, else `%` and its two
/// hexadecimal digits.
pub open spec fn encoded_byte(b: u8) -> Seq<char> {
    if is_unreserved(b) {
        seq![b as char]
    } else {
        seq!['%', hex_char(b as int / 16), hex_char(b as int % 16)]
    }
}

/// What a sequence of bytes becomes: what its bytes become, one after
/// another.
pub open spec fn percent_encoded(bytes: Seq<u8>) -> Seq<char>
    decreases bytes.len(),
{
    if bytes.len() == 0 {
        Seq::empty()
    } else {
        percent_encoded(bytes.drop_last()) + encoded_byte(bytes.last())
    }
}

/// What text becomes: the percent-encoding of its UTF-8 bytes.
pub open spec fn encoded(s: Seq<char>) -> Seq<char> {
    percent_encoded(encode_utf8(s))
}

/// Decides whether the byte stands for itself in encoded text.
pub fn unreserved(b: u8) -> (r: bool)
    ensures
        r == is_unreserved(b),
{
    (0x41 <= b && b <= 0x5A) || (0x61 <= b && b <= 0x7A) || (0x30 <= b && b <= 0x39) || b == 0x2D
        || b == 0x5F || b == 0x2E || b == 0x7E
}

/// The upper-case hexadecimal digit for `n`.
pub fn hex_digit(n: u8) -> (c: char)
    requires
        n < 16,
    ensures
        c == hex_char(n as int),
{
    if n < 10 {
        (48 + n) as char
    } else {
        (55 + n) as char
    }
}

/// Percent-encodes `s`: unreserved ASCII characters stay, and every other
/// character becomes `%XX` for each byte of its UTF-8 encoding.
pub fn encode(s: &str) -> (r: String)
    ensures
        r@ == encoded(s@),
{
    let bytes = s.as_bytes();
    let mut out = String::new();
    let mut i: usize = 0;
    while i < bytes.len()
        invariant
            i <= bytes.len(),
            out@ == percent_encoded(bytes@.take(i as int)),
        decreases bytes.len() - i,
    {
        let b = bytes[i];
        proof {
            assert(bytes@.take(i as int + 1).drop_last() =~= bytes@.take(i as int));
        }
        let ghost before = out@;
        if unreserved(b) {
            push_char(&mut out, b as char);
            assert(out@ =~= before + encoded_byte(b));
        } else {
            push_char(&mut out, '%');
            push_char(&mut out, hex_digit(b / 16));
            push_char(&mut out, hex_digit(b % 16));
            assert(out@ =~= before + encoded_byte(b));
        }
        i += 1;
    }
    assert(bytes@.take(bytes.len() as int) =~= bytes@);
    out
}

/// Whether the character may stand in encoded text: `%`, or an unreserved
/// ASCII character, which the hexadecimal digits are among.
pub open spec fn is_encoded_char(c: char) -> bool {
    c == '%' || (c as u32 <= 0x7F && is_unreserved(c as u8))
}

/// Encoded text holds nothing but `%` and unreserved characters: whatever a
/// value contains, it cannot end a parameter or begin another.
pub proof fn lemma_encoded_is_safe(bytes: Seq<u8>, k: int)
    requires
        0 <= k < percent_encoded(bytes).len(),
    ensures
        is_encoded_char(percent_encoded(bytes)[k]),
    decreases bytes.len(),
{
    if bytes.len() > 0 {
        let head = percent_encoded(bytes.drop_last());
        let b = bytes.last();
        if k < head.len() {
            lemma_encoded_is_safe(bytes.drop_last(), k);
        } else {
            let tail = encoded_byte(b);
            assert(percent_encoded(bytes)[k] == tail[k - head.len()]);
            if !is_unreserved(b) {
                assert(0 <= b as int / 16 < 16 && 0 <= b as int % 16 < 16);
                lemma_hex_char(b as int / 16);
                lemma_hex_char(b as int % 16);
            }
        }
    }
}

/// A hexadecimal digit is an unreserved character.
pub proof fn lemma_hex_char(n: int)
    requires
        0 <= n < 16,
    ensures
        is_encoded_char(hex_char(n)),
        hex_char(n) != '%',
{
}

} // verus!
