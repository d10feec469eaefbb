//! Hexadecimal text of byte strings.

use vstd::prelude::*;

use crate::text::{chars_of, string_from_chars};

verus! {

/// Whether `c` is a hexadecimal digit, in either case.
pub open spec fn is_hex_digit(c: char) -> bool {
    ('0' <= c && c <= '9') || ('a' <= c && c <= 'f') || ('A' <= c && c <= 'F')
}

/// Whether `c` is a decimal digit or one of the lower case letters `a` to `f`.
pub open spec fn is_lower_hex_digit(c: char) -> bool {
    ('0' <= c && c <= '9') || ('a' <= c && c <= 'f')
}

/// The number that the hexadecimal digit `c` stands for.
pub open spec fn hex_value(c: char) -> int {
    if '0' <= c && c <= '9' {
        c as int - '0' as int
    } else if 'a' <= c && c <= 'f' {
        c as int - 'a' as int + 10
    } else {
        c as int - 'A' as int + 10
    }
}

/// The lower case hexadecimal digit for `n`, where `n` is below 16.
pub open spec fn hex_digit(n: int) -> char {
    if n < 10 {
        ('0' as int + n) as char
    } else {
        ('a' as int + n - 10) as char
    }
}

/// Two lower case hexadecimal digits per byte, high half first.
pub open spec fn hex_of_bytes(bytes: Seq<u8>) -> Seq<char> {
    Seq::new(
        2 * bytes.len(),
        |i: int| if i % 2 == 0 {
            hex_digit(bytes[i / 2] as int / 16)
        } else {
            hex_digit(bytes[i / 2] as int % 16)
        },
    )
}

/// Whether `s` holds nothing but decimal digits and the lower case letters
/// `a` to `f`.
pub open spec fn is_lower_hex_text(s: Seq<char>) -> bool {
    forall|i: int| 0 <= i < s.len() ==> is_lower_hex_digit(#[trigger] s[i])
}

/// Whether `s` is an even number of hexadecimal digits.
pub open spec fn is_hex_text(s: Seq<char>) -> bool {
    s.len() % 2 == 0 && forall|i: int| 0 <= i < s.len() ==> is_hex_digit(#[trigger] s[i])
}

/// The bytes that the hexadecimal text `s` stands for.
pub open spec fn bytes_of_hex(s: Seq<char>) -> Seq<u8> {
    Seq::new(s.len() / 2, |i: int| (16 * hex_value(s[2 * i]) + hex_value(s[2 * i + 1])) as u8)
}

/// Whether `s` is a 64 digit hexadecimal identifier.
pub open spec fn is_identifier_text(s: Seq<char>) -> bool {
    s.len() == 64 && forall|i: int| 0 <= i < s.len() ==> is_hex_digit(#[trigger] s[i])
}

/// Decides whether `c` is a hexadecimal digit.
pub fn char_is_hex_digit(c: char) -> (r: bool)
    ensures
        r == is_hex_digit(c),
{
    ('0' <= c && c <= '9') || ('a' <= c && c <= 'f') || ('A' <= c && c <= 'F')
}

/// The lower case hexadecimal digit for `n`.
pub fn hex_digit_of(n: u8) -> (c: char)
    requires
        n < 16,
    ensures
        c == hex_digit(n as int),
        is_lower_hex_digit(c),
        hex_value(c) == n,
{
    if n < 10 {
        (48u8 + n) as char
    } else {
        (97u8 + (n - 10)) as char
    }
}

/// The number that `c` stands for, where `c` is a hexadecimal digit.
pub fn hex_value_of(c: char) -> (r: Option<u8>)
    ensures
        match r {
            Some(n) => is_hex_digit(c) && n == hex_value(c) && n < 16,
            None => !is_hex_digit(c),
        },
{
    if '0' <= c && c <= '9' {
        Some((c as u32 - '0' as u32) as u8)
    } else if 'a' <= c && c <= 'f' {
        Some((c as u32 - 'a' as u32 + 10) as u8)
    } else if 'A' <= c && c <= 'F' {
        Some((c as u32 - 'A' as u32 + 10) as u8)
    } else {
        None
    }
}

/// Whether `s` is made of exactly 64 hexadecimal digits.
pub fn is_identifier(s: &str) -> (r: bool)
    ensures
        r == is_identifier_text(s@),
{
    let v = chars_of(s);
    if v.len() != 64 {
        return false;
    }
    let mut i: usize = 0;
    while i < v.len()
        invariant
            i <= v.len(),
            v@ == s@,
            forall|j: int| 0 <= j < i ==> is_hex_digit(#[trigger] v@[j]),
        decreases v.len() - i,
    {
        if !char_is_hex_digit(v[i]) {
            return false;
        }
        i += 1;
    }
    true
}

/// The lower case hexadecimal text of `array`.
pub fn byte_array_to_hex_string(array: &[u8]) -> (s: String)
    ensures
        s@ == hex_of_bytes(array@),
{
    let mut out: Vec<char> = Vec::new();
    let mut i: usize = 0;
    while i < array.len()
        invariant
            i <= array.len(),
            out@ == hex_of_bytes(array@.take(i as int)),
        decreases array.len() - i,
    {
        let b = array[i];
        out.push(hex_digit_of(b / 16));
        out.push(hex_digit_of(b % 16));
        assert(out@ =~= hex_of_bytes(array@.take(i + 1)));
        i += 1;
    }
    assert(array@.take(array.len() as int) =~= array@);
    string_from_chars(&out)
}

/// The bytes that the hexadecimal text `hex_string` stands for. Fails where
/// the text is not an even number of hexadecimal digits.
pub fn hex_string_to_byte_array(hex_string: &str) -> (r: Result<Vec<u8>, &'static str>)
    ensures
        match r {
            Ok(bytes) => is_hex_text(hex_string@) && bytes@ == bytes_of_hex(hex_string@),
            Err(_) => !is_hex_text(hex_string@),
        },
{
    let v = chars_of(hex_string);
    if v.len() % 2 != 0 {
        return Err("invalid hex string");
    }
    let mut bytes: Vec<u8> = Vec::new();
    let mut i: usize = 0;
    while i < v.len()
        invariant
            i <= v.len(),
            i % 2 == 0,
            v.len() % 2 == 0,
            v@ == hex_string@,
            forall|j: int| 0 <= j < i ==> is_hex_digit(#[trigger] v@[j]),
            bytes@ == bytes_of_hex(v@.take(i as int)),
        decreases v.len() - i,
    {
        let hi = match hex_value_of(v[i]) {
            Some(n) => n,
            None => {
                return Err("invalid hex string");
            },
        };
        let lo = match hex_value_of(v[i + 1]) {
            Some(n) => n,
            None => {
                return Err("invalid hex string");
            },
        };
        bytes.push(16 * hi + lo);
        assert(bytes@ =~= bytes_of_hex(v@.take(i + 2)));
        i += 2;
    }
    assert(v@.take(v.len() as int) =~= v@);
    Ok(bytes)
}

/// The hexadecimal text of a byte string holds lower case digits only.
pub proof fn lemma_hex_is_lower(bytes: Seq<u8>)
    ensures
        hex_of_bytes(bytes).len() == 2 * bytes.len(),
        is_lower_hex_text(hex_of_bytes(bytes)),
{
    let h = hex_of_bytes(bytes);
    assert forall|i: int| 0 <= i < 2 * bytes.len() implies is_lower_hex_digit(#[trigger] h[i]) by {
        let b = bytes[i / 2] as int;
        assert(0 <= b / 16 < 16 && 0 <= b % 16 < 16);
    }
}

/// Reading the hexadecimal text of a byte string gives the byte string back.
pub proof fn lemma_hex_round_trip(bytes: Seq<u8>)
    ensures
        is_hex_text(hex_of_bytes(bytes)),
        bytes_of_hex(hex_of_bytes(bytes)) == bytes,
{
    let h = hex_of_bytes(bytes);
    assert forall|i: int| 0 <= i < h.len() implies is_hex_digit(#[trigger] h[i]) by {
        let b = bytes[i / 2] as int;
        assert(0 <= b / 16 < 16 && 0 <= b % 16 < 16);
    }
    assert forall|i: int| 0 <= i < bytes.len() implies bytes_of_hex(h)[i] == bytes[i] by {
        let b = bytes[i] as int;
        assert(0 <= b / 16 < 16 && 0 <= b % 16 < 16);
        assert((2 * i) / 2 == i && (2 * i + 1) / 2 == i);
        assert((2 * i) % 2 == 0 && (2 * i + 1) % 2 == 1);
        assert(hex_value(h[2 * i]) == b / 16);
        assert(hex_value(h[2 * i + 1]) == b % 16);
    }
    assert(bytes_of_hex(h) =~= bytes);
}

} // verus!
