use vstd::prelude::*;
use vstd::string::StringSliceAdditionalSpecFns;
use vstd::utf8::{encode_utf8, is_ascii_chars, is_ascii_chars_encode_utf8};

verus! {

/// Whether the byte is an ASCII hex digit: `0-9`, `a-f` or `A-F`.
pub open spec fn is_hex_digit(b: u8) -> bool {
    (0x30 <= b <= 0x39) || (0x61 <= b <= 0x66) || (0x41 <= b <= 0x46)
}

/// The value, from 0 to 15, of a hex digit byte.
pub open spec fn hex_digit_value(b: u8) -> int {
    if b <= 0x39 {
        b - 0x30
    } else if b >= 0x61 {
        b - 0x61 + 10
    } else {
        b - 0x41 + 10
    }
}

/// Whether the bytes are a well-formed hex text: an even number of hex digits.
pub open spec fn is_hex_text(t: Seq<u8>) -> bool {
    &&& t.len() % 2 == 0
    &&& forall|i: int| 0 <= i < t.len() ==> is_hex_digit(#[trigger] t[i])
}

/// The bytes that a well-formed hex text stands for: each pair of digits is
/// one byte, high digit first.
pub open spec fn hex_decoded(t: Seq<u8>) -> Seq<u8> {
    Seq::new(
        t.len() / 2,
        |k: int| (16 * hex_digit_value(t[2 * k]) + hex_digit_value(t[2 * k + 1])) as u8,
    )
}

/// Whether `index` is the position of the first byte of `t` that is not a hex digit.
pub open spec fn is_first_invalid(t: Seq<u8>, index: int) -> bool {
    &&& 0 <= index < t.len()
    &&& !is_hex_digit(t[index])
    &&& forall|j: int| 0 <= j < index ==> is_hex_digit(#[trigger] t[j])
}

/// The lowercase hex digit for a value from 0 to 15.
pub open spec fn hex_digit_char(v: int) -> char {
    if v < 10 {
        (0x30 + v) as char
    } else {
        (0x57 + v) as char
    }
}

/// The lowercase hex text of a byte sequence: two digits per byte, high digit first.
pub open spec fn hex_encoded(b: Seq<u8>) -> Seq<char> {
    Seq::new(
        2 * b.len(),
        |i: int|
            if i % 2 == 0 {
                hex_digit_char(b[i / 2] as int / 16)
            } else {
                hex_digit_char(b[i / 2] as int % 16)
            },
    )
}

/// Why a hex text could not be decoded.
#[derive(Debug, Clone, Copy, PartialEq, Eq, Structural)]
pub enum HexError {
    /// The character at byte position `index` is not a hex digit.
    InvalidHexCharacter { c: char, index: usize },
    /// The text has an odd number of bytes.
    OddLength,
    /// The text does not fit the fixed size it was decoded into.
    InvalidStringLength,
}

/// The text that describes a `HexError`.
pub open spec fn hex_error_text(e: HexError) -> Seq<char> {
    match e {
        HexError::InvalidHexCharacter { .. } => "Invalid character"@,
        HexError::OddLength => "Odd number of digits"@,
        HexError::InvalidStringLength => "Invalid string length"@,
    }
}

impl HexError {
    /// A short human-readable description of the error.
    pub fn message(&self) -> (r: String)
        ensures
            r@ == hex_error_text(*self),
    {
        match self {
            HexError::InvalidHexCharacter { .. } => "Invalid character".to_string(),
            HexError::OddLength => "Odd number of digits".to_string(),
            HexError::InvalidStringLength => "Invalid string length".to_string(),
        }
    }
}

/// What `hex_to_bytes` reports for the text `t` (taken as bytes).
pub open spec fn hex_result(t: Seq<u8>, r: Result<Vec<u8>, HexError>) -> bool {
    match r {
        Ok(v) => is_hex_text(t) && v@ == hex_decoded(t),
        Err(HexError::OddLength) => t.len() % 2 == 1,
        Err(HexError::InvalidHexCharacter { c, index }) => {
            &&& t.len() % 2 == 0
            &&& is_first_invalid(t, index as int)
            &&& c == t[index as int] as char
        },
        Err(HexError::InvalidStringLength) => false,
    }
}

/// Relies on hex::decode: it fails on an odd byte length first, then on the
/// first byte that is not a hex digit, and otherwise turns each pair of
/// digits into one byte.
#[verifier::external_body]
fn hex_decode(text: &str) -> (r: Result<Vec<u8>, HexError>)
    ensures
        hex_result(text.spec_bytes(), r),
{
    match hex::decode(text) {
        Ok(v) => Ok(v),
        Err(hex::FromHexError::InvalidHexCharacter { c, index }) => Err(
            HexError::InvalidHexCharacter { c, index },
        ),
        Err(hex::FromHexError::OddLength) => Err(HexError::OddLength),
        Err(hex::FromHexError::InvalidStringLength) => Err(HexError::InvalidStringLength),
    }
}

/// Decodes a hex text (digits in either case) into bytes, reporting a
/// `HexError` on an odd length or a byte that is not a hex digit.
pub fn hex_to_bytes(hex: &str) -> (r: Result<Vec<u8>, HexError>)
    ensures
        hex_result(hex.spec_bytes(), r),
        r is Ok <==> is_hex_text(hex.spec_bytes()),
{
    hex_decode(hex)
}

/// The message with which `decode_hex` rejects the text `t` (taken as bytes).
pub open spec fn decode_hex_error_text(t: Seq<u8>) -> Seq<char> {
    if t.len() % 2 == 1 {
        "Decoded hex string must have an even length"@
    } else {
        "Invalid hex: "@ + "Invalid character"@
    }
}

/// Decodes a hex text (digits in either case) into bytes. An odd length is
/// reported first; otherwise a byte that is not a hex digit is reported with
/// the description of the decoding error.
pub fn decode_hex(hex_str: &str) -> (r: Result<Vec<u8>, String>)
    ensures
        r is Ok <==> is_hex_text(hex_str.spec_bytes()),
        r matches Ok(v) ==> v@ == hex_decoded(hex_str.spec_bytes()),
        r matches Err(e) ==> e@ == decode_hex_error_text(hex_str.spec_bytes()),
{
    if hex_str.as_bytes().len() % 2 != 0 {
        return Err("Decoded hex string must have an even length".to_string());
    }
    match hex_to_bytes(hex_str) {
        Ok(v) => Ok(v),
        Err(e) => {
            let mut text = "Invalid hex: ".to_string();
            text.append(e.message().as_str());
            Err(text)
        },
    }
}

/// Relies on hex::encode: the lowercase digits of each byte in turn, high digit first.
#[verifier::external_body]
fn hex_encode(bytes: &[u8]) -> (r: String)
    ensures
        r@ == hex_encoded(bytes@),
{
    hex::encode(bytes)
}

/// Encodes bytes as a lowercase hex string, two digits per byte.
pub fn bytes_to_hex(bytes: &[u8]) -> (r: String)
    ensures
        r@ == hex_encoded(bytes@),
        r@.len() == 2 * bytes@.len(),
{
    hex_encode(bytes)
}

/// Whether the character is an ASCII hex digit: `0-9`, `a-f` or `A-F`.
pub open spec fn is_hex_char(c: char) -> bool {
    ('0' <= c <= '9') || ('a' <= c <= 'f') || ('A' <= c <= 'F')
}

/// The text with its ASCII capital letters made small.
pub open spec fn ascii_lowercase(h: Seq<char>) -> Seq<char> {
    h.map_values(|c: char| if 'A' <= c <= 'Z' { (c as int + 32) as char } else { c })
}

proof fn lemma_digit_char(v: int)
    requires
        0 <= v < 16,
    ensures
        hex_digit_char(v) <= '\u{7f}',
        is_hex_digit(hex_digit_char(v) as u8),
        hex_digit_value(hex_digit_char(v) as u8) == v,
{
}

proof fn lemma_char_digit(c: char)
    requires
        is_hex_char(c),
    ensures
        is_hex_digit(c as u8),
        0 <= hex_digit_value(c as u8) < 16,
        hex_digit_char(hex_digit_value(c as u8)) == if 'A' <= c <= 'Z' {
            (c as int + 32) as char
        } else {
            c
        },
{
}

/// Decoding the hex text of any byte sequence gives back that sequence.
pub proof fn lemma_decode_encoded(b: Seq<u8>)
    ensures
        is_hex_text(encode_utf8(hex_encoded(b))),
        hex_decoded(encode_utf8(hex_encoded(b))) == b,
{
    let h = hex_encoded(b);
    assert forall|i: int| 0 <= i < h.len() implies '\0' <= #[trigger] h[i] <= '\u{7f}' by {
        lemma_digit_char(b[i / 2] as int / 16);
        lemma_digit_char(b[i / 2] as int % 16);
    }
    assert(is_ascii_chars(h));
    is_ascii_chars_encode_utf8(h);
    let t = encode_utf8(h);
    assert forall|i: int| 0 <= i < t.len() implies is_hex_digit(#[trigger] t[i]) by {
        lemma_digit_char(b[i / 2] as int / 16);
        lemma_digit_char(b[i / 2] as int % 16);
    }
    assert forall|k: int| 0 <= k < b.len() implies #[trigger] hex_decoded(t)[k] == b[k] by {
        lemma_digit_char(b[k] as int / 16);
        lemma_digit_char(b[k] as int % 16);
        assert(t[2 * k] == h[2 * k] as u8);
        assert(t[2 * k + 1] == h[2 * k + 1] as u8);
    }
    assert(hex_decoded(t) =~= b);
}

/// Encoding the bytes of a well-formed hex text gives that text with its
/// letters in lowercase.
pub proof fn lemma_encode_decoded(h: Seq<char>)
    requires
        h.len() % 2 == 0,
        forall|i: int| 0 <= i < h.len() ==> is_hex_char(#[trigger] h[i]),
    ensures
        is_hex_text(encode_utf8(h)),
        hex_encoded(hex_decoded(encode_utf8(h))) == ascii_lowercase(h),
{
    assert(is_ascii_chars(h));
    is_ascii_chars_encode_utf8(h);
    let t = encode_utf8(h);
    assert forall|i: int| 0 <= i < t.len() implies is_hex_digit(#[trigger] t[i]) by {
        lemma_char_digit(h[i]);
    }
    let d = hex_decoded(t);
    assert forall|i: int| 0 <= i < h.len() implies #[trigger] hex_encoded(d)[i]
        == ascii_lowercase(h)[i] by {
        let k = i / 2;
        lemma_char_digit(h[2 * k]);
        lemma_char_digit(h[2 * k + 1]);
        let hi = hex_digit_value(t[2 * k]);
        let lo = hex_digit_value(t[2 * k + 1]);
        assert(d[k] as int == 16 * hi + lo);
        assert((16 * hi + lo) / 16 == hi && (16 * hi + lo) % 16 == lo) by (nonlinear_arith)
            requires
                0 <= hi < 16,
                0 <= lo < 16,
        ;
    }
    assert(hex_encoded(d) =~= ascii_lowercase(h));
}

} // verus!
