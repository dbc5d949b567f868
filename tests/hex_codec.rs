use btc_utils::{bytes_to_hex, decode_hex, hex_to_bytes, HexError};

#[test]
fn encodes_lowercase_two_digits_per_byte() {
    assert_eq!(bytes_to_hex(&[0xde, 0xad, 0xbe, 0xef]), "deadbeef");
    assert_eq!(bytes_to_hex(&[0x00, 0x0f, 0xa0]), "000fa0");
    assert_eq!(bytes_to_hex(&[]), "");
}

#[test]
fn decodes_either_case() {
    assert_eq!(decode_hex("DEadBeeF").unwrap(), vec![0xde, 0xad, 0xbe, 0xef]);
    assert_eq!(hex_to_bytes("00ff10").unwrap(), vec![0x00, 0xff, 0x10]);
    assert_eq!(decode_hex("").unwrap(), Vec::<u8>::new());
}

#[test]
fn round_trip_bytes_through_hex() {
    let cases: Vec<Vec<u8>> = vec![vec![], vec![0], vec![1, 2, 3, 254, 255], (0..=255).collect()];
    for b in cases {
        assert_eq!(decode_hex(&bytes_to_hex(&b)).unwrap(), b);
    }
}

#[test]
fn round_trip_hex_through_bytes_is_lowercase() {
    for h in ["", "00", "AbCdEf", "0123456789ABCDEFabcdef"] {
        let bytes = decode_hex(h).unwrap();
        assert_eq!(bytes_to_hex(&bytes), h.to_lowercase());
    }
}

#[test]
fn odd_length_is_rejected() {
    assert_eq!(
        decode_hex("abc").unwrap_err(),
        "Decoded hex string must have an even length"
    );
    assert_eq!(hex_to_bytes("abc").unwrap_err(), HexError::OddLength);
}

#[test]
fn invalid_character_is_rejected() {
    assert_eq!(decode_hex("zz11").unwrap_err(), "Invalid hex: Invalid character");
    assert_eq!(
        hex_to_bytes("zz11").unwrap_err(),
        HexError::InvalidHexCharacter { c: 'z', index: 0 }
    );
    assert_eq!(
        hex_to_bytes("12g4").unwrap_err(),
        HexError::InvalidHexCharacter { c: 'g', index: 2 }
    );
}

#[test]
fn error_messages() {
    assert_eq!(HexError::OddLength.message(), "Odd number of digits");
    assert_eq!(HexError::InvalidStringLength.message(), "Invalid string length");
    assert_eq!(
        HexError::InvalidHexCharacter { c: 'x', index: 3 }.message(),
        "Invalid character"
    );
}
