use btc_utils::{classify_script, read_pushdata, swap_endian_u32, to_big_endian, ScriptType};

#[test]
fn reverse_bytes() {
    assert_eq!(to_big_endian(&[1, 2, 3, 4]), vec![4, 3, 2, 1]);
    assert_eq!(to_big_endian(&[]), Vec::<u8>::new());
    assert_eq!(to_big_endian(&[9]), vec![9]);
}

#[test]
fn reverse_twice_is_identity() {
    let b = vec![0x10, 0x20, 0x30, 0x40, 0x50];
    assert_eq!(to_big_endian(&to_big_endian(&b)), b);
}

#[test]
fn little_endian_u32() {
    assert_eq!(swap_endian_u32(0x12345678), [0x78, 0x56, 0x34, 0x12]);
    assert_eq!(swap_endian_u32(0), [0, 0, 0, 0]);
    assert_eq!(swap_endian_u32(u32::MAX), [0xff, 0xff, 0xff, 0xff]);
    assert_eq!(swap_endian_u32(1), [1, 0, 0, 0]);
}

#[test]
fn classify_known_prefixes() {
    assert_eq!(classify_script(&[0x76, 0xa9, 0x14, 0, 0, 0]), ScriptType::P2PKH);
    assert_eq!(classify_script(&[0x00, 0x14]), ScriptType::P2WPKH);
    assert_eq!(classify_script(&[0x01, 0x02]), ScriptType::Unknown);
    assert_eq!(classify_script(&[]), ScriptType::Unknown);
}

#[test]
fn classify_short_or_partial_prefixes() {
    assert_eq!(classify_script(&[0x76, 0xa9]), ScriptType::Unknown);
    assert_eq!(classify_script(&[0x00]), ScriptType::Unknown);
    assert_eq!(classify_script(&[0x76, 0xa9, 0x15]), ScriptType::Unknown);
}

#[test]
fn pushdata_from_offset_two() {
    assert_eq!(read_pushdata(&[1, 2, 3, 4]), &[3, 4]);
    assert_eq!(read_pushdata(&[1, 2]), &[] as &[u8]);
    assert_eq!(read_pushdata(&[]), &[] as &[u8]);
    assert_eq!(read_pushdata(&[7, 8, 9]), &[9]);
}
