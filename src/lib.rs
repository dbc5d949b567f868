//! Small helpers for binary and hexadecimal data in a Bitcoin setting:
//! hex encoding and decoding, byte-order reversal, little-endian integer
//! bytes, decimal amount parsing and script-prefix classification.

pub mod amount;
pub mod byte_order;
pub mod hex_codec;
pub mod script;

pub use amount::{apply_fee, parse_satoshis, TestWallet, Wallet};
pub use byte_order::{swap_endian_u32, to_big_endian};
pub use hex_codec::{bytes_to_hex, decode_hex, hex_to_bytes, HexError};
pub use script::{classify_script, read_pushdata, Outpoint, ScriptType};
