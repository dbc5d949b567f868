use vstd::prelude::*;
use vstd::slice::slice_subrange;

verus! {

/// The kind of a locking script, told apart by its leading bytes.
#[derive(Debug, Clone, Copy, PartialEq, Eq, Structural)]
pub enum ScriptType {
    /// Pay to public key hash: `OP_DUP OP_HASH160` and a 20-byte push.
    P2PKH,
    /// Pay to witness public key hash: `OP_0` and a 20-byte push.
    P2WPKH,
    /// Any other script.
    Unknown,
}

/// Whether `script` starts with the bytes of `prefix`.
pub open spec fn has_prefix(script: Seq<u8>, prefix: Seq<u8>) -> bool {
    prefix.len() <= script.len() && script.subrange(0, prefix.len() as int) == prefix
}

/// The kind of a script, from its leading bytes alone.
pub open spec fn script_kind(script: Seq<u8>) -> ScriptType {
    if has_prefix(script, seq![0x76u8, 0xa9u8, 0x14u8]) {
        ScriptType::P2PKH
    } else if has_prefix(script, seq![0x00u8, 0x14u8]) {
        ScriptType::P2WPKH
    } else {
        ScriptType::Unknown
    }
}

/// A reference to an output of a transaction: its id and the output's index.
pub struct Outpoint(pub String, pub u32);

/// Tells the kind of a script from its leading bytes; the rest of the
/// script is not looked at.
pub fn classify_script(script: &[u8]) -> (r: ScriptType)
    ensures
        r == script_kind(script@),
{
    let n = script.len();
    if n >= 3 && script[0] == 0x76 && script[1] == 0xa9 && script[2] == 0x14 {
        assert(script@.subrange(0, 3) =~= seq![0x76u8, 0xa9u8, 0x14u8]);
        ScriptType::P2PKH
    } else if n >= 2 && script[0] == 0x00 && script[1] == 0x14 {
        assert(script@.subrange(0, 2) =~= seq![0x00u8, 0x14u8]);
        assert(!has_prefix(script@, seq![0x76u8, 0xa9u8, 0x14u8]));
        ScriptType::P2WPKH
    } else {
        proof {
            if n >= 3 {
                assert(script@.subrange(0, 3)[0] == script@[0]);
                assert(script@.subrange(0, 3)[1] == script@[1]);
                assert(script@.subrange(0, 3)[2] == script@[2]);
            }
            if n >= 2 {
                assert(script@.subrange(0, 2)[0] == script@[0]);
                assert(script@.subrange(0, 2)[1] == script@[1]);
            }
        }
        ScriptType::Unknown
    }
}

/// The bytes of `script` from position 2 on, or nothing when it is no
/// longer than 2 bytes.
pub fn read_pushdata(script: &[u8]) -> (r: &[u8])
    ensures
        script@.len() > 2 ==> r@ == script@.subrange(2, script@.len() as int),
        script@.len() <= 2 ==> r@ == Seq::<u8>::empty(),
{
    if script.len() > 2 {
        slice_subrange(script, 2, script.len())
    } else {
        let r = slice_subrange(script, 0, 0);
        assert(r@ =~= Seq::<u8>::empty());
        r
    }
}

} // verus!
