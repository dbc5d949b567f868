use vstd::prelude::*;

verus! {

/// The four bytes of `n`, least significant first.
pub open spec fn le_bytes(n: u32) -> Seq<u8> {
    seq![
        (n % 0x100) as u8,
        (n / 0x100 % 0x100) as u8,
        (n / 0x1_0000 % 0x100) as u8,
        (n / 0x100_0000) as u8,
    ]
}

/// Returns a new vector holding the bytes of `bytes` in reverse order.
pub fn to_big_endian(bytes: &[u8]) -> (r: Vec<u8>)
    ensures
        r@ == bytes@.reverse(),
{
    let mut result: Vec<u8> = Vec::with_capacity(bytes.len());
    let mut i: usize = bytes.len();
    while i > 0
        invariant
            i <= bytes@.len(),
            result@.len() == bytes@.len() - i,
            forall|j: int| 0 <= j < result@.len() ==> result@[j] == bytes@[bytes@.len() - 1 - j],
        decreases i,
    {
        i = i - 1;
        result.push(bytes[i]);
    }
    assert(result@ =~= bytes@.reverse());
    result
}

/// Reversing a byte sequence twice gives it back, and the empty sequence
/// reversed is empty.
pub proof fn lemma_reverse_involution(b: Seq<u8>)
    ensures
        b.reverse().reverse() == b,
        b.len() == 0 ==> b.reverse() == b,
{
    assert(b.reverse().reverse() =~= b);
    if b.len() == 0 {
        assert(b.reverse() =~= b);
    }
}

/// The four bytes of `num`, least significant first.
pub fn swap_endian_u32(num: u32) -> (r: [u8; 4])
    ensures
        r@ == le_bytes(num),
{
    let b0 = (num & 0xff) as u8;
    let b1 = ((num >> 8u32) & 0xff) as u8;
    let b2 = ((num >> 16u32) & 0xff) as u8;
    let b3 = ((num >> 24u32) & 0xff) as u8;
    assert(num & 0xff == num % 256) by (bit_vector);
    assert((num >> 8u32) & 0xff == (num / 256) % 256) by (bit_vector);
    assert((num >> 16u32) & 0xff == (num / 65536) % 256) by (bit_vector);
    assert((num >> 24u32) & 0xff == num / 16777216) by (bit_vector);
    let r = [b0, b1, b2, b3];
    assert(r@ =~= le_bytes(num));
    r
}

} // verus!
