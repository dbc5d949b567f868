use vstd::prelude::*;
use vstd::string::StringSliceAdditionalSpecFns;

verus! {

/// Whether the byte is an ASCII decimal digit.
pub open spec fn is_decimal_digit(b: u8) -> bool {
    0x30 <= b <= 0x39
}

/// Whether the bytes are a plain unsigned decimal numeral: at least one
/// digit and nothing else (no sign, no spaces).
pub open spec fn is_decimal_text(t: Seq<u8>) -> bool {
    &&& t.len() > 0
    &&& forall|i: int| 0 <= i < t.len() ==> is_decimal_digit(#[trigger] t[i])
}

/// The number that a string of decimal digits stands for, most significant first.
pub open spec fn decimal_value(t: Seq<u8>) -> nat
    decreases t.len(),
{
    if t.len() == 0 {
        0
    } else {
        decimal_value(t.drop_last()) * 10 + (t.last() - 0x30) as nat
    }
}

/// A prefix of a string of digits stands for no more than the whole string.
proof fn lemma_prefix_value_le(t: Seq<u8>, i: int)
    requires
        0 <= i <= t.len(),
        forall|j: int| 0 <= j < t.len() ==> is_decimal_digit(#[trigger] t[j]),
    ensures
        decimal_value(t.take(i)) <= decimal_value(t),
    decreases t.len(),
{
    if i < t.len() {
        let s = t.drop_last();
        assert(s.take(i) =~= t.take(i));
        assert forall|j: int| 0 <= j < s.len() implies is_decimal_digit(#[trigger] s[j]) by {
            assert(s[j] == t[j]);
        }
        lemma_prefix_value_le(s, i);
    } else {
        assert(t.take(i) =~= t);
    }
}

/// Parses an amount in satoshis written as plain decimal digits. Empty
/// text, any other character (signs and spaces included) and values beyond
/// the range of `u64` are rejected.
pub fn parse_satoshis(input: &str) -> (r: Result<u64, String>)
    ensures
        r is Ok <==> is_decimal_text(input.spec_bytes()) && decimal_value(input.spec_bytes())
            <= u64::MAX,
        r matches Ok(v) ==> v == decimal_value(input.spec_bytes()),
        r matches Err(e) ==> e@ == "Invalid satoshi amount"@,
{
    let bytes = input.as_bytes();
    let n = bytes.len();
    if n == 0 {
        return Err("Invalid satoshi amount".to_string());
    }
    let mut acc: u64 = 0;
    let mut i: usize = 0;
    while i < n
        invariant
            bytes@ == input.spec_bytes(),
            n == bytes@.len(),
            i <= n,
            forall|j: int| 0 <= j < i ==> is_decimal_digit(#[trigger] bytes@[j]),
            acc == decimal_value(bytes@.take(i as int)),
        decreases n - i,
    {
        let b = bytes[i];
        if b < 0x30 || b > 0x39 {
            return Err("Invalid satoshi amount".to_string());
        }
        assert(bytes@.take(i + 1).drop_last() =~= bytes@.take(i as int));
        let digit = (b - 0x30) as u64;
        let next = match acc.checked_mul(10) {
            Some(m) => m.checked_add(digit),
            None => None,
        };
        match next {
            Some(v) => {
                acc = v;
            },
            None => {
                proof {
                    if is_decimal_text(bytes@) {
                        lemma_prefix_value_le(bytes@, i + 1);
                    }
                }
                return Err("Invalid satoshi amount".to_string());
            },
        }
        i = i + 1;
    }
    assert(bytes@.take(n as int) =~= bytes@);
    Ok(acc)
}

/// Takes `fee` off `balance`, stopping at zero.
pub fn apply_fee(balance: &mut u64, fee: u64)
    ensures
        *final(balance) == if fee >= *old(balance) {
            0
        } else {
            (*old(balance) - fee) as u64
        },
{
    *balance = balance.saturating_sub(fee);
}

/// Something that holds a balance in satoshis.
pub trait Wallet {
    /// The balance, as contracts see it.
    spec fn spec_balance(&self) -> u64;

    /// The balance of the wallet.
    fn balance(&self) -> (r: u64)
        ensures
            r == self.spec_balance(),
    ;
}

/// A wallet whose balance is its confirmed amount.
pub struct TestWallet {
    pub confirmed: u64,
}

impl Wallet for TestWallet {
    open spec fn spec_balance(&self) -> u64 {
        self.confirmed
    }

    fn balance(&self) -> (r: u64) {
        self.confirmed
    }
}

} // verus!
