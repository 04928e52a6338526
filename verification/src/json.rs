//! The JSON values that a record is made of: numbers, written here, and
//! strings, which `serde_json` writes.

use vstd::prelude::*;

verus! {

/// The bytes that `serde_json` writes for a string: the text between double
/// quotes, with the escapes that JSON asks for.
pub uninterp spec fn json_text(text: Seq<char>) -> Seq<u8>;

/// The text that `String::from_utf8_lossy` reads from `bytes`: their decoding
/// as UTF-8, with U+FFFD in place of whatever is not valid.
pub uninterp spec fn lossy_text(bytes: Seq<u8>) -> Seq<char>;

/// Writes `text` as a JSON string, by `serde_json::to_vec`.
///
/// Not proved: that the call yields `json_text` of the text, and that it
/// does not fail. The encoder fails only when the value refuses to be
/// serialized or its sink refuses a write; a `str` and a `Vec<u8>` do neither.
#[verifier::external_body]
pub(crate) fn quote(text: &str) -> (bytes: Vec<u8>)
    ensures
        bytes@ == json_text(text@),
{
    serde_json::to_vec(text).unwrap_or_default()
}

/// Reads `bytes` as text, by `String::from_utf8_lossy`.
///
/// Not proved: that the call yields `lossy_text` of the bytes.
#[verifier::external_body]
pub(crate) fn decode_lossy(bytes: &[u8]) -> (text: String)
    ensures
        text@ == lossy_text(bytes@),
{
    String::from_utf8_lossy(bytes).into_owned()
}

/// The decimal digits of `n` in ASCII, without leading zeros.
pub open spec fn decimal(n: nat) -> Seq<u8>
    decreases n,
{
    if n < 10 {
        seq![(48 + n) as u8]
    } else {
        decimal(n / 10).push((48 + n % 10) as u8)
    }
}

/// Appends the decimal digits of `n` to `out`.
pub fn push_decimal(out: &mut Vec<u8>, n: u64)
    ensures
        final(out)@ == old(out)@ + decimal(n as nat),
    decreases n,
{
    if n >= 10 {
        push_decimal(out, n / 10);
    }
    let digit: u8 = (n % 10) as u8 + 48;
    out.push(digit);
    proof {
        if n >= 10 {
            assert(out@ =~= old(out)@ + decimal((n / 10) as nat).push(digit));
        } else {
            assert(out@ =~= old(out)@ + seq![digit]);
        }
    }
}

/// The decimal digits of `n`.
pub fn decimal_bytes(n: u64) -> (digits: Vec<u8>)
    ensures
        digits@ == decimal(n as nat),
{
    let mut digits: Vec<u8> = Vec::new();
    push_decimal(&mut digits, n);
    assert(digits@ =~= decimal(n as nat));
    digits
}

} // verus!
