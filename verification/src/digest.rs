//! SHA-256 digests as lowercase hexadecimal text.

use vstd::prelude::*;
use vstd::string::{StrSliceExecFns, StringExecFns};

verus! {

/// The hexadecimal digits, in the order of their values.
pub open spec fn hex_digits() -> Seq<char> {
    "0123456789abcdef"@
}

/// The digit that stands at position `at` of the hexadecimal form of
/// `bytes`: the high half of a byte comes first, then its low half.
pub open spec fn hex_digit_at(bytes: Seq<u8>, at: int) -> char {
    if at % 2 == 0 {
        hex_digits()[bytes[at / 2] as int / 16]
    } else {
        hex_digits()[bytes[at / 2] as int % 16]
    }
}

/// `bytes` in lowercase hexadecimal: two digits for each byte.
pub open spec fn hex_of(bytes: Seq<u8>) -> Seq<char> {
    Seq::new(2 * bytes.len(), |at: int| hex_digit_at(bytes, at))
}

/// `bytes` in lowercase hexadecimal.
pub fn hex(bytes: &[u8]) -> (text: String)
    ensures
        text@ == hex_of(bytes@),
{
    let digits = "0123456789abcdef";
    proof {
        reveal_strlit("0123456789abcdef");
    }
    let mut text = String::new();
    let mut k: usize = 0;
    while k < bytes.len()
        invariant
            k <= bytes.len(),
            digits@ == hex_digits(),
            digits@.len() == 16,
            digits.is_ascii(),
            text@ == hex_of(bytes@.take(k as int)),
        decreases bytes.len() - k,
    {
        let byte = bytes[k];
        let high: usize = (byte / 16) as usize;
        let low: usize = (byte % 16) as usize;
        text.append(digits.substring_ascii(high, high + 1));
        text.append(digits.substring_ascii(low, low + 1));
        assert forall|at: int| 0 <= at < text@.len() implies text@[at] == hex_digit_at(
            bytes@.take(k + 1),
            at,
        ) by {}
        k += 1;
    }
    text
}

/// The SHA-256 digest of a byte sequence.
pub uninterp spec fn sha256(data: Seq<u8>) -> Seq<u8>;

/// Calls `sha2::Sha256::digest`. The digest is a function of the bytes
/// alone; it is given the name [`sha256`], and it is 32 bytes long.
#[verifier::external_body]
fn sha256_digest(data: &[u8]) -> (digest: Vec<u8>)
    ensures
        digest@ == sha256(data@),
        digest@.len() == 32,
{
    <sha2::Sha256 as sha2::Digest>::digest(data).to_vec()
}

/// The SHA-256 digest of `data` in lowercase hexadecimal: 64 digits.
pub fn sha256_hex(data: &[u8]) -> (text: String)
    ensures
        text@ == hex_of(sha256(data@)),
        text@.len() == 64,
{
    let digest = sha256_digest(data);
    hex(digest.as_slice())
}

} // verus!
