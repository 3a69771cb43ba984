//! Secrets: comparing them, clearing them, and drawing random bytes.

use vstd::prelude::*;
use vstd::string::StringSliceAdditionalSpecFns;

verus! {

/// Why the system gave no random bytes.
#[verifier::external_type_specification]
#[verifier::external_body]
pub struct ExRandomError(getrandom::Error);

/// `subtle`'s `ct_eq` on byte slices: whether they are equal, in a time that
/// depends on their lengths alone.
#[verifier::external_body]
fn constant_time_equal(left: &[u8], right: &[u8]) -> (result: bool)
    ensures
        result == (left@ == right@),
{
    bool::from(subtle::ConstantTimeEq::ct_eq(left, right))
}

/// `zeroize` on a `String`: overwrites the memory of the text and empties it.
/// That the memory is overwritten is left unsaid.
#[verifier::external_body]
pub(crate) fn wipe_text(text: &mut String)
    ensures
        final(text)@ == Seq::<char>::empty(),
    opens_invariants none
    no_unwind
{
    zeroize::Zeroize::zeroize(text)
}

/// `zeroize` on a `Vec` of bytes: overwrites the memory of the bytes and empties
/// it. That the memory is overwritten is left unsaid.
#[verifier::external_body]
pub(crate) fn wipe_bytes(bytes: &mut Vec<u8>)
    ensures
        final(bytes)@ == Seq::<u8>::empty(),
{
    zeroize::Zeroize::zeroize(bytes)
}

/// `getrandom::fill` on a buffer of `count` bytes. Which bytes come is up to
/// chance, and whether any do is up to the system.
#[verifier::external_body]
pub(crate) fn random_bytes(count: usize) -> (result: Result<Vec<u8>, getrandom::Error>)
    ensures
        result matches Ok(bytes) ==> bytes@.len() == count,
{
    let mut bytes = vec![0; count];
    getrandom::fill(&mut bytes)?;
    Ok(bytes)
}

/// Whether two secrets are the same text, compared in a time that depends on
/// their lengths alone.
pub fn secrets_equal(left: &str, right: &str) -> (result: bool)
    ensures
        result == (left@ == right@),
{
    let left_bytes = left.as_bytes();
    let right_bytes = right.as_bytes();
    proof {
        vstd::utf8::encode_utf8_decode_utf8(left@);
        vstd::utf8::encode_utf8_decode_utf8(right@);
    }
    left_bytes.len() == right_bytes.len() && constant_time_equal(left_bytes, right_bytes)
}

} // verus!
