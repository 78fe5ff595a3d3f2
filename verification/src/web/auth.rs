//! The shared-password check of the login form.
use vstd::prelude::*;

use subtle::ConstantTimeEq;
use vstd::utf8::encode_utf8_decode_utf8;

verus! {

/// Calls subtle's `ConstantTimeEq::ct_eq` on two byte slices and reads
/// the resulting `Choice` as a `bool`. As subtle's source for slices
/// shows, it is true exactly when both have the same length and the same
/// bytes.
#[verifier::external_body]
fn ct_eq_bytes(a: &[u8], b: &[u8]) -> (r: bool)
    ensures
        r == (a@ == b@),
{
    bool::from(a.ct_eq(b))
}

/// Whether `submitted` is the configured password, compared in constant
/// time over the bytes once the lengths agree, so the comparison leaks no
/// timing information about how many leading bytes matched.
pub fn password_matches(expected: &str, submitted: &str) -> (r: bool)
    ensures
        r == (expected@ == submitted@),
{
    let e = expected.as_bytes();
    let s = submitted.as_bytes();
    proof {
        encode_utf8_decode_utf8(expected@);
        encode_utf8_decode_utf8(submitted@);
    }
    e.len() == s.len() && ct_eq_bytes(e, s)
}

} // verus!
