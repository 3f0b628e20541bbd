//! Trusted boundary around base64: key material in an upload request
//! arrives as standard-alphabet base64 text and is decoded to raw bytes.

use vstd::prelude::*;
use base64::Engine;

verus! {

/// What base64's standard padded engine decodes `s` to: `Some` of the raw
/// bytes when `s` is valid base64 text, `None` otherwise. The outcome is a
/// function of the input alone.
pub uninterp spec fn b64_of(s: Seq<u8>) -> Option<Seq<u8>>;

/// Relies on base64's `STANDARD` engine `decode`.
#[verifier::external_body]
pub fn b64_decode(s: &[u8]) -> (r: Option<Vec<u8>>)
    ensures
        match r {
            Some(v) => b64_of(s@) == Some(v@),
            None => b64_of(s@) is None,
        },
{
    base64::engine::general_purpose::STANDARD.decode(s).ok()
}

} // verus!
