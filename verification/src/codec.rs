//! Capability codec: the 128-bit per-comment secret and its token form.
//!
//! A secret is an opaque 16-byte value issued at creation time. Its token
//! form, handed to the creating client exactly once, is the unpadded
//! standard base64 encoding of those bytes. Decoding accepts any valid
//! unpadded base64 text; a well-formed token of the wrong length is a
//! [`DecodeError::WrongLength`], and anything else decodes later secrets
//! are rejected by the matcher, not here.

use base64::Engine;
use vstd::prelude::*;

verus! {

/// The number of bytes in a capability secret.
pub const SECRET_LEN: usize = 16;

/// Why a capability token failed to decode.
#[derive(Clone, Copy, Debug, PartialEq, Eq, Structural)]
pub enum DecodeError {
    /// The token is not valid unpadded standard base64.
    InvalidBase64,
    /// The token decoded, but not to exactly [`SECRET_LEN`] bytes.
    WrongLength,
}

/// What base64 encoding (standard alphabet, unpadded) returns on a byte
/// sequence.
pub uninterp spec fn b64_of(b: Seq<u8>) -> Seq<u8>;

/// What base64 decoding (standard alphabet, unpadded, trailing bits
/// refused) returns on a byte sequence: the decoded bytes, or `None` when
/// the input is malformed.
pub uninterp spec fn b64_decode_of(t: Seq<u8>) -> Option<Seq<u8>>;

/// Relies on base64's `Engine::encode` with the `STANDARD_NO_PAD` engine:
/// the result is a function of the input bytes alone, its length is the
/// unpadded encoded length, and decoding it with the same engine gives the
/// input bytes back.
#[verifier::external_body]
fn b64_encode(b: &[u8]) -> (r: Vec<u8>)
    requires
        b@.len() * 4 <= usize::MAX,
    ensures
        r@ == b64_of(b@),
        r@.len() == (b@.len() * 4 + 2) / 3,
        b64_decode_of(r@) == Some(b@),
{
    base64::engine::general_purpose::STANDARD_NO_PAD.encode(b).into_bytes()
}

/// Relies on base64's `Engine::decode` with the `STANDARD_NO_PAD` engine:
/// the result is a function of the input bytes alone; success returns the
/// decoded bytes, and failure means the input decodes to nothing.
#[verifier::external_body]
fn b64_decode(t: &[u8]) -> (r: Result<Vec<u8>, DecodeError>)
    ensures
        match r {
            Ok(v) => b64_decode_of(t@) == Some(v@),
            Err(e) => b64_decode_of(t@) is None && e == DecodeError::InvalidBase64,
        },
{
    match base64::engine::general_purpose::STANDARD_NO_PAD.decode(t) {
        Ok(v) => Ok(v),
        Err(_) => Err(DecodeError::InvalidBase64),
    }
}

/// Relies on std's slice-to-array conversion: it succeeds exactly on a
/// slice of 16 bytes and keeps the bytes in order.
#[verifier::external_body]
fn slice_to_secret(v: &[u8]) -> (r: Option<[u8; 16]>)
    ensures
        match r {
            Some(s) => s@ == v@,
            None => v@.len() != 16,
        },
{
    <[u8; 16]>::try_from(v).ok()
}

/// Relies on rand's `random`: a fresh 16-byte value drawn from the
/// thread-local cryptographically secure generator. Nothing is promised of
/// the value itself.
#[verifier::external_body]
fn random_secret() -> [u8; 16] {
    rand::random::<[u8; 16]>()
}

/// True of a secret whose bytes are all zero: the redacted form that
/// stands in place of a real secret in every non-creation response.
pub open spec fn is_zero_secret(s: Seq<u8>) -> bool {
    forall|i: int| 0 <= i < s.len() ==> s[i] == 0u8
}

/// True when every byte of the secret is zero, i.e. the secret has been
/// redacted rather than issued.
pub fn is_secret_empty(secret: &[u8; 16]) -> (r: bool)
    ensures
        r == is_zero_secret(secret@),
{
    let mut i: usize = 0;
    while i < 16
        invariant
            0 <= i <= 16,
            forall|j: int| 0 <= j < i ==> secret@[j] == 0u8,
        decreases 16 - i,
    {
        if secret[i] != 0 {
            return false;
        }
        i = i + 1;
    }
    true
}

/// The all-zero secret, used to redact records before they leave the core.
pub fn redacted_secret() -> (r: [u8; 16])
    ensures
        is_zero_secret(r@),
{
    [0u8; 16]
}

/// Issues a fresh secret: 16 random bytes, never all zero, so that a
/// stored secret is always distinguishable from a redacted one.
pub fn issue_secret() -> (r: [u8; 16])
    ensures
        !is_zero_secret(r@),
{
    let s = random_secret();
    if is_secret_empty(&s) {
        let fallback: [u8; 16] = [1u8, 0, 0, 0, 0, 0, 0, 0, 0, 0, 0, 0, 0, 0, 0, 0];
        assert(fallback@[0] == 1u8);
        fallback
    } else {
        s
    }
}

/// Encodes a secret as its capability token: unpadded standard base64,
/// 22 bytes of ASCII text that decodes back to the same secret.
pub fn encode_secret(secret: &[u8; 16]) -> (r: Vec<u8>)
    ensures
        r@ == b64_of(secret@),
        r@.len() == 22,
        b64_decode_of(r@) == Some(secret@),
{
    b64_encode(secret.as_slice())
}

/// Decodes a capability token back into a secret. Fails with
/// [`DecodeError::InvalidBase64`] when the token is not valid unpadded
/// base64, and with [`DecodeError::WrongLength`] when it decodes to a
/// value of the wrong size; no other validation happens here.
pub fn decode_secret(token: &[u8]) -> (r: Result<[u8; 16], DecodeError>)
    ensures
        match r {
            Ok(s) => b64_decode_of(token@) == Some(s@),
            Err(DecodeError::InvalidBase64) => b64_decode_of(token@) is None,
            Err(DecodeError::WrongLength) => b64_decode_of(token@) matches Some(v)
                && v.len() != SECRET_LEN,
        },
{
    match b64_decode(token) {
        Err(e) => Err(e),
        Ok(v) => match slice_to_secret(v.as_slice()) {
            Some(s) => Ok(s),
            None => Err(DecodeError::WrongLength),
        },
    }
}

} // verus!
