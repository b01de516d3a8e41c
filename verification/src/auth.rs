//! Bearer-token extraction and the two authenticators.
//!
//! A request carries at most one `Authorization` header value; a bearer
//! token is present only when that value starts with the case-insensitive
//! prefix `bearer `. Absence of the header, a different scheme, or a
//! malformed prefix all yield "no token" — never an error. The admin
//! authenticator compares the token against the configured administrator
//! credential; the author authenticator decodes it and compares it against
//! one stored secret. Both comparisons go through the constant-time
//! matcher.

use crate::codec::b64_decode_of;
use crate::codec::decode_secret;
use crate::matcher::equals;
use vstd::prelude::*;

verus! {

/// ASCII lower-casing of one byte.
pub open spec fn lower_byte(b: u8) -> u8 {
    if 65 <= b && b <= 90 {
        (b + 32) as u8
    } else {
        b
    }
}

/// True when the header value starts with the case-insensitive prefix
/// `bearer `: the ASCII bytes of `b e a r e r` and a space.
pub open spec fn has_bearer_prefix(v: Seq<u8>) -> bool {
    &&& v.len() >= 7
    &&& lower_byte(v[0]) == 98
    &&& lower_byte(v[1]) == 101
    &&& lower_byte(v[2]) == 97
    &&& lower_byte(v[3]) == 114
    &&& lower_byte(v[4]) == 101
    &&& lower_byte(v[5]) == 114
    &&& v[6] == 32
}

/// The bearer token carried by an `Authorization` header value, if any:
/// everything after the `bearer ` prefix.
pub open spec fn bearer_token_of(h: Option<Seq<u8>>) -> Option<Seq<u8>> {
    match h {
        Option::Some(v) => if has_bearer_prefix(v) {
            Option::Some(v.skip(7))
        } else {
            Option::None
        },
        Option::None => Option::None,
    }
}

/// The byte view of an optional header value.
pub open spec fn opt_bytes(h: Option<&[u8]>) -> Option<Seq<u8>> {
    match h {
        Option::Some(v) => Option::Some(v@),
        Option::None => Option::None,
    }
}

fn lower_byte_exec(b: u8) -> (r: u8)
    ensures
        r == lower_byte(b),
{
    if b >= 65 && b <= 90 {
        b + 32
    } else {
        b
    }
}

/// Extracts the bearer token from an `Authorization` header value: the
/// bytes after the case-insensitive `bearer ` prefix, or nothing when the
/// header is absent or carries another scheme.
pub fn extract_bearer_token(header: Option<&[u8]>) -> (r: Option<Vec<u8>>)
    ensures
        match r {
            Some(t) => bearer_token_of(opt_bytes(header)) == Some(t@),
            None => bearer_token_of(opt_bytes(header)) is None,
        },
{
    match header {
        None => None,
        Some(v) => {
            if v.len() < 7 {
                return None;
            }
            if lower_byte_exec(v[0]) != 98 || lower_byte_exec(v[1]) != 101
                || lower_byte_exec(v[2]) != 97 || lower_byte_exec(v[3]) != 114
                || lower_byte_exec(v[4]) != 101 || lower_byte_exec(v[5]) != 114
                || v[6] != 32 {
                return None;
            }
            let mut t: Vec<u8> = Vec::new();
            let mut k: usize = 7;
            while k < v.len()
                invariant
                    7 <= k <= v@.len(),
                    t@ == v@.subrange(7, k as int),
                decreases v@.len() - k,
            {
                t.push(v[k]);
                assert(t@ =~= v@.subrange(7, k + 1 as int));
                k = k + 1;
            }
            assert(t@ =~= v@.skip(7));
            Some(t)
        },
    }
}

/// True exactly when the request carries a bearer token equal to the
/// administrator credential.
pub open spec fn spec_is_admin(h: Option<Seq<u8>>, credential: Seq<u8>) -> bool {
    bearer_token_of(h) == Option::Some(credential)
}

/// Admin authenticator: true iff a bearer token was extracted and it
/// equals the configured administrator credential, compared in constant
/// time.
pub fn is_admin(header: Option<&[u8]>, credential: &[u8]) -> (r: bool)
    ensures
        r == spec_is_admin(opt_bytes(header), credential@),
{
    match extract_bearer_token(header) {
        Some(t) => equals(t.as_slice(), credential),
        None => false,
    }
}

/// True exactly when the token is the capability for the given stored
/// secret: it decodes to exactly those bytes.
pub open spec fn token_matches_secret(token: Seq<u8>, stored: Seq<u8>) -> bool {
    b64_decode_of(token) == Option::Some(stored)
}

/// Author check against one stored secret: decodes the token (a decode
/// failure is an authorization failure, never an error) and compares the
/// result against the stored secret in constant time.
pub fn token_authorizes(token: &[u8], stored: &[u8; 16]) -> (r: bool)
    ensures
        r == token_matches_secret(token@, stored@),
{
    match decode_secret(token) {
        Ok(decoded) => equals(decoded.as_slice(), stored.as_slice()),
        Err(_) => false,
    }
}

} // verus!
