use biscuit_auth::Biscuit;
use vstd::prelude::*;
use vstd::string::*;

use crate::engine::{
    encoded_blocks, format_error_text, hex_decoded, key_hex_valid, public_key_from_hex,
    token_error_text, token_verifies, verified_blocks, verify_token,
};
use crate::error::AuthError;

verus! {

/// The scheme prefix of a bearer credential, space included.
pub open spec fn bearer_prefix() -> Seq<char> {
    seq!['B', 'e', 'a', 'r', 'e', 'r', ' ']
}

/// The header value is a bearer credential.
pub open spec fn is_bearer(h: Seq<char>) -> bool {
    h.len() >= bearer_prefix().len() && h.subrange(0, bearer_prefix().len() as int) == bearer_prefix()
}

/// What follows the scheme prefix.
pub open spec fn bearer_payload(h: Seq<char>) -> Seq<char> {
    h.subrange(bearer_prefix().len() as int, h.len() as int)
}

/// A credential whose signature chain was checked against the root key,
/// kept with the exact text it was presented as.
pub struct VerifiedToken {
    pub raw: String,
    pub token: Biscuit,
}

/// The deployment's root of trust: the bytes of an Ed25519 public key.
#[derive(Debug, Clone)]
pub struct RootKey {
    pub bytes: Vec<u8>,
}

/// Reads the deployment's root of trust from its hex encoding.
pub fn root_key_from_hex(hex: &str) -> (r: Result<RootKey, AuthError>)
    ensures
        r is Ok <==> key_hex_valid(hex@),
        r is Ok ==> r->Ok_0.bytes@ == hex_decoded(hex@) && r->Ok_0.bytes@.len() == 32,
        r is Err ==> r->Err_0 is InvalidRootKey,
{
    match public_key_from_hex(hex) {
        Ok(bytes) => Ok(RootKey { bytes }),
        Err(e) => Err(AuthError::InvalidRootKey(format_error_text(&e))),
    }
}

/// Takes the credential text out of an authorization header value: nothing
/// when there is no header, the text after `Bearer ` when the value starts
/// so, and `MalformedHeader` otherwise.
pub fn extract_token_string(header: Option<&str>) -> (r: Result<Option<String>, AuthError>)
    ensures
        header is None ==> r == Ok::<Option<String>, AuthError>(None),
        header is Some && !is_bearer(header->Some_0@) ==> r == Err::<Option<String>, AuthError>(
            AuthError::MalformedHeader,
        ),
        header is Some && is_bearer(header->Some_0@) ==> r is Ok && r->Ok_0 is Some
            && r->Ok_0->Some_0@ == bearer_payload(header->Some_0@),
{
    match header {
        None => Ok(None),
        Some(h) => {
            let prefix = "Bearer ";
            proof { reveal_strlit("Bearer "); }
            let plen = prefix.unicode_len();
            let hlen = h.unicode_len();
            assert(prefix@ =~= bearer_prefix());
            if hlen < plen {
                return Err(AuthError::MalformedHeader);
            }
            let mut i: usize = 0;
            while i < plen
                invariant
                    plen == bearer_prefix().len(),
                    header == Some(h),
                    hlen == h@.len(),
                    plen <= hlen,
                    prefix@ == bearer_prefix(),
                    i <= plen,
                    forall|j: int| 0 <= j < i ==> h@[j] == bearer_prefix()[j],
                decreases plen - i,
            {
                if h.get_char(i) != prefix.get_char(i) {
                    assert(h@.subrange(0, plen as int)[i as int] != bearer_prefix()[i as int]);
                    return Err(AuthError::MalformedHeader);
                }
                i += 1;
            }
            assert(h@.subrange(0, plen as int) =~= bearer_prefix());
            Ok(Some(String::from_str(h.substring_char(plen, hlen))))
        },
    }
}

/// The Token Extractor: no credential when there is no header; otherwise the
/// bearer credential, decoded and verified against `root`. A value that is
/// not a bearer credential is `MalformedHeader`; one that does not decode or
/// verify is `TokenInvalid`.
pub fn extract_token(header: Option<&str>, root: &RootKey) -> (r: Result<
    Option<VerifiedToken>,
    AuthError,
>)
    ensures
        header is None ==> r is Ok && r->Ok_0 is None,
        header is Some && !is_bearer(header->Some_0@) ==> r is Err && r->Err_0 is MalformedHeader,
        header is Some && is_bearer(header->Some_0@) ==> (r is Ok <==> token_verifies(
            bearer_payload(header->Some_0@),
            root.bytes@,
        )),
        header is Some && is_bearer(header->Some_0@) ==> match r {
            Ok(Some(t)) => t.raw@ == bearer_payload(header->Some_0@) && verified_blocks(t.token)
                == encoded_blocks(t.raw@),
            Ok(None) => false,
            Err(e) => e is TokenInvalid,
        },
{
    match extract_token_string(header) {
        Err(e) => Err(e),
        Ok(None) => Ok(None),
        Ok(Some(raw)) => match verify_token(raw.as_str(), &root.bytes) {
            Ok(token) => Ok(Some(VerifiedToken { raw, token })),
            Err(e) => Err(AuthError::TokenInvalid(token_error_text(&e))),
        },
    }
}

} // verus!
