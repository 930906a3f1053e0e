//! ES256 (P-256) signature checks of tokens, of JWTs as received on the
//! wire, and of signed requests.
use crate::auth_token::{signing_input_chars, AuthToken};
use crate::crypto::{message_check_passes, check_error_matches, verify_p256_message, SignatureVerifyError};
use crate::encoding::{base64url_decode, base64url_decoded};
use crate::text::{concat, split_chars, split_str, string_views};
use vstd::prelude::*;

verus! {

/// Why a JWT's signature was refused.
#[derive(Debug, Clone, PartialEq, Eq)]
pub enum WireVerifyError {
    /// The token does not have exactly three `.`-separated parts.
    InvalidFormat { parts: usize },
    /// The signature segment is not URL-safe base64.
    SignatureDecode,
    /// The key, the signature bytes, or the signature itself was refused.
    Signature(SignatureVerifyError),
}

/// The outcome of checking a JWT on the wire: the signature segment,
/// decoded, must be a valid signature of the first two segments exactly as
/// received (`<header>.<payload>`, as UTF-8 bytes).
pub open spec fn wire_check(jwt: Seq<char>, public_key: Seq<u8>) -> Result<(), WireVerifyError> {
    let parts = split_chars(jwt, '.');
    if parts.len() != 3 {
        Err(WireVerifyError::InvalidFormat { parts: parts.len() as usize })
    } else {
        match base64url_decoded(parts[2]) {
            None => Err(WireVerifyError::SignatureDecode),
            Some(sig) => if message_check_passes(
                vstd::utf8::encode_utf8(signing_input_chars(parts[0], parts[1])),
                sig,
                public_key,
            ) {
                Ok(())
            } else {
                Err(WireVerifyError::Signature(SignatureVerifyError::VerificationFailed))
            },
        }
    }
}

/// Signature checks for ES256.
#[derive(Debug, Clone, Copy)]
pub struct SignatureVerifier;

impl SignatureVerifier {
    /// Checks a token's signature with the owner's public key. The signed
    /// message is the token's signing input (`<header_b64>.<payload_b64>`
    /// as bytes), which the caller forms from the token's JSON.
    pub fn verify_auth_token_signature(
        token: &AuthToken,
        signing_message: &[u8],
        owner_public_key: &[u8],
    ) -> (r: Result<(), SignatureVerifyError>)
        ensures
            r is Ok <==> message_check_passes(signing_message@, token.signature@, owner_public_key@),
            r matches Err(e) ==> check_error_matches(e, token.signature@, owner_public_key@),
    {
        verify_p256_message(signing_message, token.signature.as_slice(), owner_public_key)
    }

    /// Checks a JWT's signature over the exact bytes it was signed with:
    /// the first two segments as received, never a re-serialisation of
    /// the parsed token.
    pub fn verify_jwt_signature_wire(jwt: &str, issuer_public_key: &[u8]) -> (r: Result<
        (),
        WireVerifyError,
    >)
        ensures
            r is Ok <==> wire_check(jwt@, issuer_public_key@) is Ok,
            r matches Err(e) ==> match e {
                WireVerifyError::Signature(s) => {
                    &&& wire_check(jwt@, issuer_public_key@) is Err
                    &&& split_chars(jwt@, '.').len() == 3
                    &&& base64url_decoded(split_chars(jwt@, '.')[2]) matches Some(sig)
                        && check_error_matches(s, sig, issuer_public_key@)
                },
                _ => wire_check(jwt@, issuer_public_key@) == Err::<(), WireVerifyError>(e),
            },
    {
        let parts = split_str(jwt, '.');
        proof {
            assert(string_views(parts@).len() == parts@.len());
        }
        if parts.len() != 3 {
            return Err(WireVerifyError::InvalidFormat { parts: parts.len() });
        }
        proof {
            assert(string_views(parts@)[0] == parts@[0]@);
            assert(string_views(parts@)[1] == parts@[1]@);
            assert(string_views(parts@)[2] == parts@[2]@);
        }
        let signature = match base64url_decode(parts[2].as_str()) {
            Some(s) => s,
            None => return Err(WireVerifyError::SignatureDecode),
        };
        let with_dot = concat(parts[0].as_str(), ".");
        let message = concat(with_dot.as_str(), parts[1].as_str());
        proof {
            reveal_strlit(".");
            assert(message@ =~= signing_input_chars(parts@[0]@, parts@[1]@));
        }
        match verify_p256_message(message.as_str().as_bytes(), signature.as_slice(), issuer_public_key) {
            Ok(()) => Ok(()),
            Err(e) => Err(WireVerifyError::Signature(e)),
        }
    }

    /// Checks a request's signature with the requester's public key.
    pub fn verify_request_signature(
        message: &[u8],
        signature: &[u8],
        requester_public_key: &[u8],
    ) -> (r: Result<(), SignatureVerifyError>)
        ensures
            r is Ok <==> message_check_passes(message@, signature@, requester_public_key@),
            r matches Err(e) ==> check_error_matches(e, signature@, requester_public_key@),
    {
        verify_p256_message(message, signature, requester_public_key)
    }
}

/// Whether a JWT verifies depends only on its three segments as received:
/// two tokens whose segments are equal verify alike under every key, and
/// so do two tokens whose first two segments and decoded signature agree.
pub proof fn law_wire_check_depends_on_segments(a: Seq<char>, b: Seq<char>, public_key: Seq<u8>)
    requires
        split_chars(a, '.').len() == 3,
        split_chars(b, '.').len() == 3,
        split_chars(a, '.')[0] == split_chars(b, '.')[0],
        split_chars(a, '.')[1] == split_chars(b, '.')[1],
        base64url_decoded(split_chars(a, '.')[2]) == base64url_decoded(split_chars(b, '.')[2]),
    ensures
        wire_check(a, public_key) == wire_check(b, public_key),
{
}

} // verus!
