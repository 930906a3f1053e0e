//! P-256 ECDSA signature checks (SHA-256 digests), as used for tokens and
//! signed requests.
use p256::ecdsa::signature::{DigestVerifier, Signer, Verifier};
use sha2::Digest;
use vstd::prelude::*;

verus! {

/// Whether `p256::ecdsa::VerifyingKey::from_sec1_bytes` accepts the bytes as
/// a SEC1-encoded P-256 public key.
pub uninterp spec fn p256_sec1_verifying_key_accepted(public_key: Seq<u8>) -> bool;

/// Whether `p256::ecdsa::Signature::from_slice` accepts the bytes as a
/// fixed-width (r || s) P-256 signature.
pub uninterp spec fn p256_fixed_signature_accepted(signature: Seq<u8>) -> bool;

/// Whether `DigestVerifier::verify_digest` of the verifying key parsed from
/// `public_key` accepts the signature parsed from `signature` over the
/// SHA-256 digest of `message`.
pub uninterp spec fn p256_sha256_digest_verifies(
    public_key: Seq<u8>,
    message: Seq<u8>,
    signature: Seq<u8>,
) -> bool;

/// Whether `signature::Verifier::verify` of the verifying key parsed from
/// `public_key` accepts the signature parsed from `signature` over
/// `message`.
pub uninterp spec fn p256_message_verifies(
    public_key: Seq<u8>,
    message: Seq<u8>,
    signature: Seq<u8>,
) -> bool;

/// Whether `p256::PublicKey::from_sec1_bytes` accepts the bytes as a SEC1
/// encoding of a point on the P-256 curve.
pub uninterp spec fn p256_sec1_public_key_accepted(public_key: Seq<u8>) -> bool;

/// Calls `p256::PublicKey::from_sec1_bytes`; `Ok` exactly when the point
/// is accepted. The error text is `elliptic_curve::Error`'s, which is not
/// stated.
#[verifier::external_body]
pub(crate) fn parse_public_key(public_key: &[u8]) -> (r: Result<(), String>)
    ensures
        r is Ok <==> p256_sec1_public_key_accepted(public_key@),
{
    p256::PublicKey::from_sec1_bytes(public_key).map(|_| ()).map_err(|e| e.to_string())
}

/// Calls `p256::ecdsa::VerifyingKey::from_sec1_bytes`; `Ok` exactly when
/// the key is accepted, and the error text otherwise.
#[verifier::external_body]
fn parse_verifying_key(public_key: &[u8]) -> (r: Result<(), String>)
    ensures
        r is Ok <==> p256_sec1_verifying_key_accepted(public_key@),
{
    p256::ecdsa::VerifyingKey::from_sec1_bytes(public_key).map(|_| ()).map_err(|e| e.to_string())
}

/// Calls `p256::ecdsa::Signature::from_slice`; `Ok` exactly when the
/// signature bytes are accepted. The source accepts only slices of
/// exactly 64 bytes.
#[verifier::external_body]
fn parse_fixed_signature(signature: &[u8]) -> (r: Result<(), String>)
    ensures
        r is Ok <==> p256_fixed_signature_accepted(signature@),
        r is Ok ==> signature@.len() == 64,
{
    p256::ecdsa::Signature::from_slice(signature).map(|_| ()).map_err(|e| e.to_string())
}

/// Calls `DigestVerifier::verify_digest` with a SHA-256 digest of the
/// message; both the key and the signature are parsed again as arguments.
#[verifier::external_body]
fn digest_signature_verifies(message: &[u8], signature: &[u8], public_key: &[u8]) -> (r: bool)
    requires
        p256_sec1_verifying_key_accepted(public_key@),
        p256_fixed_signature_accepted(signature@),
    ensures
        r == p256_sha256_digest_verifies(public_key@, message@, signature@),
{
    let key = p256::ecdsa::VerifyingKey::from_sec1_bytes(public_key).expect("accepted key");
    let sig = p256::ecdsa::Signature::from_slice(signature).expect("accepted signature");
    key.verify_digest(sha2::Sha256::new_with_prefix(message), &sig).is_ok()
}

/// Calls `signature::Verifier::verify` on the message; both the key and
/// the signature are parsed again as arguments.
#[verifier::external_body]
fn message_signature_verifies(message: &[u8], signature: &[u8], public_key: &[u8]) -> (r: bool)
    requires
        p256_sec1_verifying_key_accepted(public_key@),
        p256_fixed_signature_accepted(signature@),
    ensures
        r == p256_message_verifies(public_key@, message@, signature@),
{
    let key = p256::ecdsa::VerifyingKey::from_sec1_bytes(public_key).expect("accepted key");
    let sig = p256::ecdsa::Signature::from_slice(signature).expect("accepted signature");
    key.verify(message, &sig).is_ok()
}

/// Whether `p256::ecdsa::Signature::from_der` accepts the bytes as an
/// ASN.1 DER-encoded P-256 signature.
pub uninterp spec fn p256_der_signature_accepted(signature: Seq<u8>) -> bool;

/// Whether `signature::Verifier::verify` of the verifying key parsed from
/// `public_key` accepts the DER signature parsed from `signature` over
/// `message`.
pub uninterp spec fn p256_der_message_verifies(
    public_key: Seq<u8>,
    message: Seq<u8>,
    signature: Seq<u8>,
) -> bool;

/// Calls `p256::ecdsa::Signature::from_der`; `Ok` exactly when the bytes
/// are accepted. The error text is not stated.
#[verifier::external_body]
fn parse_der_signature(signature: &[u8]) -> (r: Result<(), String>)
    ensures
        r is Ok <==> p256_der_signature_accepted(signature@),
{
    p256::ecdsa::Signature::from_der(signature).map(|_| ()).map_err(|e| e.to_string())
}

/// Calls `signature::Verifier::verify` with a signature read by
/// `Signature::from_der`; the key and the signature are parsed again as
/// arguments.
#[verifier::external_body]
fn der_message_signature_verifies(message: &[u8], signature: &[u8], public_key: &[u8]) -> (r: bool)
    requires
        p256_sec1_verifying_key_accepted(public_key@),
        p256_der_signature_accepted(signature@),
    ensures
        r == p256_der_message_verifies(public_key@, message@, signature@),
{
    let key = p256::ecdsa::VerifyingKey::from_sec1_bytes(public_key).expect("accepted key");
    let sig = p256::ecdsa::Signature::from_der(signature).expect("accepted signature");
    key.verify(message, &sig).is_ok()
}

/// Whether a check through `Verifier::verify` with a DER signature passes.
pub open spec fn der_check_passes(message: Seq<u8>, signature: Seq<u8>, public_key: Seq<u8>) -> bool {
    &&& p256_sec1_verifying_key_accepted(public_key)
    &&& p256_der_signature_accepted(signature)
    &&& p256_der_message_verifies(public_key, message, signature)
}

/// Verifies a DER-encoded P-256 ECDSA signature on `message` through
/// `signature::Verifier::verify`.
pub fn verify_p256_der_message(message: &[u8], signature: &[u8], public_key: &[u8]) -> (r: Result<
    (),
    SignatureVerifyError,
>)
    ensures
        r is Ok <==> der_check_passes(message@, signature@, public_key@),
        r matches Err(SignatureVerifyError::InvalidPublicKey(_)) ==> !p256_sec1_verifying_key_accepted(public_key@),
        r matches Err(SignatureVerifyError::InvalidSignature(_)) ==> p256_sec1_verifying_key_accepted(public_key@)
            && !p256_der_signature_accepted(signature@),
        r matches Err(SignatureVerifyError::VerificationFailed) ==> p256_sec1_verifying_key_accepted(public_key@)
            && p256_der_signature_accepted(signature@),
{
    match parse_verifying_key(public_key) {
        Err(msg) => return Err(SignatureVerifyError::InvalidPublicKey(msg)),
        Ok(()) => {},
    }
    match parse_der_signature(signature) {
        Err(msg) => return Err(SignatureVerifyError::InvalidSignature(msg)),
        Ok(()) => {},
    }
    if der_message_signature_verifies(message, signature, public_key) {
        Ok(())
    } else {
        Err(SignatureVerifyError::VerificationFailed)
    }
}

/// Why a signature check failed.
#[derive(Debug, Clone, PartialEq, Eq)]
pub enum SignatureVerifyError {
    /// The public key is not a SEC1 P-256 key.
    InvalidPublicKey(String),
    /// The signature is not a fixed-width P-256 signature.
    InvalidSignature(String),
    /// Both parse, but the signature does not verify.
    VerificationFailed,
}

/// The outcome of a signature check over the SHA-256 digest of `message`,
/// in the order of the checks: the key first, then the signature bytes,
/// then the signature itself.
pub open spec fn digest_check_passes(
    message: Seq<u8>,
    signature: Seq<u8>,
    public_key: Seq<u8>,
) -> bool {
    &&& p256_sec1_verifying_key_accepted(public_key)
    &&& p256_fixed_signature_accepted(signature)
    &&& p256_sha256_digest_verifies(public_key, message, signature)
}

/// The same for a check through `Verifier::verify` on the message.
pub open spec fn message_check_passes(
    message: Seq<u8>,
    signature: Seq<u8>,
    public_key: Seq<u8>,
) -> bool {
    &&& p256_sec1_verifying_key_accepted(public_key)
    &&& p256_fixed_signature_accepted(signature)
    &&& p256_message_verifies(public_key, message, signature)
}

/// Which error a failed check reports.
pub open spec fn check_error_matches(
    e: SignatureVerifyError,
    signature: Seq<u8>,
    public_key: Seq<u8>,
) -> bool {
    match e {
        SignatureVerifyError::InvalidPublicKey(_) => !p256_sec1_verifying_key_accepted(
            public_key,
        ),
        SignatureVerifyError::InvalidSignature(_) => p256_sec1_verifying_key_accepted(public_key)
            && !p256_fixed_signature_accepted(signature),
        SignatureVerifyError::VerificationFailed => p256_sec1_verifying_key_accepted(public_key)
            && p256_fixed_signature_accepted(signature),
    }
}

/// Verifies a P-256 ECDSA signature over the SHA-256 digest of `message`.
///
/// `public_key` is a SEC1 key (65 bytes uncompressed); `signature` is the
/// 64-byte fixed-width form.
pub fn verify_p256_signature(message: &[u8], signature: &[u8], public_key: &[u8]) -> (r: Result<
    (),
    SignatureVerifyError,
>)
    ensures
        r is Ok <==> digest_check_passes(message@, signature@, public_key@),
        r matches Err(e) ==> check_error_matches(e, signature@, public_key@),
{
    match parse_verifying_key(public_key) {
        Err(msg) => return Err(SignatureVerifyError::InvalidPublicKey(msg)),
        Ok(()) => {},
    }
    match parse_fixed_signature(signature) {
        Err(msg) => return Err(SignatureVerifyError::InvalidSignature(msg)),
        Ok(()) => {},
    }
    if digest_signature_verifies(message, signature, public_key) {
        Ok(())
    } else {
        Err(SignatureVerifyError::VerificationFailed)
    }
}

/// Verifies a P-256 ECDSA signature on `message` through
/// `signature::Verifier::verify`.
pub fn verify_p256_message(message: &[u8], signature: &[u8], public_key: &[u8]) -> (r: Result<
    (),
    SignatureVerifyError,
>)
    ensures
        r is Ok <==> message_check_passes(message@, signature@, public_key@),
        r matches Err(e) ==> check_error_matches(e, signature@, public_key@),
{
    match parse_verifying_key(public_key) {
        Err(msg) => return Err(SignatureVerifyError::InvalidPublicKey(msg)),
        Ok(()) => {},
    }
    match parse_fixed_signature(signature) {
        Err(msg) => return Err(SignatureVerifyError::InvalidSignature(msg)),
        Ok(()) => {},
    }
    if message_signature_verifies(message, signature, public_key) {
        Ok(())
    } else {
        Err(SignatureVerifyError::VerificationFailed)
    }
}

/// The SHA-256 digest of the bytes.
pub uninterp spec fn sha256_of(data: Seq<u8>) -> Seq<u8>;

/// Calls `sha2::Sha256::digest`; the digest is 32 bytes long.
#[verifier::external_body]
pub(crate) fn sha256_digest(data: &[u8]) -> (r: Vec<u8>)
    ensures
        r@ == sha256_of(data@),
        r@.len() == 32,
{
    sha2::Sha256::digest(data).to_vec()
}

/// Whether `p256::ecdsa::SigningKey::from_bytes` accepts the 32 bytes as a
/// P-256 secret scalar.
pub uninterp spec fn p256_secret_key_accepted(secret_key: Seq<u8>) -> bool;

/// The uncompressed SEC1 encoding of the public key that belongs to a
/// secret key.
pub uninterp spec fn p256_public_key_of(secret_key: Seq<u8>) -> Seq<u8>;

/// The fixed-width signature (r || s) that `Signer::try_sign` gives for a
/// message under a secret key; the nonce is derived by RFC 6979, so the
/// signature depends on the key and the message alone.
pub uninterp spec fn p256_signature_of(secret_key: Seq<u8>, message: Seq<u8>) -> Seq<u8>;

/// Reads the secret key with `SigningKey::from_bytes` and writes its
/// verifying key with `to_encoded_point(false)`: 65 bytes, which
/// `from_sec1_bytes` reads back. `None` exactly when the key is refused.
#[verifier::external_body]
fn derive_public_key(secret_key: &[u8]) -> (r: Option<Vec<u8>>)
    requires
        secret_key@.len() == 32,
    ensures
        r is Some <==> p256_secret_key_accepted(secret_key@),
        r matches Some(pk) ==> {
            &&& pk@ == p256_public_key_of(secret_key@)
            &&& pk@.len() == 65
            &&& p256_sec1_verifying_key_accepted(pk@)
            &&& p256_sec1_public_key_accepted(pk@)
        },
{
    let key = p256::ecdsa::SigningKey::from_bytes(secret_key.into()).ok()?;
    Some(key.verifying_key().to_encoded_point(false).as_bytes().to_vec())
}

/// Whether `Signer::try_sign` of the key read from `secret_key` succeeds on
/// the message. The nonce is derived by RFC 6979, so this depends on the
/// key and the message alone.
pub uninterp spec fn p256_signing_succeeds(secret_key: Seq<u8>, message: Seq<u8>) -> bool;

/// Reads the secret key with `SigningKey::from_bytes` and signs the message
/// with `Signer::try_sign`, which hashes it with SHA-256. The signature is
/// 64 bytes and verifies under the key's public key, through
/// `Verifier::verify` and through `verify_digest` of a SHA-256 digest
/// alike (the crate's own example signs and verifies this way).
/// `None` exactly when the key is refused or `try_sign` reports an error.
#[verifier::external_body]
fn sign_with_secret_key(secret_key: &[u8], message: &[u8]) -> (r: Option<Vec<u8>>)
    requires
        secret_key@.len() == 32,
    ensures
        r is Some <==> (p256_secret_key_accepted(secret_key@) && p256_signing_succeeds(secret_key@, message@)),
        r matches Some(s) ==> {
            &&& s@ == p256_signature_of(secret_key@, message@)
            &&& s@.len() == 64
            &&& p256_fixed_signature_accepted(s@)
            &&& p256_message_verifies(p256_public_key_of(secret_key@), message@, s@)
            &&& p256_sha256_digest_verifies(p256_public_key_of(secret_key@), message@, s@)
        },
{
    let key = p256::ecdsa::SigningKey::from_bytes(secret_key.into()).ok()?;
    let signature: p256::ecdsa::Signature = key.try_sign(message).ok()?;
    Some(signature.to_vec())
}

/// Calls `SigningKey::random` with the operating system's generator and
/// writes the key with `to_bytes`: 32 bytes, which `SigningKey::from_bytes`
/// reads back. Which key comes out is chance and is not stated.
#[verifier::external_body]
pub(crate) fn random_secret_key() -> (r: Vec<u8>)
    ensures
        r@.len() == 32,
        p256_secret_key_accepted(r@),
{
    p256::ecdsa::SigningKey::random(&mut rand_core::OsRng).to_bytes().to_vec()
}

/// Why a message could not be signed.
#[derive(Debug, Clone, Copy, PartialEq, Eq, Structural)]
pub enum SigningError {
    /// The 32 bytes are not a P-256 secret scalar.
    InvalidPrivateKey,
    /// The signer reported an error.
    SigningFailed,
}

/// The public key (uncompressed SEC1, 65 bytes) of a 32-byte secret key.
pub fn public_key_from_secret(secret_key: &[u8]) -> (r: Result<Vec<u8>, SigningError>)
    requires
        secret_key@.len() == 32,
    ensures
        r is Ok <==> p256_secret_key_accepted(secret_key@),
        r matches Ok(pk) ==> pk@ == p256_public_key_of(secret_key@) && pk@.len() == 65,
        r matches Err(e) ==> e == SigningError::InvalidPrivateKey,
{
    match derive_public_key(secret_key) {
        Some(pk) => Ok(pk),
        None => Err(SigningError::InvalidPrivateKey),
    }
}

/// Signs a message with a 32-byte secret key (ES256: SHA-256, then
/// ECDSA/P-256 with an RFC 6979 nonce).
///
/// It succeeds exactly when P-256 accepts the key and the signer signs
/// the message. What is signed verifies under the key's public key, both
/// by `verify_p256_message` and by `verify_p256_signature`.
pub fn sign_p256_message(secret_key: &[u8], message: &[u8]) -> (r: Result<Vec<u8>, SigningError>)
    requires
        secret_key@.len() == 32,
    ensures
        !p256_secret_key_accepted(secret_key@) ==> r == Err::<Vec<u8>, SigningError>(
            SigningError::InvalidPrivateKey,
        ),
        r is Ok <==> p256_secret_key_accepted(secret_key@) && p256_signing_succeeds(
            secret_key@,
            message@,
        ),
        r matches Err(SigningError::SigningFailed) ==> p256_secret_key_accepted(secret_key@),
        r matches Err(SigningError::InvalidPrivateKey) ==> !p256_secret_key_accepted(secret_key@),
        r matches Ok(s) ==> {
            &&& p256_secret_key_accepted(secret_key@)
            &&& s@ == p256_signature_of(secret_key@, message@)
            &&& message_check_passes(message@, s@, p256_public_key_of(secret_key@))
            &&& digest_check_passes(message@, s@, p256_public_key_of(secret_key@))
        },
{
    match derive_public_key(secret_key) {
        Some(_) => {},
        None => return Err(SigningError::InvalidPrivateKey),
    }
    match sign_with_secret_key(secret_key, message) {
        Some(s) => Ok(s),
        None => Err(SigningError::SigningFailed),
    }
}

} // verus!
