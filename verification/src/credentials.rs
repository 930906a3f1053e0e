//! Client-side credentials for a state node: the message that a request
//! signature covers, signed requests, user key IDs, proof-of-possession
//! signatures of key IDs, and the claims and signature of tokens.
use crate::auth_token::{content_resource, content_resource_for, encode_jwt, jwt_wire, signing_input_chars};
use crate::crypto::{
    digest_check_passes, message_check_passes, p256_public_key_of, p256_secret_key_accepted,
    p256_signature_of, p256_signing_succeeds, public_key_from_secret, sha256_digest, sha256_of, sign_p256_message,
    SigningError,
};
use crate::encoding::{
    append_bytes, base64_decode, base64_decoded, base64_encode, base64_encoded, base64url_encode,
    base64url_encoded, be_bytes, hex_decode, hex_decoded, hex_encode, hex_text, u64_to_be_bytes,
};
use crate::signature_verifier::{wire_check, WireVerifyError};
use crate::text::{
    chars_until, concat, decimal_chars, decimal_string, digit_char, lemma_split_join,
    lemma_split_no_separator, split_chars, split_str, string_views, to_owned_string,
    trim_whitespace, whitespace_trimmed,
};
use vstd::prelude::*;

verus! {

/// Why a credential could not be made.
#[derive(Debug, Clone, Copy, PartialEq, Eq, Structural)]
pub enum CredentialError {
    /// A required argument is empty.
    MissingArguments,
    /// The private key is not hexadecimal.
    InvalidPrivateKeyHex,
    /// The private key is not a P-256 secret scalar.
    InvalidPrivateKey,
    /// The request body is not standard base64.
    InvalidBody,
    /// The recipient's public key is not hexadecimal.
    InvalidRecipientKeyHex,
    /// The signer reported an error.
    SigningFailed,
}

/// The message that a request signature covers. A request with a body
/// signs the lowercase hex SHA-256 digest of the body followed by the
/// timestamp's eight big-endian bytes; one without signs
/// `{operation}:{resource}:{timestamp}`.
pub open spec fn request_message(
    operation: Seq<char>,
    resource: Seq<char>,
    timestamp: u64,
    body: Option<Seq<u8>>,
) -> Seq<char> {
    match body {
        Some(b) => hex_text(sha256_of(b + be_bytes(timestamp))),
        None => operation + seq![':'] + resource + seq![':'] + decimal_chars(timestamp as nat),
    }
}

/// The bytes of an optional body.
pub open spec fn body_view(body: Option<&[u8]>) -> Option<Seq<u8>> {
    match body {
        Some(b) => Some(b@),
        None => None,
    }
}

/// Forms the message that a request signature covers.
pub fn request_signing_message(
    operation: &str,
    resource: &str,
    timestamp: u64,
    body: Option<&[u8]>,
) -> (r: String)
    ensures
        r@ == request_message(operation@, resource@, timestamp, body_view(body)),
{
    match body {
        Some(b) => {
            let mut data: Vec<u8> = Vec::new();
            append_bytes(&mut data, b);
            let ts = u64_to_be_bytes(timestamp);
            append_bytes(&mut data, ts.as_slice());
            assert(data@ =~= b@ + be_bytes(timestamp));
            let digest = sha256_digest(data.as_slice());
            hex_encode(digest.as_slice())
        },
        None => {
            let a = concat(operation, ":");
            let b = concat(a.as_str(), resource);
            let c = concat(b.as_str(), ":");
            let d = decimal_string(timestamp);
            let e = concat(c.as_str(), d.as_str());
            proof {
                reveal_strlit(":");
                assert(e@ =~= operation@ + seq![':'] + resource@ + seq![':'] + decimal_chars(
                    timestamp as nat,
                ));
            }
            e
        },
    }
}

/// Decimal digits never include `:`, and every number has at least one
/// digit (two from 10 on).
proof fn lemma_decimal_shape(n: nat)
    ensures
        decimal_chars(n).len() >= 1,
        n >= 10 ==> decimal_chars(n).len() >= 2,
        forall|i: int| 0 <= i < decimal_chars(n).len() ==> #[trigger] decimal_chars(n)[i] != ':',
    decreases n,
{
    if n >= 10 {
        lemma_decimal_shape(n / 10);
    }
}

/// Different digits are different characters.
proof fn lemma_digit_injective(x: nat, y: nat)
    requires
        x < 10,
        y < 10,
        digit_char(x) == digit_char(y),
    ensures
        x == y,
{
}

/// Different numbers are written differently.
proof fn lemma_decimal_injective(a: nat, b: nat)
    requires
        decimal_chars(a) == decimal_chars(b),
    ensures
        a == b,
    decreases a,
{
    lemma_decimal_shape(a);
    lemma_decimal_shape(b);
    if a < 10 && b < 10 {
        assert(decimal_chars(a)[0] == digit_char(a));
        assert(decimal_chars(b)[0] == digit_char(b));
        lemma_digit_injective(a, b);
    } else if a >= 10 && b >= 10 {
        let da = decimal_chars(a / 10);
        let db = decimal_chars(b / 10);
        let ca = decimal_chars(a);
        let cb = decimal_chars(b);
        assert(ca == da.push(digit_char(a % 10)));
        assert(cb == db.push(digit_char(b % 10)));
        assert(ca.last() == digit_char(a % 10));
        assert(cb.last() == digit_char(b % 10));
        assert(da =~= ca.drop_last());
        assert(db =~= cb.drop_last());
        lemma_digit_injective(a % 10, b % 10);
        lemma_decimal_injective(a / 10, b / 10);
    }
}

/// A request message without a body names its operation, resource and
/// timestamp: when neither the operation nor the resource contains `:`,
/// equal messages have equal fields, so a signature over one request
/// cannot be presented for another.
pub proof fn law_request_message_binds_fields(
    op1: Seq<char>,
    res1: Seq<char>,
    t1: u64,
    op2: Seq<char>,
    res2: Seq<char>,
    t2: u64,
)
    requires
        forall|i: int| 0 <= i < op1.len() ==> op1[i] != ':',
        forall|i: int| 0 <= i < res1.len() ==> res1[i] != ':',
        forall|i: int| 0 <= i < op2.len() ==> op2[i] != ':',
        forall|i: int| 0 <= i < res2.len() ==> res2[i] != ':',
        request_message(op1, res1, t1, None) == request_message(op2, res2, t2, None),
    ensures
        op1 == op2,
        res1 == res2,
        t1 == t2,
{
    lemma_split_fields(op1, res1, t1);
    lemma_split_fields(op2, res2, t2);
    let parts = split_chars(request_message(op1, res1, t1, None), ':');
    assert(parts[0] == op1 && parts[0] == op2);
    assert(parts[1] == res1 && parts[1] == res2);
    assert(decimal_chars(t1 as nat) == decimal_chars(t2 as nat));
    lemma_decimal_injective(t1 as nat, t2 as nat);
}

/// Splitting a request message without a body at `:` gives back its
/// fields.
proof fn lemma_split_fields(op: Seq<char>, res: Seq<char>, t: u64)
    requires
        forall|i: int| 0 <= i < op.len() ==> op[i] != ':',
        forall|i: int| 0 <= i < res.len() ==> res[i] != ':',
    ensures
        split_chars(request_message(op, res, t, None), ':') == seq![
            op,
            res,
            decimal_chars(t as nat),
        ],
{
    let d = decimal_chars(t as nat);
    lemma_decimal_shape(t as nat);
    lemma_split_no_separator(op, ':');
    lemma_split_no_separator(res, ':');
    lemma_split_no_separator(d, ':');
    lemma_split_join(op, res, ':');
    lemma_split_join(op + seq![':'] + res, d, ':');
    assert(request_message(op, res, t, None) == (op + seq![':'] + res) + seq![':'] + d);
    assert(seq![op] + seq![res] + seq![d] =~= seq![op, res, d]);
}

/// What a hex-written secret key reads as: the 32 bytes when they decode
/// and P-256 accepts them, the reason otherwise.
pub open spec fn secret_key_read(private_key_hex: Seq<char>) -> Result<Seq<u8>, CredentialError> {
    match hex_decoded(private_key_hex) {
        None => Err(CredentialError::InvalidPrivateKeyHex),
        Some(k) => if p256_secret_key_accepted(k) {
            Ok(k)
        } else {
            Err(CredentialError::InvalidPrivateKey)
        },
    }
}

/// Whether a hex-written key that decodes has the 32 bytes of a P-256
/// secret key (a key of another length is not a key at all).
pub open spec fn secret_key_sized(private_key_hex: Seq<char>) -> bool {
    match hex_decoded(private_key_hex) {
        Some(k) => k.len() == 32,
        None => true,
    }
}

/// Reads a hex-written secret key: its bytes and its public key.
fn read_secret_key(private_key_hex: &str) -> (r: Result<(Vec<u8>, Vec<u8>), CredentialError>)
    requires
        secret_key_sized(private_key_hex@),
    ensures
        match secret_key_read(private_key_hex@) {
            Ok(k) => r matches Ok((sk, pk)) && sk@ == k && sk@.len() == 32 && pk@
                == p256_public_key_of(k) && pk@.len() == 65,
            Err(e) => r == Err::<(Vec<u8>, Vec<u8>), CredentialError>(e),
        },
{
    let k = match hex_decode(private_key_hex) {
        Some(k) => k,
        None => return Err(CredentialError::InvalidPrivateKeyHex),
    };
    match public_key_from_secret(k.as_slice()) {
        Ok(pk) => Ok((k, pk)),
        Err(_) => Err(CredentialError::InvalidPrivateKey),
    }
}

/// A signed request: the message, its signature, the signature in
/// standard base64, and the timestamp that the message carries.
#[derive(Debug, Clone)]
pub struct SignedRequest {
    pub message: String,
    pub signature: Vec<u8>,
    pub signature_base64: String,
    pub timestamp: u64,
}

/// The body that a base64 argument gives: no body when the argument is
/// empty, the decoded bytes when it decodes, `None` when it does not.
pub open spec fn request_body(body_base64: Seq<char>) -> Option<Option<Seq<u8>>> {
    if body_base64.len() == 0 {
        Some(None)
    } else {
        match base64_decoded(body_base64) {
            Some(b) => Some(Some(b)),
            None => None,
        }
    }
}

/// The first check that refuses a request to sign, in the order of the
/// checks: the arguments, the key, then the body.
pub open spec fn sign_request_refusal(
    private_key_hex: Seq<char>,
    operation: Seq<char>,
    resource: Seq<char>,
    body_base64: Seq<char>,
) -> Option<CredentialError> {
    if private_key_hex.len() == 0 || operation.len() == 0 || resource.len() == 0 {
        Some(CredentialError::MissingArguments)
    } else {
        match secret_key_read(private_key_hex) {
            Err(e) => Some(e),
            Ok(_) => if request_body(body_base64) is None {
                Some(CredentialError::InvalidBody)
            } else {
                None
            },
        }
    }
}

/// What a signed request holds when signing succeeded.
pub open spec fn signed_request_is(
    s: SignedRequest,
    private_key_hex: Seq<char>,
    operation: Seq<char>,
    resource: Seq<char>,
    timestamp: u64,
    body_base64: Seq<char>,
) -> bool {
    match (secret_key_read(private_key_hex), request_body(body_base64)) {
        (Ok(k), Some(body)) => {
            let msg = vstd::utf8::encode_utf8(s.message@);
            &&& s.message@ == request_message(operation, resource, timestamp, body)
            &&& s.timestamp == timestamp
            &&& s.signature@ == p256_signature_of(k, msg)
            &&& s.signature_base64@ == base64_encoded(s.signature@)
            &&& message_check_passes(msg, s.signature@, p256_public_key_of(k))
        },
        _ => false,
    }
}

/// Whether the signer signs the message of a request whose key and body
/// read.
pub open spec fn request_signing_succeeds(
    private_key_hex: Seq<char>,
    operation: Seq<char>,
    resource: Seq<char>,
    timestamp: u64,
    body_base64: Seq<char>,
) -> bool {
    match (secret_key_read(private_key_hex), request_body(body_base64)) {
        (Ok(k), Some(body)) => p256_signing_succeeds(
            k,
            vstd::utf8::encode_utf8(request_message(operation, resource, timestamp, body)),
        ),
        _ => false,
    }
}

/// Signs a request with a hex-written P-256 secret key. A non-empty
/// `body_base64` is the request body in standard base64.
///
/// The signature verifies under the key's public key.
pub fn sign_request(
    private_key_hex: &str,
    operation: &str,
    resource: &str,
    timestamp: u64,
    body_base64: &str,
) -> (r: Result<SignedRequest, CredentialError>)
    requires
        secret_key_sized(private_key_hex@),
    ensures
        sign_request_refusal(private_key_hex@, operation@, resource@, body_base64@) matches Some(e)
            ==> r == Err::<SignedRequest, CredentialError>(e),
        sign_request_refusal(private_key_hex@, operation@, resource@, body_base64@) is None ==> (r is Ok
            <==> request_signing_succeeds(private_key_hex@, operation@, resource@, timestamp, body_base64@)),
        sign_request_refusal(private_key_hex@, operation@, resource@, body_base64@) is None ==> (r is Ok
            || r == Err::<SignedRequest, CredentialError>(CredentialError::SigningFailed)),
        r matches Ok(s) ==> signed_request_is(
            s,
            private_key_hex@,
            operation@,
            resource@,
            timestamp,
            body_base64@,
        ),
{
    if private_key_hex.unicode_len() == 0 || operation.unicode_len() == 0 || resource.unicode_len()
        == 0 {
        return Err(CredentialError::MissingArguments);
    }
    let (secret, _public) = match read_secret_key(private_key_hex) {
        Ok(keys) => keys,
        Err(e) => return Err(e),
    };
    let message = if body_base64.unicode_len() == 0 {
        request_signing_message(operation, resource, timestamp, None)
    } else {
        match base64_decode(body_base64) {
            Ok(body) => request_signing_message(
                operation,
                resource,
                timestamp,
                Some(body.as_slice()),
            ),
            Err(_) => return Err(CredentialError::InvalidBody),
        }
    };
    let signature = match sign_p256_message(secret.as_slice(), message.as_str().as_bytes()) {
        Ok(s) => s,
        Err(_) => return Err(CredentialError::SigningFailed),
    };
    let signature_base64 = base64_encode(signature.as_slice());
    Ok(SignedRequest { message, signature, signature_base64, timestamp })
}

/// A user's key ID: `user:` and the first sixteen hex digits of the
/// public key.
pub open spec fn user_key_id_of(public_key: Seq<u8>) -> Seq<char> {
    "user:"@ + hex_text(public_key).subrange(0, 16)
}

/// The key ID of a user's public key.
pub fn user_key_id(public_key: &[u8]) -> (r: String)
    requires
        public_key@.len() >= 8,
    ensures
        r@ == user_key_id_of(public_key@),
{
    let hex = hex_encode(public_key);
    let head = chars_until(hex.as_str(), 16);
    concat("user:", head.as_str())
}

/// The first check that refuses to sign a key ID.
pub open spec fn sign_key_id_refusal(private_key_hex: Seq<char>, key_id: Seq<char>) -> Option<
    CredentialError,
> {
    if private_key_hex.len() == 0 || key_id.len() == 0 {
        Some(CredentialError::MissingArguments)
    } else {
        match secret_key_read(private_key_hex) {
            Err(e) => Some(e),
            Ok(_) => None,
        }
    }
}

/// What a key-ID signature is when signing succeeded: the hex of the
/// signature, which the SHA-256 digest check accepts under the key's
/// public key.
pub open spec fn key_id_signature_is(sig_hex: Seq<char>, private_key_hex: Seq<char>, key_id: Seq<char>) -> bool {
    match secret_key_read(private_key_hex) {
        Ok(k) => {
            let msg = vstd::utf8::encode_utf8(key_id);
            &&& sig_hex == hex_text(p256_signature_of(k, msg))
            &&& digest_check_passes(msg, p256_signature_of(k, msg), p256_public_key_of(k))
        },
        Err(_) => false,
    }
}

/// Whether the signer signs the bytes of a key ID with a key that reads.
pub open spec fn key_id_signing_succeeds(private_key_hex: Seq<char>, key_id: Seq<char>) -> bool {
    match secret_key_read(private_key_hex) {
        Ok(k) => p256_signing_succeeds(k, vstd::utf8::encode_utf8(key_id)),
        Err(_) => false,
    }
}

/// Signs a key ID for proof of possession of the key: the signature, in
/// hex, over the key ID's bytes.
pub fn sign_key_id(private_key_hex: &str, key_id: &str) -> (r: Result<String, CredentialError>)
    requires
        secret_key_sized(private_key_hex@),
    ensures
        sign_key_id_refusal(private_key_hex@, key_id@) matches Some(e) ==> r == Err::<
            String,
            CredentialError,
        >(e),
        sign_key_id_refusal(private_key_hex@, key_id@) is None ==> (r is Ok <==> key_id_signing_succeeds(private_key_hex@, key_id@)),
        sign_key_id_refusal(private_key_hex@, key_id@) is None ==> (r is Ok || r == Err::<
            String,
            CredentialError,
        >(CredentialError::SigningFailed)),
        r matches Ok(h) ==> key_id_signature_is(h@, private_key_hex@, key_id@),
{
    if private_key_hex.unicode_len() == 0 || key_id.unicode_len() == 0 {
        return Err(CredentialError::MissingArguments);
    }
    let (secret, _public) = match read_secret_key(private_key_hex) {
        Ok(keys) => keys,
        Err(e) => return Err(e),
    };
    match sign_p256_message(secret.as_slice(), key_id.as_bytes()) {
        Ok(s) => Ok(hex_encode(s.as_slice())),
        Err(_) => Err(CredentialError::SigningFailed),
    }
}

/// One capability that a token grants: an action (`can`) on a resource
/// (`with`), as the token's JSON writes them.
#[derive(Debug, Clone)]
pub struct Grant {
    pub with: String,
    pub can: String,
}

/// The claims of a token that a user signs: issuer, audience, issue and
/// expiry times (Unix seconds), and the grants.
#[derive(Debug, Clone)]
pub struct TokenClaims {
    pub iss: String,
    pub aud: String,
    pub iat: u64,
    pub exp: u64,
    pub grants: Vec<Grant>,
}

/// The resource of a grant on every content.
pub open spec fn all_content_resource() -> Seq<char> {
    "monas://content/*"@
}

/// The claims of a token that a user issues to themself: write access to
/// one content, or to every content when none is named, for an hour.
pub open spec fn own_token_claims_are(
    c: TokenClaims,
    public_key: Seq<u8>,
    content_id: Option<Seq<char>>,
    now: u64,
) -> bool {
    &&& c.iss@ == user_key_id_of(public_key)
    &&& c.aud@ == user_key_id_of(public_key)
    &&& c.iat == now
    &&& c.exp == now + 3600
    &&& c.grants@.len() == 1
    &&& c.grants@[0].can@ == "write"@
    &&& c.grants@[0].with@ == match content_id {
        Some(id) => content_resource(id),
        None => all_content_resource(),
    }
}

/// The name of an optional content.
pub open spec fn str_view(s: Option<&str>) -> Option<Seq<char>> {
    match s {
        Some(x) => Some(x@),
        None => None,
    }
}

/// The claims of a token that a user issues to themself.
pub fn own_token_claims(public_key: &[u8], content_id: Option<&str>, now: u64) -> (r: TokenClaims)
    requires
        public_key@.len() >= 8,
        now + 3600 <= u64::MAX,
    ensures
        own_token_claims_are(r, public_key@, str_view(content_id), now),
{
    let with = match content_id {
        Some(id) => content_resource_for(id),
        None => to_owned_string("monas://content/*"),
    };
    let mut grants: Vec<Grant> = Vec::new();
    grants.push(Grant { with, can: to_owned_string("write") });
    TokenClaims {
        iss: user_key_id(public_key),
        aud: user_key_id(public_key),
        iat: now,
        exp: now + 3600,
        grants,
    }
}

/// The grants of a share token: one per comma-separated entry of
/// `capabilities`, trimmed of surrounding whitespace, each on the content.
pub open spec fn share_grants_are(g: Seq<Grant>, content_id: Seq<char>, capabilities: Seq<char>) -> bool {
    let entries = split_chars(capabilities, ',');
    &&& g.len() == entries.len()
    &&& forall|i: int|
        0 <= i < g.len() ==> #[trigger] g[i].with@ == content_resource(content_id) && g[i].can@
            == whitespace_trimmed(entries[i])
}

/// The grants of a share token on a content.
pub fn share_grants(content_id: &str, capabilities: &str) -> (r: Vec<Grant>)
    ensures
        share_grants_are(r@, content_id@, capabilities@),
{
    let entries = split_str(capabilities, ',');
    let ghost views = string_views(entries@);
    let mut grants: Vec<Grant> = Vec::new();
    let mut i: usize = 0;
    while i < entries.len()
        invariant
            i <= entries@.len(),
            views == string_views(entries@),
            views == split_chars(capabilities@, ','),
            grants@.len() == i,
            forall|j: int|
                0 <= j < i ==> #[trigger] grants@[j].with@ == content_resource(content_id@)
                    && grants@[j].can@ == whitespace_trimmed(views[j]),
        decreases entries@.len() - i,
    {
        let can = trim_whitespace(entries[i].as_str());
        grants.push(Grant { with: content_resource_for(content_id), can });
        i = i + 1;
    }
    grants
}

/// What a share token is made from: its claims, and the owner's secret
/// and public keys and the recipient's public key as bytes.
#[derive(Debug, Clone)]
pub struct ShareTokenPlan {
    pub claims: TokenClaims,
    pub owner_secret_key: Vec<u8>,
    pub owner_public_key: Vec<u8>,
    pub recipient_public_key: Vec<u8>,
}

/// The first check that refuses a share token: the arguments, the owner's
/// key, then the recipient's key.
pub open spec fn share_token_refusal(
    owner_key_hex: Seq<char>,
    recipient_key_hex: Seq<char>,
    content_id: Seq<char>,
) -> Option<CredentialError> {
    if owner_key_hex.len() == 0 || recipient_key_hex.len() == 0 || content_id.len() == 0 {
        Some(CredentialError::MissingArguments)
    } else {
        match secret_key_read(owner_key_hex) {
            Err(e) => Some(e),
            Ok(_) => if hex_decoded(recipient_key_hex) is None {
                Some(CredentialError::InvalidRecipientKeyHex)
            } else {
                None
            },
        }
    }
}

/// Whether a recipient key that decodes has at least the eight bytes that
/// a key ID is made from.
pub open spec fn recipient_key_sized(recipient_key_hex: Seq<char>) -> bool {
    match hex_decoded(recipient_key_hex) {
        Some(k) => k.len() >= 8,
        None => true,
    }
}

/// What a share token plan holds: the owner issues to the recipient the
/// grants on the content, from `now` for `expiry` seconds.
pub open spec fn share_plan_is(
    p: ShareTokenPlan,
    owner_key_hex: Seq<char>,
    recipient_key_hex: Seq<char>,
    content_id: Seq<char>,
    capabilities: Seq<char>,
    now: u64,
    expiry: u64,
) -> bool {
    match (secret_key_read(owner_key_hex), hex_decoded(recipient_key_hex)) {
        (Ok(k), Some(rk)) => {
            &&& p.owner_secret_key@ == k
            &&& p.owner_public_key@ == p256_public_key_of(k)
            &&& p.recipient_public_key@ == rk
            &&& p.claims.iss@ == user_key_id_of(p256_public_key_of(k))
            &&& p.claims.aud@ == user_key_id_of(rk)
            &&& p.claims.iat == now
            &&& p.claims.exp == now + expiry
            &&& share_grants_are(p.claims.grants@, content_id, capabilities)
        },
        _ => false,
    }
}

/// Plans a share token: the owner (by hex-written secret key) grants the
/// recipient (by hex-written public key) the comma-separated actions on a
/// content, for `expiry` seconds from `now`.
pub fn share_token_plan(
    owner_key_hex: &str,
    recipient_key_hex: &str,
    content_id: &str,
    capabilities: &str,
    now: u64,
    expiry: u64,
) -> (r: Result<ShareTokenPlan, CredentialError>)
    requires
        secret_key_sized(owner_key_hex@),
        recipient_key_sized(recipient_key_hex@),
        now + expiry <= u64::MAX,
    ensures
        share_token_refusal(owner_key_hex@, recipient_key_hex@, content_id@) matches Some(e) ==> r
            == Err::<ShareTokenPlan, CredentialError>(e),
        share_token_refusal(owner_key_hex@, recipient_key_hex@, content_id@) is None ==> r is Ok,
        r matches Ok(p) ==> share_plan_is(
            p,
            owner_key_hex@,
            recipient_key_hex@,
            content_id@,
            capabilities@,
            now,
            expiry,
        ),
{
    if owner_key_hex.unicode_len() == 0 || recipient_key_hex.unicode_len() == 0
        || content_id.unicode_len() == 0 {
        return Err(CredentialError::MissingArguments);
    }
    let (secret, public) = match read_secret_key(owner_key_hex) {
        Ok(keys) => keys,
        Err(e) => return Err(e),
    };
    let recipient = match hex_decode(recipient_key_hex) {
        Some(k) => k,
        None => return Err(CredentialError::InvalidRecipientKeyHex),
    };
    let claims = TokenClaims {
        iss: user_key_id(public.as_slice()),
        aud: user_key_id(recipient.as_slice()),
        iat: now,
        exp: now + expiry,
        grants: share_grants(content_id, capabilities),
    };
    Ok(ShareTokenPlan {
        claims,
        owner_secret_key: secret,
        owner_public_key: public,
        recipient_public_key: recipient,
    })
}

/// The bytes that a token's signature covers: the URL-safe base64 header
/// and payload joined by `.`.
pub open spec fn jwt_signing_bytes(header_json: Seq<u8>, payload_json: Seq<u8>) -> Seq<u8> {
    vstd::utf8::encode_utf8(
        signing_input_chars(base64url_encoded(header_json), base64url_encoded(payload_json)),
    )
}

/// Signs a token's header and payload JSON with a 32-byte secret key and
/// writes it as a JWT.
///
/// A token signed here passes the wire check under the signer's public
/// key.
pub fn sign_jwt(secret_key: &[u8], header_json: &[u8], payload_json: &[u8]) -> (r: Result<
    String,
    SigningError,
>)
    requires
        secret_key@.len() == 32,
    ensures
        !p256_secret_key_accepted(secret_key@) ==> r == Err::<String, SigningError>(
            SigningError::InvalidPrivateKey,
        ),
        r is Ok <==> (p256_secret_key_accepted(secret_key@) && p256_signing_succeeds(secret_key@, jwt_signing_bytes(header_json@, payload_json@))),
        r matches Ok(t) ==> t@ == jwt_wire(
            header_json@,
            payload_json@,
            p256_signature_of(secret_key@, jwt_signing_bytes(header_json@, payload_json@)),
        ),
        r matches Ok(t) ==> wire_check(t@, p256_public_key_of(secret_key@)) == Ok::<
            (),
            WireVerifyError,
        >(()),
{
    let h = base64url_encode(header_json);
    let p = base64url_encode(payload_json);
    let with_dot = concat(h.as_str(), ".");
    let input = concat(with_dot.as_str(), p.as_str());
    proof {
        reveal_strlit(".");
        assert(input@ =~= signing_input_chars(h@, p@));
    }
    let signature = match sign_p256_message(secret_key, input.as_str().as_bytes()) {
        Ok(s) => s,
        Err(e) => return Err(e),
    };
    let token = encode_jwt(header_json, payload_json, signature.as_slice());
    Ok(token)
}

} // verus!
