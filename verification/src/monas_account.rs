//! Authentication with self-contained Monas account key IDs.
//!
//! A key ID reads `type:{public_key_hex}`: an identity type (`user`,
//! `node` or `service`), a colon, and the 65-byte uncompressed P-256 public
//! key as 130 hex characters starting with `04`. Delegated access uses a
//! JWT whose audience is such a key ID.
use crate::auth_token::AuthToken;
use crate::crypto::{message_check_passes, SignatureVerifyError};
use crate::encoding::{hex_decode, hex_decoded};
use crate::events::current_timestamp;
use crate::identity::{Identity, IdentityType};
use crate::signature_verifier::{wire_check, SignatureVerifier, WireVerifyError};
use crate::text::{
    chars_from, chars_until, concat, decimal_chars, decimal_string, find_char, has_prefix,
    starts_with, str_equal, to_owned_string,
};
use vstd::prelude::*;

verus! {

/// How long a signed request stays usable, in seconds.
pub const MAX_AGE_SECS: u64 = 300;

/// How far in the future a request's timestamp may lie, in seconds.
pub const MAX_CLOCK_SKEW_SECS: u64 = 30;

/// The length in hex characters of an uncompressed P-256 public key.
pub const PUBLIC_KEY_HEX_LEN: usize = 130;

/// The message of a signed request, its signature, and the time it was
/// signed, if given.
#[derive(Debug, Clone)]
pub struct SignatureContext {
    /// The message that was signed
    pub message: String,
    /// The signature bytes
    pub signature: Vec<u8>,
    /// Unix timestamp of the signature, if any
    pub timestamp: Option<u64>,
}

impl SignatureContext {
    /// A context without a timestamp.
    pub fn new(message: String, signature: Vec<u8>) -> (r: Self)
        ensures
            r.message == message,
            r.signature == signature,
            r.timestamp is None,
    {
        SignatureContext { message, signature, timestamp: None }
    }

    /// The context with its timestamp set.
    pub fn with_timestamp(self, timestamp: u64) -> (r: Self)
        ensures
            r.message == self.message,
            r.signature == self.signature,
            r.timestamp == Some(timestamp),
    {
        let mut s = self;
        s.timestamp = Some(timestamp);
        s
    }
}

/// Why authentication failed.
#[derive(Debug, Clone, PartialEq, Eq)]
pub enum MonasAuthError {
    /// The key ID has no `:`; it carries the key ID.
    InvalidKeyIdFormat(String),
    /// The type before the `:` is none of `user`, `node`, `service`.
    UnknownIdentityType(String),
    /// Nothing follows the `:`.
    EmptyIdentifier,
    /// The key ID has no `:` (when its key is read).
    MissingColon,
    /// The key part is not hexadecimal.
    InvalidHex,
    /// The key part is not 130 bytes starting with `04`; it carries the
    /// length in bytes.
    NotSelfContained { len: usize },
    /// The request's signature was refused.
    SignatureVerificationFailed(SignatureVerifyError),
    /// The request was signed too long ago.
    RequestExpired,
    /// The request's timestamp lies too far in the future.
    FutureTimestamp,
    /// The token looks like a JWT but could not be read as one.
    JwtParse,
    /// The JWT has expired.
    JwtExpired,
    /// The JWT's signature was refused.
    JwtSignature(WireVerifyError),
}

/// `i` is the position of the first `c` in `s`.
pub open spec fn first_at(s: Seq<char>, c: char, i: int) -> bool {
    0 <= i < s.len() && s[i] == c && forall|k: int| 0 <= k < i ==> s[k] != c
}

/// The text before and after the first `:`, if there is one.
pub open spec fn key_id_parts(s: Seq<char>) -> Option<(Seq<char>, Seq<char>)> {
    if exists|i: int| first_at(s, ':', i) {
        let i = choose|i: int| first_at(s, ':', i);
        Some((s.subrange(0, i), s.subrange(i + 1, s.len() as int)))
    } else {
        None
    }
}

/// The first occurrence is unique.
pub proof fn lemma_first_at_unique(s: Seq<char>, c: char, i: int, j: int)
    requires
        first_at(s, c, i),
        first_at(s, c, j),
    ensures
        i == j,
{
    if i < j {
        assert(s[i] != c);
    } else if j < i {
        assert(s[j] != c);
    }
}

/// The identity type that a name stands for.
pub open spec fn identity_type_named(name: Seq<char>) -> Option<IdentityType> {
    if name == "user"@ {
        Some(IdentityType::User)
    } else if name == "node"@ {
        Some(IdentityType::Node)
    } else if name == "service"@ {
        Some(IdentityType::Service)
    } else {
        None
    }
}

/// Whether `r` is what reading the key ID `s` as `type:id` gives: the
/// first `:` splits it, the type must be known and the id non-empty; the
/// errors come in that order.
pub open spec fn key_id_read(s: Seq<char>, r: Result<(IdentityType, String), MonasAuthError>) -> bool {
    match key_id_parts(s) {
        None => r matches Err(MonasAuthError::InvalidKeyIdFormat(t)) && t@ == s,
        Some((name, id)) => match identity_type_named(name) {
            None => r matches Err(MonasAuthError::UnknownIdentityType(t)) && t@ == name,
            Some(ty) => if id.len() == 0 {
                r == Err::<(IdentityType, String), MonasAuthError>(MonasAuthError::EmptyIdentifier)
            } else {
                r matches Ok((t, i)) && t == ty && i@ == id
            },
        },
    }
}

/// What reading the public key out of a key ID gives: the part after the
/// first `:` must be 130 bytes long, start with `04` and be hexadecimal.
pub open spec fn key_from_key_id(s: Seq<char>) -> Result<Seq<u8>, MonasAuthError> {
    match key_id_parts(s) {
        None => Err(MonasAuthError::MissingColon),
        Some((_, id)) => if vstd::utf8::encode_utf8(id).len() as usize == PUBLIC_KEY_HEX_LEN && has_prefix(
            id,
            "04"@,
        ) {
            match hex_decoded(id) {
                Some(b) => Ok(b),
                None => Err(MonasAuthError::InvalidHex),
            }
        } else {
            Err(MonasAuthError::NotSelfContained { len: vstd::utf8::encode_utf8(id).len() as usize })
        },
    }
}

/// The freshness check of a request signed at `timestamp`, at time `now`:
/// refused when older than `MAX_AGE_SECS` or more than
/// `MAX_CLOCK_SKEW_SECS` ahead.
pub open spec fn freshness_error(timestamp: Option<u64>, now: u64) -> Option<MonasAuthError> {
    match timestamp {
        None => None,
        Some(t) => if now > t + MAX_AGE_SECS {
            Some(MonasAuthError::RequestExpired)
        } else if t > now + MAX_CLOCK_SKEW_SECS {
            Some(MonasAuthError::FutureTimestamp)
        } else {
            None
        },
    }
}

/// For a validly signed request: with a timestamp, it is accepted at
/// `now` exactly within the window (at most `MAX_AGE_SECS` old, at most
/// `MAX_CLOCK_SKEW_SECS` ahead), and one too old is refused as expired.
pub open spec fn freshness_window_outcome(
    r: Result<(), MonasAuthError>,
    timestamp: Option<u64>,
    now: u64,
) -> bool {
    match timestamp {
        Some(t) => {
            &&& (r is Ok <==> (now <= t + MAX_AGE_SECS && t <= now + MAX_CLOCK_SKEW_SECS))
            &&& now > t + MAX_AGE_SECS ==> r == Err::<(), MonasAuthError>(
                MonasAuthError::RequestExpired,
            )
        },
        None => r is Ok,
    }
}

/// Whether a signed request is accepted at `now`: its signature is valid
/// and it passes the freshness check.
pub open spec fn context_accepted_at(key_id: Seq<char>, context: SignatureContext, now: u64) -> bool {
    signed_by_key_id(key_id, context.message@, context.signature@) && freshness_error(
        context.timestamp,
        now,
    ) is None
}

/// Whether `r` is the identity that a valid key ID names: its id and type
/// are those of the key ID, and its key can be read.
pub open spec fn identity_of_key_id(s: Seq<char>, r: Result<Identity, MonasAuthError>) -> bool {
    match key_id_parts(s) {
        Some((name, id)) if identity_type_named(name) is Some && id.len() > 0 => match key_from_key_id(s) {
            Ok(_) => r matches Ok(i) && i.spec_id() == id && i.spec_type() == identity_type_named(name)->0,
            Err(e) => r == Err::<Identity, MonasAuthError>(e),
        },
        _ => r is Err && (r matches Err(e) ==> e is InvalidKeyIdFormat || e is UnknownIdentityType
            || e is EmptyIdentifier),
    }
}

/// Whether `signature` is a valid signature of `message` (as UTF-8) by
/// the key in the key ID.
pub open spec fn signed_by_key_id(key_id: Seq<char>, message: Seq<char>, signature: Seq<u8>) -> bool {
    match key_from_key_id(key_id) {
        Ok(k) => message_check_passes(vstd::utf8::encode_utf8(message), signature, k),
        Err(_) => false,
    }
}

/// Whether a JWT is accepted at `now`: its expiry has not passed and it is
/// signed on the wire by the key in its issuer's key ID.
pub open spec fn jwt_accepted(jwt: Seq<char>, exp: Option<u64>, iss: Seq<char>, now: u64) -> bool {
    !crate::auth_token::expired_at(exp, now) && match key_from_key_id(iss) {
        Ok(k) => wire_check(jwt, k) is Ok,
        Err(_) => false,
    }
}

/// Whether a key ID reads as a known type and a non-empty identifier and
/// carries a readable key.
pub open spec fn key_id_valid(key_id: Seq<char>) -> bool {
    key_from_key_id(key_id) is Ok && match key_id_parts(key_id) {
        Some((name, id)) => identity_type_named(name) is Some && id.len() > 0,
        None => false,
    }
}

/// Authentication of Monas account key IDs, with P-256 signature checks.
#[derive(Debug, Clone, Copy)]
pub struct MonasAccountAdapter;

impl Default for MonasAccountAdapter {
    fn default() -> (r: Self) {
        MonasAccountAdapter
    }
}

impl MonasAccountAdapter {
    /// A new adapter.
    pub fn new() -> (r: Self) {
        MonasAccountAdapter
    }

    /// Splits a key ID at its first `:`.
    fn split_key_id(s: &str) -> (r: Option<(String, String)>)
        ensures
            match key_id_parts(s@) {
                None => r is None,
                Some((a, b)) => r matches Some((x, y)) && x@ == a && y@ == b,
            },
    {
        let n = s.unicode_len();
        match find_char(s, ':') {
            None => {
                proof {
                    assert(!exists|i: int| first_at(s@, ':', i));
                }
                None
            },
            Some(i) => {
                proof {
                    assert(first_at(s@, ':', i as int));
                    let j = choose|j: int| first_at(s@, ':', j);
                    lemma_first_at_unique(s@, ':', i as int, j);
                }
                Some((chars_until(s, i), chars_from(s, i + 1)))
            },
        }
    }

    /// Reads a key ID as an identity type and an identifier.
    pub fn parse_key_id(&self, token: &str) -> (r: Result<(IdentityType, String), MonasAuthError>)
        ensures
            key_id_read(token@, r),
    {
        let (name, id) = match Self::split_key_id(token) {
            None => return Err(MonasAuthError::InvalidKeyIdFormat(to_owned_string(token))),
            Some(p) => p,
        };
        let identity_type = if str_equal(name.as_str(), "user") {
            IdentityType::User
        } else if str_equal(name.as_str(), "node") {
            IdentityType::Node
        } else if str_equal(name.as_str(), "service") {
            IdentityType::Service
        } else {
            return Err(MonasAuthError::UnknownIdentityType(name));
        };
        if id.as_str().is_empty() {
            return Err(MonasAuthError::EmptyIdentifier);
        }
        Ok((identity_type, id))
    }

    /// Reads the public key out of a self-contained key ID.
    pub fn extract_public_key_from_key_id(key_id: &str) -> (r: Result<Vec<u8>, MonasAuthError>)
        ensures
            match key_from_key_id(key_id@) {
                Ok(b) => r matches Ok(v) && v@ == b,
                Err(e) => r == Err::<Vec<u8>, MonasAuthError>(e),
            },
    {
        let (_, id) = match Self::split_key_id(key_id) {
            None => return Err(MonasAuthError::MissingColon),
            Some(p) => p,
        };
        let len = id.as_str().len();
        if len == PUBLIC_KEY_HEX_LEN && starts_with(id.as_str(), "04") {
            match hex_decode(id.as_str()) {
                Some(b) => Ok(b),
                None => Err(MonasAuthError::InvalidHex),
            }
        } else {
            Err(MonasAuthError::NotSelfContained { len })
        }
    }

    /// The identity that a key ID names, once its key has been checked.
    pub fn identity_from_key_id(&self, key_id: &str) -> (r: Result<Identity, MonasAuthError>)
        ensures
            identity_of_key_id(key_id@, r),
    {
        let (identity_type, id) = match self.parse_key_id(key_id) {
            Err(e) => return Err(e),
            Ok(p) => p,
        };
        match Self::extract_public_key_from_key_id(key_id) {
            Err(e) => return Err(e),
            Ok(_) => {},
        }
        match Identity::new(id, identity_type) {
            Ok(i) => Ok(i),
            Err(_) => Err(MonasAuthError::EmptyIdentifier),
        }
    }

    /// Refuses a request signed too long ago or too far ahead of `now`.
    pub fn check_freshness(timestamp: Option<u64>, now: u64) -> (r: Result<(), MonasAuthError>)
        ensures
            match freshness_error(timestamp, now) {
                None => r is Ok,
                Some(e) => r == Err::<(), MonasAuthError>(e),
            },
    {
        match timestamp {
            None => Ok(()),
            Some(t) => {
                if now >= MAX_AGE_SECS && now - MAX_AGE_SECS > t {
                    return Err(MonasAuthError::RequestExpired);
                }
                if t >= MAX_CLOCK_SKEW_SECS && t - MAX_CLOCK_SKEW_SECS > now {
                    return Err(MonasAuthError::FutureTimestamp);
                }
                Ok(())
            },
        }
    }

    /// Checks a signed request against the key in a key ID at time `now`:
    /// the key is read, the signature checked, then the timestamp.
    pub fn verify_signature_with_context_at(
        &self,
        key_id: &str,
        context: &SignatureContext,
        now: u64,
    ) -> (r: Result<(), MonasAuthError>)
        ensures
            r is Ok <==> (signed_by_key_id(key_id@, context.message@, context.signature@)
                && freshness_error(context.timestamp, now) is None),
            signed_by_key_id(key_id@, context.message@, context.signature@) ==> freshness_window_outcome(
                r,
                context.timestamp,
                now,
            ),
            r matches Err(e) ==> match key_from_key_id(key_id@) {
                Err(ke) => e == ke,
                Ok(k) => if message_check_passes(
                    vstd::utf8::encode_utf8(context.message@),
                    context.signature@,
                    k,
                ) {
                    freshness_error(context.timestamp, now) == Some(e)
                } else {
                    e is SignatureVerificationFailed
                },
            },
    {
        let public_key = match Self::extract_public_key_from_key_id(key_id) {
            Err(e) => return Err(e),
            Ok(k) => k,
        };
        match SignatureVerifier::verify_request_signature(
            context.message.as_str().as_bytes(),
            context.signature.as_slice(),
            public_key.as_slice(),
        ) {
            Err(e) => return Err(MonasAuthError::SignatureVerificationFailed(e)),
            Ok(()) => {},
        }
        Self::check_freshness(context.timestamp, now)
    }

    /// Checks a signed request against the key in a key ID, at the time of
    /// the system clock: the outcome is that of
    /// [`MonasAccountAdapter::verify_signature_with_context_at`] at the time
    /// read. Whatever the clock reads: a key ID whose key cannot be read, or
    /// a signature that does not verify, is refused with that error; a
    /// request without a timestamp is accepted exactly when its signature
    /// is valid.
    pub fn verify_signature_with_context(&self, key_id: &str, context: &SignatureContext) -> (r:
        Result<(), MonasAuthError>)
        ensures
            r is Ok ==> signed_by_key_id(key_id@, context.message@, context.signature@),
            context.timestamp is None ==> (r is Ok <==> signed_by_key_id(
                key_id@,
                context.message@,
                context.signature@,
            )),
            exists|now: u64| (r is Ok) == #[trigger] context_accepted_at(key_id@, *context, now),
            key_from_key_id(key_id@) matches Err(ke) ==> r == Err::<(), MonasAuthError>(ke),
            (key_from_key_id(key_id@) is Ok && !signed_by_key_id(
                key_id@,
                context.message@,
                context.signature@,
            )) ==> r matches Err(MonasAuthError::SignatureVerificationFailed(_)),
    {
        let now = current_timestamp();
        let r = self.verify_signature_with_context_at(key_id, context, now);
        assert((r is Ok) == context_accepted_at(key_id@, *context, now));
        r
    }

    /// Authenticates a token: a key ID names the identity directly; a JWT
    /// (a token with a `.`) names it by its audience, read from the parsed
    /// token `parsed_jwt` (`None` when the JWT could not be read).
    pub fn authenticate(&self, token: &str, parsed_jwt: Option<&AuthToken>) -> (r: Result<
        Identity,
        MonasAuthError,
    >)
        ensures
            !token@.contains('.') ==> identity_of_key_id(token@, r),
            token@.contains('.') ==> match parsed_jwt {
                None => r == Err::<Identity, MonasAuthError>(MonasAuthError::JwtParse),
                Some(t) => identity_of_key_id(t.payload.aud@, r),
            },
    {
        if find_char(token, '.').is_some() {
            match parsed_jwt {
                None => Err(MonasAuthError::JwtParse),
                Some(t) => self.identity_from_key_id(t.payload.aud.as_str()),
            }
        } else {
            proof {
                assert(!token@.contains('.'));
            }
            self.identity_from_key_id(token)
        }
    }

    /// Checks a JWT at time `now`: not expired, and signed on the wire by
    /// the key in its issuer's key ID. `parsed` is the token read from
    /// `jwt`.
    pub fn verify_jwt_signature_at(&self, jwt: &str, parsed: &AuthToken, now: u64) -> (r: Result<
        (),
        MonasAuthError,
    >)
        ensures
            r is Ok <==> jwt_accepted(jwt@, parsed.payload.exp, parsed.payload.iss@, now),
            crate::auth_token::expired_at(parsed.payload.exp, now) ==> r == Err::<(), MonasAuthError>(
                MonasAuthError::JwtExpired,
            ),
    {
        if parsed.is_expired_at(now) {
            return Err(MonasAuthError::JwtExpired);
        }
        let public_key = match Self::extract_public_key_from_key_id(parsed.payload.iss.as_str()) {
            Err(e) => return Err(e),
            Ok(k) => k,
        };
        match SignatureVerifier::verify_jwt_signature_wire(jwt, public_key.as_slice()) {
            Ok(()) => Ok(()),
            Err(e) => Err(MonasAuthError::JwtSignature(e)),
        }
    }

    /// Whether a token is valid at time `now`: a JWT passes
    /// `verify_jwt_signature_at`; a key ID can be read as a type and an
    /// identifier and carries a readable key.
    pub fn is_valid_at(&self, token: &str, parsed_jwt: Option<&AuthToken>, now: u64) -> (r: bool)
        ensures
            token@.contains('.') ==> (r <==> match parsed_jwt {
                Some(t) => jwt_accepted(token@, t.payload.exp, t.payload.iss@, now),
                None => false,
            }),
            !token@.contains('.') ==> (r <==> key_id_valid(token@)),
    {
        if find_char(token, '.').is_some() {
            match parsed_jwt {
                None => false,
                Some(t) => self.verify_jwt_signature_at(token, t, now).is_ok(),
            }
        } else {
            proof {
                assert(!token@.contains('.'));
            }
            match Self::extract_public_key_from_key_id(token) {
                Err(_) => false,
                Ok(_) => self.parse_key_id(token).is_ok(),
            }
        }
    }

    /// Checks a request signed for a token at time `now`: the signing key
    /// is that of the token's key ID, or, for a JWT, of its audience.
    pub fn verify_request_signature_at(
        &self,
        token: &str,
        parsed_jwt: Option<&AuthToken>,
        signature: &[u8],
        message: &str,
        timestamp: Option<u64>,
        now: u64,
    ) -> (r: Result<(), MonasAuthError>)
        ensures
            ({
                let key_id = if token@.contains('.') {
                    match parsed_jwt {
                        Some(t) => Some(t.payload.aud@),
                        None => None,
                    }
                } else {
                    Some(token@)
                };
                match key_id {
                    None => r == Err::<(), MonasAuthError>(MonasAuthError::JwtParse),
                    Some(kid) => r is Ok <==> (signed_by_key_id(kid, message@, signature@)
                        && freshness_error(timestamp, now) is None),
                }
            }),
    {
        let key_id = if find_char(token, '.').is_some() {
            match parsed_jwt {
                None => return Err(MonasAuthError::JwtParse),
                Some(t) => to_owned_string(t.payload.aud.as_str()),
            }
        } else {
            proof {
                assert(!token@.contains('.'));
            }
            to_owned_string(token)
        };
        let mut sig: Vec<u8> = Vec::new();
        crate::encoding::append_bytes(&mut sig, signature);
        let context = SignatureContext::new(to_owned_string(message), sig);
        let context = match timestamp {
            Some(ts) => context.with_timestamp(ts),
            None => context,
        };
        self.verify_signature_with_context_at(key_id.as_str(), &context, now)
    }

    /// The issuer of a token: for a JWT, the identity its issuer key ID
    /// names; otherwise the identity the token authenticates as.
    pub fn get_issuer(&self, token: &str, parsed_jwt: Option<&AuthToken>) -> (r: Result<
        Option<Identity>,
        MonasAuthError,
    >)
        ensures
            token@.contains('.') ==> match parsed_jwt {
                None => r == Err::<Option<Identity>, MonasAuthError>(MonasAuthError::JwtParse),
                Some(t) => match r {
                    Ok(Some(i)) => identity_of_key_id(t.payload.iss@, Ok(i)),
                    Ok(None) => false,
                    Err(e) => identity_of_key_id(t.payload.iss@, Err(e)),
                },
            },
            !token@.contains('.') ==> match r {
                Ok(Some(i)) => identity_of_key_id(token@, Ok(i)),
                Ok(None) => false,
                Err(e) => identity_of_key_id(token@, Err(e)),
            },
    {
        if find_char(token, '.').is_some() {
            match parsed_jwt {
                None => Err(MonasAuthError::JwtParse),
                Some(t) => match self.identity_from_key_id(t.payload.iss.as_str()) {
                    Ok(i) => Ok(Some(i)),
                    Err(e) => Err(e),
                },
            }
        } else {
            proof {
                assert(!token@.contains('.'));
            }
            match self.authenticate(token, None) {
                Ok(i) => Ok(Some(i)),
                Err(e) => Err(e),
            }
        }
    }
}

/// The message of an authentication error.
pub open spec fn auth_error_text(e: MonasAuthError) -> Seq<char> {
    match e {
        MonasAuthError::InvalidKeyIdFormat(t) => "Invalid key ID format: expected 'type:id', got '"@ + t@
            + "'"@,
        MonasAuthError::UnknownIdentityType(t) => "Unknown identity type: "@ + t@,
        MonasAuthError::EmptyIdentifier => "Identity identifier cannot be empty"@,
        MonasAuthError::MissingColon => "Invalid key ID format: missing ':'"@,
        MonasAuthError::InvalidHex => "Invalid hex in key ID"@,
        MonasAuthError::NotSelfContained { len } =>
            "Key ID is not self-contained: expected 130-char hex starting with '04', got "@
            + decimal_chars(len as nat) + " chars"@,
        MonasAuthError::SignatureVerificationFailed(_) => "Signature verification failed"@,
        MonasAuthError::RequestExpired => "Authentication request expired (timestamp too old)"@,
        MonasAuthError::FutureTimestamp => "Invalid timestamp (too far in the future)"@,
        MonasAuthError::JwtParse => "Failed to parse JWT token"@,
        MonasAuthError::JwtExpired => "JWT token has expired"@,
        MonasAuthError::JwtSignature(_) => "JWT signature verification failed"@,
    }
}

impl MonasAuthError {
    /// The error's message.
    pub fn message(&self) -> (r: String)
        ensures
            r@ == auth_error_text(*self),
    {
        match self {
            MonasAuthError::InvalidKeyIdFormat(t) => {
                let a = concat("Invalid key ID format: expected 'type:id', got '", t.as_str());
                concat(a.as_str(), "'")
            },
            MonasAuthError::UnknownIdentityType(t) => concat("Unknown identity type: ", t.as_str()),
            MonasAuthError::EmptyIdentifier => to_owned_string("Identity identifier cannot be empty"),
            MonasAuthError::MissingColon => to_owned_string("Invalid key ID format: missing ':'"),
            MonasAuthError::InvalidHex => to_owned_string("Invalid hex in key ID"),
            MonasAuthError::NotSelfContained { len } => {
                let n = decimal_string(*len as u64);
                let a = concat(
                    "Key ID is not self-contained: expected 130-char hex starting with '04', got ",
                    n.as_str(),
                );
                concat(a.as_str(), " chars")
            },
            MonasAuthError::SignatureVerificationFailed(_) => to_owned_string("Signature verification failed"),
            MonasAuthError::RequestExpired => to_owned_string(
                "Authentication request expired (timestamp too old)",
            ),
            MonasAuthError::FutureTimestamp => to_owned_string("Invalid timestamp (too far in the future)"),
            MonasAuthError::JwtParse => to_owned_string("Failed to parse JWT token"),
            MonasAuthError::JwtExpired => to_owned_string("JWT token has expired"),
            MonasAuthError::JwtSignature(_) => to_owned_string("JWT signature verification failed"),
        }
    }
}

/// A signed request is accepted in time exactly when it was signed at
/// most `MAX_AGE_SECS` before `now` and at most `MAX_CLOCK_SKEW_SECS`
/// after it.
pub proof fn law_freshness_window(t: u64, now: u64)
    ensures
        freshness_error(Some(t), now) is None <==> (now <= t + MAX_AGE_SECS && t <= now
            + MAX_CLOCK_SKEW_SECS),
{
}

/// An identity authenticated from a key ID is the key itself: its
/// identifier is the 130-byte hex key starting with `04`, which decodes
/// to the public key.
pub proof fn law_authenticated_identity_is_key(key_id: Seq<char>, i: Identity)
    requires
        identity_of_key_id(key_id, Ok(i)),
    ensures
        vstd::utf8::encode_utf8(i.spec_id()).len() as usize == PUBLIC_KEY_HEX_LEN,
        has_prefix(i.spec_id(), "04"@),
        key_from_key_id(key_id) matches Ok(k) && hex_decoded(i.spec_id()) == Some(k),
{
}

} // verus!
