//! Authorization of access to a content: the owner always has access;
//! anyone else needs a token that the owner issued to them, that is still
//! valid, and that grants the capability asked for.
use crate::access_policy::AccessPolicy;
use crate::auth_capability::AuthCapability;
use crate::auth_token::{
    content_resource, expired_at, grants, spec_from_auth_capability, AuthToken, CapabilityAction,
};
use crate::auth_token_verifier::MAX_TTL_SECS;
use crate::encoding::{hex_decode, hex_decoded};
use crate::events::current_timestamp;
use crate::identity::{Identity, IdentityType};
use crate::monas_account::key_id_parts;
use crate::signature_verifier::{wire_check, SignatureVerifier, WireVerifyError};
use crate::text::{
    chars_from, concat, contains_str, decimal_chars, decimal_string, find_char, has_prefix,
    has_substring, split_chars, split_str, starts_with, str_equal, string_views, to_owned_string,
};
use vstd::prelude::*;

verus! {

broadcast use vstd::seq_lib::group_seq_properties;

/// A request to act on a content.
#[derive(Debug, Clone)]
pub struct AuthorizationRequest {
    /// Who asks.
    pub identity: Identity,
    /// The content id.
    pub resource: String,
    /// What is asked for.
    pub capability: AuthCapability,
    /// The raw token presented, if any.
    pub token: Option<String>,
    /// The signature of the request, if any.
    pub request_signature: Option<Vec<u8>>,
}

/// The answer to an authorization request.
#[derive(Debug, Clone, PartialEq, Eq)]
pub enum AuthorizationResult {
    Granted,
    Denied { reason: String },
}

/// Why a delegated token was refused.
#[derive(Debug, Clone, PartialEq, Eq)]
pub enum UcanAuthError {
    /// The token has expired.
    Expired,
    /// The token lives longer than allowed; it carries the lifetime.
    TtlTooLong { lifetime: u64 },
    /// The token was issued before the content's cutoff.
    Invalidated { iat: u64, min_valid_issued_at: u64 },
    /// The token was not issued to the requester.
    AudienceMismatch { expected: String, got: String },
    /// The token was not issued by the owner.
    IssuerMismatch { expected: String, got: String },
    /// The issuer's key ID carries no public key.
    NoPublicKey { key_id: String },
    /// The token's signature was refused.
    Signature(WireVerifyError),
    /// The request carries no signature.
    RequestSignatureRequired,
    /// The token does not grant the capability asked for.
    InsufficientCapability,
}

/// The checks of a delegated token, in the order they are made.
pub enum UcanCheck {
    NotExpired,
    Ttl,
    NotInvalidated,
    Audience,
    Issuer,
    PublicKey,
    Signature,
    RequestSigned,
    Capability,
}

/// The name of an identity type in key IDs.
pub open spec fn identity_type_label(t: IdentityType) -> Seq<char> {
    match t {
        IdentityType::User => "user"@,
        IdentityType::Node => "node"@,
        IdentityType::Service => "service"@,
    }
}

/// The key ID of an identity: `type:id`.
pub open spec fn identity_key_id(i: Identity) -> Seq<char> {
    identity_type_label(i.spec_type()) + ":"@ + i.spec_id()
}

/// The key part of a key ID: after `monas:type:` or after `type:`.
pub open spec fn key_part(s: Seq<char>) -> Option<Seq<char>> {
    let rest = if has_prefix(s, "monas:"@) {
        key_id_parts(s.subrange(6, s.len() as int))
    } else {
        key_id_parts(s)
    };
    match rest {
        Some((_, b)) => Some(b),
        None => None,
    }
}

/// The public key embedded in a key ID, if it carries one: its key part
/// is 130 bytes of hex starting with `04`.
pub open spec fn embedded_public_key(s: Seq<char>) -> Option<Seq<u8>> {
    match key_part(s) {
        None => None,
        Some(id) => if vstd::utf8::encode_utf8(id).len() as usize == 130 && has_prefix(id, "04"@) {
            hex_decoded(id)
        } else {
            None
        },
    }
}

/// The lifetime of a token: from issue to expiry, zero if it expires
/// before it is issued.
pub open spec fn token_lifetime(exp: u64, iat: u64) -> u64 {
    if exp >= iat {
        (exp - iat) as u64
    } else {
        0
    }
}

/// The first check that a delegated token fails for a request, or `None`
/// when it is accepted.
pub open spec fn first_failed_ucan_check(
    token_str: Seq<char>,
    token: AuthToken,
    request: AuthorizationRequest,
    min_valid_issued_at: u64,
    owner: Identity,
    now: u64,
) -> Option<UcanCheck> {
    let p = token.payload;
    if expired_at(p.exp, now) {
        Some(UcanCheck::NotExpired)
    } else if p.exp matches Some(e) && token_lifetime(e, p.iat) > MAX_TTL_SECS {
        Some(UcanCheck::Ttl)
    } else if p.iat < min_valid_issued_at {
        Some(UcanCheck::NotInvalidated)
    } else if p.aud@ != identity_key_id(request.identity) {
        Some(UcanCheck::Audience)
    } else if p.iss@ != identity_key_id(owner) {
        Some(UcanCheck::Issuer)
    } else if embedded_public_key(p.iss@) is None {
        Some(UcanCheck::PublicKey)
    } else if wire_check(token_str, embedded_public_key(p.iss@)->0) is Err {
        Some(UcanCheck::Signature)
    } else if request.request_signature is None {
        Some(UcanCheck::RequestSigned)
    } else if !grants(
        p.att@,
        content_resource(request.resource@),
        spec_from_auth_capability(request.capability),
    ) {
        Some(UcanCheck::Capability)
    } else {
        None
    }
}

/// Whether an error is the one that a failed check reports.
pub open spec fn ucan_reports(e: UcanAuthError, check: UcanCheck, token: AuthToken, request: AuthorizationRequest, min_valid_issued_at: u64, owner: Identity) -> bool {
    match check {
        UcanCheck::NotExpired => e == UcanAuthError::Expired,
        UcanCheck::Ttl => e matches UcanAuthError::TtlTooLong { lifetime } && token.payload.exp
            matches Some(x) && lifetime == token_lifetime(x, token.payload.iat),
        UcanCheck::NotInvalidated => e == (UcanAuthError::Invalidated {
            iat: token.payload.iat,
            min_valid_issued_at,
        }),
        UcanCheck::Audience => e matches UcanAuthError::AudienceMismatch { expected, got }
            && expected@ == identity_key_id(request.identity) && got@ == token.payload.aud@,
        UcanCheck::Issuer => e matches UcanAuthError::IssuerMismatch { expected, got }
            && expected@ == identity_key_id(owner) && got@ == token.payload.iss@,
        UcanCheck::PublicKey => e matches UcanAuthError::NoPublicKey { key_id } && key_id@
            == token.payload.iss@,
        UcanCheck::Signature => e is Signature,
        UcanCheck::RequestSigned => e == UcanAuthError::RequestSignatureRequired,
        UcanCheck::Capability => e == UcanAuthError::InsufficientCapability,
    }
}

/// The reason given when a delegated token is refused.
pub open spec fn denial_reason(e: UcanAuthError) -> Seq<char> {
    "AuthToken verification failed: "@ + ucan_error_text(e)
}

/// The message of a token refusal.
pub open spec fn ucan_error_text(e: UcanAuthError) -> Seq<char> {
    match e {
        UcanAuthError::Expired => "AuthToken has expired"@,
        UcanAuthError::TtlTooLong { lifetime } => "AuthToken TTL too long: "@ + decimal_chars(
            lifetime as nat,
        ) + " secs (max 86400)"@,
        UcanAuthError::Invalidated { iat, min_valid_issued_at } => "AuthToken invalidated: iat "@
            + decimal_chars(iat as nat) + " < min_valid_issued_at "@ + decimal_chars(
            min_valid_issued_at as nat,
        ),
        UcanAuthError::AudienceMismatch { expected, got } => "AuthToken audience mismatch: expected "@
            + expected@ + ", got "@ + got@,
        UcanAuthError::IssuerMismatch { expected, got } => "AuthToken issuer mismatch: expected owner "@
            + expected@ + ", got "@ + got@,
        UcanAuthError::NoPublicKey { key_id } => "Cannot extract public key from key ID '"@ + key_id@
            + "': expected format 'type:{130-hex-char-public-key}'"@,
        UcanAuthError::Signature(_) => "AuthToken signature verification failed"@,
        UcanAuthError::RequestSignatureRequired => "Request signature is required for AuthToken-based authorization"@,
        UcanAuthError::InsufficientCapability => "AuthToken does not grant required capability"@,
    }
}

/// What authorizing a request gives, once the content's policy has been
/// looked up and the presented token read.
pub open spec fn authorization_outcome(
    request: AuthorizationRequest,
    policy: Option<crate::access_policy::AccessPolicyView>,
    parsed_token: Option<AuthToken>,
    now: u64,
    r: AuthorizationResult,
) -> bool {
    match policy {
        None => r matches AuthorizationResult::Denied { reason } && reason@
            == "No access policy found for resource"@,
        Some(p) => if p.owner.same(&request.identity) {
            r == AuthorizationResult::Granted
        } else {
            match request.token {
                None => r matches AuthorizationResult::Denied { reason } && reason@
                    == "Non-owner access requires an AuthToken"@,
                Some(raw) => match parsed_token {
                    None => r matches AuthorizationResult::Denied { reason } && reason@
                        == "AuthToken verification failed: Failed to parse AuthToken"@,
                    Some(t) => match first_failed_ucan_check(
                        raw@,
                        t,
                        request,
                        p.min_valid_issued_at,
                        p.owner,
                        now,
                    ) {
                        None => r == AuthorizationResult::Granted,
                        Some(c) => r matches AuthorizationResult::Denied { reason } && exists|
                            e: UcanAuthError,
                        |
                            ucan_reports(e, c, t, request, p.min_valid_issued_at, p.owner)
                                && reason@ == #[trigger] denial_reason(e),
                    },
                },
            }
        },
    }
}

/// An opaque UCAN token (delegation chains are not supported yet).
#[derive(Debug, Clone)]
pub struct UcanToken {
    raw: String,
}

impl UcanToken {
    /// The token's text.
    pub closed spec fn text(&self) -> Seq<char> {
        self.raw@
    }
}

/// Why a UCAN token was refused.
#[derive(Debug, Clone, PartialEq, Eq)]
pub enum UcanParseError {
    Empty,
    InvalidFormat { parts: usize },
    EmptyPart { index: usize },
    VerificationNotImplemented,
}

/// The UCAN ability that a capability maps to.
pub open spec fn ucan_ability(c: AuthCapability) -> Seq<char> {
    match c {
        AuthCapability::ReadContent => "content/read"@,
        AuthCapability::WriteContent => "content/write"@,
        AuthCapability::DeleteContent => "content/delete"@,
        AuthCapability::ManageMembers => "content/manage"@,
        AuthCapability::ShareContent => "content/share"@,
        AuthCapability::RevokeAccess => "content/revoke"@,
        AuthCapability::ReadMetadata => "content/read-metadata"@,
    }
}

/// Authorization of content access by owner or delegated token.
#[derive(Debug, Clone, Copy)]
pub struct UcanAdapter;

impl UcanAdapter {
    /// A new adapter.
    pub fn new() -> (r: Self) {
        UcanAdapter
    }

    /// The key ID of an identity: `type:id`.
    pub fn identity_to_key_id(identity: &Identity) -> (r: String)
        ensures
            r@ == identity_key_id(*identity),
    {
        let name = match identity.identity_type() {
            IdentityType::User => "user",
            IdentityType::Node => "node",
            IdentityType::Service => "service",
        };
        let with_colon = concat(name, ":");
        concat(with_colon.as_str(), identity.id())
    }

    /// The public key embedded in a key ID (`monas:type:key` or
    /// `type:key`), if it carries one.
    pub fn extract_public_key_from_key_id(key_id: &str) -> (r: Option<Vec<u8>>)
        ensures
            match embedded_public_key(key_id@) {
                None => r is None,
                Some(k) => r matches Some(v) && v@ == k,
            },
    {
        let rest = if starts_with(key_id, "monas:") {
            proof {
                reveal_strlit("monas:");
            }
            let tail = chars_from(key_id, 6);
            split_at_first_colon(tail.as_str())
        } else {
            split_at_first_colon(key_id)
        };
        let id_part = match rest {
            None => return None,
            Some(b) => b,
        };
        if id_part.as_str().len() == 130 && starts_with(id_part.as_str(), "04") {
            hex_decode(id_part.as_str())
        } else {
            None
        }
    }

    /// The UCAN ability that a capability maps to.
    pub fn map_capability_to_ucan(cap: &AuthCapability) -> (r: &'static str)
        ensures
            r@ == ucan_ability(*cap),
    {
        match cap {
            AuthCapability::ReadContent => "content/read",
            AuthCapability::WriteContent => "content/write",
            AuthCapability::DeleteContent => "content/delete",
            AuthCapability::ManageMembers => "content/manage",
            AuthCapability::ShareContent => "content/share",
            AuthCapability::RevokeAccess => "content/revoke",
            AuthCapability::ReadMetadata => "content/read-metadata",
        }
    }

    /// Reads a UCAN token: three non-empty `.`-separated parts.
    pub fn parse_ucan(&self, token: &str) -> (r: Result<UcanToken, UcanParseError>)
        ensures
            match ucan_parse_error(token@) {
                Some(e) => r == Err::<UcanToken, UcanParseError>(e),
                None => r matches Ok(u) && u.text() == token@,
            },
            token@.len() == 0 ==> r == Err::<UcanToken, UcanParseError>(UcanParseError::Empty),
            token@.len() > 0 && split_chars(token@, '.').len() != 3 ==> r == Err::<
                UcanToken,
                UcanParseError,
            >(UcanParseError::InvalidFormat { parts: split_chars(token@, '.').len() as usize }),
            r is Ok <==> (token@.len() > 0 && split_chars(token@, '.').len() == 3 && forall|i: int|
                0 <= i < 3 ==> (#[trigger] split_chars(token@, '.')[i]).len() > 0),
            r matches Ok(u) ==> u.text() == token@,
    {
        if token.is_empty() {
            return Err(UcanParseError::Empty);
        }
        let parts = split_str(token, '.');
        proof {
            assert(string_views(parts@).len() == parts@.len());
        }
        if parts.len() != 3 {
            return Err(UcanParseError::InvalidFormat { parts: parts.len() });
        }
        let mut i: usize = 0;
        while i < 3
            invariant
                i <= 3,
                token@.len() > 0,
                parts@.len() == 3,
                string_views(parts@) == split_chars(token@, '.'),
                forall|k: int| 0 <= k < i ==> (#[trigger] split_chars(token@, '.')[k]).len() > 0,
            decreases 3 - i,
        {
            proof {
                assert(string_views(parts@)[i as int] == parts@[i as int]@);
            }
            if parts[i].as_str().is_empty() {
                return Err(UcanParseError::EmptyPart { index: i });
            }
            i = i + 1;
        }
        Ok(UcanToken { raw: to_owned_string(token) })
    }

    /// Verifies a UCAN token. Delegation chains are not supported, so
    /// every token is refused.
    pub fn verify_ucan(&self, ucan: &UcanToken) -> (r: Result<(), UcanParseError>)
        ensures
            r == Err::<(), UcanParseError>(UcanParseError::VerificationNotImplemented),
    {
        Err(UcanParseError::VerificationNotImplemented)
    }

    /// Whether the raw UCAN text names `resource:ability` for the
    /// capability.
    pub fn check_ucan_capability(&self, ucan: &UcanToken, resource: &str, capability: &AuthCapability) -> (r: bool)
        ensures
            r == has_substring(ucan.text(), resource@ + ":"@ + ucan_ability(*capability)),
    {
        let ability = Self::map_capability_to_ucan(capability);
        let with_colon = concat(resource, ":");
        let expected = concat(with_colon.as_str(), ability);
        contains_str(ucan.raw.as_str(), expected.as_str())
    }

    /// Verifies a delegated token for a request at time `now`, against the
    /// content's cutoff and owner. `token_str` is the token as received;
    /// `token` is what it reads as. The checks come in the order of
    /// `first_failed_ucan_check`.
    pub fn verify_auth_token_at(
        &self,
        token_str: &str,
        token: &AuthToken,
        request: &AuthorizationRequest,
        min_valid_issued_at: u64,
        owner_identity: &Identity,
        now: u64,
    ) -> (r: Result<(), UcanAuthError>)
        ensures
            r is Ok <==> first_failed_ucan_check(
                token_str@,
                *token,
                *request,
                min_valid_issued_at,
                *owner_identity,
                now,
            ) is None,
            r matches Err(e) ==> first_failed_ucan_check(
                token_str@,
                *token,
                *request,
                min_valid_issued_at,
                *owner_identity,
                now,
            ) matches Some(c) && ucan_reports(e, c, *token, *request, min_valid_issued_at, *owner_identity),
    {
        let p = &token.payload;
        if token.is_expired_at(now) {
            return Err(UcanAuthError::Expired);
        }
        match p.exp {
            Some(exp) => {
                let lifetime = exp.saturating_sub(p.iat);
                if lifetime > MAX_TTL_SECS {
                    return Err(UcanAuthError::TtlTooLong { lifetime });
                }
            },
            None => {},
        }
        if p.iat < min_valid_issued_at {
            return Err(UcanAuthError::Invalidated { iat: p.iat, min_valid_issued_at });
        }
        let requester_key_id = Self::identity_to_key_id(&request.identity);
        if !str_equal(p.aud.as_str(), requester_key_id.as_str()) {
            return Err(UcanAuthError::AudienceMismatch { expected: requester_key_id, got: to_owned_string(p.aud.as_str()) });
        }
        let owner_key_id = Self::identity_to_key_id(owner_identity);
        if !str_equal(p.iss.as_str(), owner_key_id.as_str()) {
            return Err(UcanAuthError::IssuerMismatch { expected: owner_key_id, got: to_owned_string(p.iss.as_str()) });
        }
        let owner_public_key = match Self::extract_public_key_from_key_id(p.iss.as_str()) {
            None => return Err(UcanAuthError::NoPublicKey { key_id: to_owned_string(p.iss.as_str()) }),
            Some(k) => k,
        };
        match SignatureVerifier::verify_jwt_signature_wire(token_str, owner_public_key.as_slice()) {
            Err(e) => return Err(UcanAuthError::Signature(e)),
            Ok(()) => {},
        }
        if request.request_signature.is_none() {
            return Err(UcanAuthError::RequestSignatureRequired);
        }
        let required_action = CapabilityAction::from_auth_capability(&request.capability);
        let resource_uri = crate::auth_token::content_resource_for(request.resource.as_str());
        if !token.has_capability(resource_uri.as_str(), &required_action) {
            return Err(UcanAuthError::InsufficientCapability);
        }
        Ok(())
    }

    /// Authorizes a request at time `now`, given the content's policy as
    /// looked up (`None` when there is none) and the presented token as
    /// read (`None` when it could not be read): see
    /// `authorization_outcome`.
    pub fn authorize_at(
        &self,
        request: &AuthorizationRequest,
        policy: Option<&AccessPolicy>,
        parsed_token: Option<&AuthToken>,
        now: u64,
    ) -> (r: AuthorizationResult)
        ensures
            authorization_outcome(
                *request,
                match policy {
                    Some(p) => Some(p@),
                    None => None,
                },
                match parsed_token {
                    Some(t) => Some(*t),
                    None => None,
                },
                now,
                r,
            ),
    {
        let policy = match policy {
            None => return AuthorizationResult::Denied {
                reason: to_owned_string("No access policy found for resource"),
            },
            Some(p) => p,
        };
        if policy.is_owner(&request.identity) {
            return AuthorizationResult::Granted;
        }
        let raw = match &request.token {
            None => return AuthorizationResult::Denied {
                reason: to_owned_string("Non-owner access requires an AuthToken"),
            },
            Some(t) => t,
        };
        let token = match parsed_token {
            None => return AuthorizationResult::Denied {
                reason: to_owned_string("AuthToken verification failed: Failed to parse AuthToken"),
            },
            Some(t) => t,
        };
        match self.verify_auth_token_at(
            raw.as_str(),
            token,
            request,
            policy.min_valid_issued_at(),
            policy.owner(),
            now,
        ) {
            Ok(()) => AuthorizationResult::Granted,
            Err(e) => {
                let m = e.message();
                let reason = concat("AuthToken verification failed: ", m.as_str());
                proof {
                    assert(reason@ == denial_reason(e));
                }
                AuthorizationResult::Denied { reason }
            },
        }
    }
}

/// The view of an optional policy.
pub open spec fn policy_view(policy: Option<&AccessPolicy>) -> Option<crate::access_policy::AccessPolicyView> {
    match policy {
        Some(p) => Some(p@),
        None => None,
    }
}

/// The value of an optional token.
pub open spec fn token_value(token: Option<&AuthToken>) -> Option<AuthToken> {
    match token {
        Some(t) => Some(*t),
        None => None,
    }
}

/// Why a text is not a UCAN token, if it is not: it is empty, or it does
/// not have three `.`-separated parts, or the first empty part.
pub open spec fn ucan_parse_error(t: Seq<char>) -> Option<UcanParseError> {
    let parts = split_chars(t, '.');
    if t.len() == 0 {
        Some(UcanParseError::Empty)
    } else if parts.len() != 3 {
        Some(UcanParseError::InvalidFormat { parts: parts.len() as usize })
    } else if parts[0].len() == 0 {
        Some(UcanParseError::EmptyPart { index: 0 })
    } else if parts[1].len() == 0 {
        Some(UcanParseError::EmptyPart { index: 1 })
    } else if parts[2].len() == 0 {
        Some(UcanParseError::EmptyPart { index: 2 })
    } else {
        None
    }
}

/// The message of a key ID that carries no public key.
pub open spec fn no_public_key_message(key_id: Seq<char>) -> Seq<char> {
    "Cannot extract public key from key ID '"@ + key_id
        + "': expected format 'type:{130-hex-char-public-key}'"@
}

impl UcanAdapter {
    /// The public key embedded in a key ID, or the error that names the
    /// expected form.
    pub fn get_public_key_from_key_id(key_id: &str) -> (r: Result<Vec<u8>, String>)
        ensures
            match embedded_public_key(key_id@) {
                None => r matches Err(m) && m@ == no_public_key_message(key_id@),
                Some(k) => r matches Ok(v) && v@ == k,
            },
    {
        match Self::extract_public_key_from_key_id(key_id) {
            Some(k) => Ok(k),
            None => {
                let a = concat("Cannot extract public key from key ID '", key_id);
                Err(concat(a.as_str(), "': expected format 'type:{130-hex-char-public-key}'"))
            },
        }
    }

    /// Checks a request against a UCAN token: the token is read, then its
    /// chain verified, then its capability checked. Chains are not
    /// verified yet, so a token that reads is refused at the second step.
    pub fn check_ucan_authorization(&self, token: &str, request: &AuthorizationRequest) -> (r:
        Result<bool, UcanParseError>)
        ensures
            match ucan_parse_error(token@) {
                Some(e) => r == Err::<bool, UcanParseError>(e),
                None => r == Err::<bool, UcanParseError>(UcanParseError::VerificationNotImplemented),
            },
    {
        let ucan = match self.parse_ucan(token) {
            Ok(u) => u,
            Err(e) => return Err(e),
        };
        match self.verify_ucan(&ucan) {
            Err(e) => Err(e),
            Ok(()) => Ok(self.check_ucan_capability(&ucan, request.resource.as_str(), &request.capability)),
        }
    }

    /// Verifies a delegated token by the system clock: the outcome is that
    /// of [`UcanAdapter::verify_auth_token_at`] at the time read.
    pub fn verify_auth_token(
        &self,
        token_str: &str,
        token: &AuthToken,
        request: &AuthorizationRequest,
        min_valid_issued_at: u64,
        owner_identity: &Identity,
    ) -> (r: Result<(), UcanAuthError>)
        ensures
            exists|now: u64|
                {
                    let failed = #[trigger] first_failed_ucan_check(
                        token_str@,
                        *token,
                        *request,
                        min_valid_issued_at,
                        *owner_identity,
                        now,
                    );
                    &&& r is Ok <==> failed is None
                    &&& r matches Err(e) ==> failed matches Some(c) && ucan_reports(
                        e,
                        c,
                        *token,
                        *request,
                        min_valid_issued_at,
                        *owner_identity,
                    )
                },
    {
        let now = current_timestamp();
        self.verify_auth_token_at(token_str, token, request, min_valid_issued_at, owner_identity, now)
    }

    /// Authorizes a request by the system clock: the outcome is that of
    /// [`UcanAdapter::authorize_at`] at the time read.
    pub fn authorize(
        &self,
        request: &AuthorizationRequest,
        policy: Option<&AccessPolicy>,
        parsed_token: Option<&AuthToken>,
    ) -> (r: AuthorizationResult)
        ensures
            exists|now: u64|
                #[trigger] authorization_outcome(
                    *request,
                    policy_view(policy),
                    token_value(parsed_token),
                    now,
                    r,
                ),
    {
        let now = current_timestamp();
        self.authorize_at(request, policy, parsed_token, now)
    }
}

/// The text after the first `:`, if there is one.
fn split_at_first_colon(s: &str) -> (r: Option<String>)
    ensures
        match key_id_parts(s@) {
            None => r is None,
            Some((_, b)) => r matches Some(x) && x@ == b,
        },
{
    let n = s.unicode_len();
    match find_char(s, ':') {
        None => {
            proof {
                assert(!exists|i: int| crate::monas_account::first_at(s@, ':', i));
            }
            None
        },
        Some(i) => {
            proof {
                assert(crate::monas_account::first_at(s@, ':', i as int));
                let j = choose|j: int| crate::monas_account::first_at(s@, ':', j);
                crate::monas_account::lemma_first_at_unique(s@, ':', i as int, j);
            }
            Some(chars_from(s, i + 1))
        },
    }
}

impl UcanAuthError {
    /// The error's message.
    pub fn message(&self) -> (r: String)
        ensures
            r@ == ucan_error_text(*self),
    {
        match self {
            UcanAuthError::Expired => to_owned_string("AuthToken has expired"),
            UcanAuthError::TtlTooLong { lifetime } => {
                let n = decimal_string(*lifetime);
                let a = concat("AuthToken TTL too long: ", n.as_str());
                concat(a.as_str(), " secs (max 86400)")
            },
            UcanAuthError::Invalidated { iat, min_valid_issued_at } => {
                let i = decimal_string(*iat);
                let m = decimal_string(*min_valid_issued_at);
                let a = concat("AuthToken invalidated: iat ", i.as_str());
                let b = concat(a.as_str(), " < min_valid_issued_at ");
                concat(b.as_str(), m.as_str())
            },
            UcanAuthError::AudienceMismatch { expected, got } => {
                let a = concat("AuthToken audience mismatch: expected ", expected.as_str());
                let b = concat(a.as_str(), ", got ");
                concat(b.as_str(), got.as_str())
            },
            UcanAuthError::IssuerMismatch { expected, got } => {
                let a = concat("AuthToken issuer mismatch: expected owner ", expected.as_str());
                let b = concat(a.as_str(), ", got ");
                concat(b.as_str(), got.as_str())
            },
            UcanAuthError::NoPublicKey { key_id } => {
                let a = concat("Cannot extract public key from key ID '", key_id.as_str());
                concat(a.as_str(), "': expected format 'type:{130-hex-char-public-key}'")
            },
            UcanAuthError::Signature(_) => to_owned_string("AuthToken signature verification failed"),
            UcanAuthError::RequestSignatureRequired => to_owned_string(
                "Request signature is required for AuthToken-based authorization",
            ),
            UcanAuthError::InsufficientCapability => to_owned_string(
                "AuthToken does not grant required capability",
            ),
        }
    }
}

/// The owner of a content is always granted access, whatever else the
/// request carries.
pub proof fn law_owner_always_granted(
    request: AuthorizationRequest,
    policy: crate::access_policy::AccessPolicyView,
    parsed_token: Option<AuthToken>,
    now: u64,
    r: AuthorizationResult,
)
    requires
        policy.owner.same(&request.identity),
        authorization_outcome(request, Some(policy), parsed_token, now, r),
    ensures
        r == AuthorizationResult::Granted,
{
}

/// Anyone else is granted access only with a token that the owner issued
/// to them, that is neither expired nor cut off, that the owner's key
/// signed, for a signed request, and that grants what was asked for.
pub proof fn law_delegate_granted_only_with_valid_token(
    request: AuthorizationRequest,
    policy: crate::access_policy::AccessPolicyView,
    parsed_token: Option<AuthToken>,
    now: u64,
)
    requires
        !policy.owner.same(&request.identity),
        authorization_outcome(request, Some(policy), parsed_token, now, AuthorizationResult::Granted),
    ensures
        request.token is Some,
        request.request_signature is Some,
        parsed_token matches Some(t) && {
            &&& !expired_at(t.payload.exp, now)
            &&& t.payload.iat >= policy.min_valid_issued_at
            &&& t.payload.aud@ == identity_key_id(request.identity)
            &&& t.payload.iss@ == identity_key_id(policy.owner)
            &&& embedded_public_key(t.payload.iss@) matches Some(k) && wire_check(
                request.token->0@,
                k,
            ) is Ok
            &&& grants(
                t.payload.att@,
                content_resource(request.resource@),
                spec_from_auth_capability(request.capability),
            )
        },
{
}

/// A delegated token is accepted only within its lifetime at the time of
/// the check, and only if that lifetime (from issue to expiry) is at most
/// a day.
pub proof fn law_accepted_delegation_within_a_day(
    token_str: Seq<char>,
    token: AuthToken,
    request: AuthorizationRequest,
    min_valid_issued_at: u64,
    owner: Identity,
    now: u64,
)
    requires
        first_failed_ucan_check(token_str, token, request, min_valid_issued_at, owner, now) is None,
    ensures
        token.payload.exp matches Some(e) ==> now < e && e <= token.payload.iat + 86400,
        token.payload.iat >= min_valid_issued_at,
{
}

/// Anyone but the owner is granted access only with a token whose lifetime
/// is at most a day.
pub proof fn law_delegate_grant_within_a_day(
    request: AuthorizationRequest,
    policy: crate::access_policy::AccessPolicyView,
    parsed_token: Option<AuthToken>,
    now: u64,
)
    requires
        !policy.owner.same(&request.identity),
        authorization_outcome(request, Some(policy), parsed_token, now, AuthorizationResult::Granted),
    ensures
        parsed_token matches Some(t) && (t.payload.exp matches Some(e) ==> e <= t.payload.iat
            + 86400),
{
}

} // verus!
