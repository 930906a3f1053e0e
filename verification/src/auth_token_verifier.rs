//! Verification of auth tokens by a state node: algorithm, signature,
//! expiry, invalidation cutoff, audience and capability.
use vstd::prelude::*;
use crate::access_control::{AccessControlView, ContentAccessControl};
use crate::auth_token::{
    content_resource, content_resource_for, content_resource_prefix, expired_at, same_payload, grants, resource_content_id, AuthToken,
    AuthTokenParseError, AuthTokenPayload, CapabilityAction, Capability,
};
use crate::crypto::{digest_check_passes, verify_p256_signature, check_error_matches, SignatureVerifyError};
use crate::events::current_timestamp;
use crate::text::{has_prefix, str_equal, to_owned_string};

verus! {

/// The longest lifetime a token may have: 24 hours.
pub const MAX_TTL_SECS: u64 = 86400;

/// Why a token was refused.
#[derive(Debug, Clone, PartialEq, Eq)]
pub enum AuthTokenVerifyError {
    ParseError(AuthTokenParseError),
    SignatureError(SignatureVerifyError),
    Expired,
    MissingExpiration,
    ExpirationTooFar,
    Invalidated,
    AudienceMismatch { expected: String, actual: String },
    InsufficientCapability { required: CapabilityAction, resource: String },
    ContentIdMismatch { expected: String, actual: String },
    UnsupportedAlgorithm(String),
    IssuerPublicKeyNotFound,
}

/// What a successful verification establishes.
#[derive(Debug, Clone)]
pub struct VerifiedToken {
    /// The verified token's payload
    pub payload: AuthTokenPayload,
    /// The issuer's key ID
    pub issuer: String,
    /// The audience's key ID
    pub audience: String,
    /// The content ID from the capability
    pub content_id: String,
    /// The granted action
    pub action: CapabilityAction,
}

/// The checks of a verification, in the order they are made.
pub enum VerifyCheck {
    Algorithm,
    Signature,
    ExpirationPresent,
    ExpirationWithinTtl,
    NotExpired,
    NotInvalidated,
    Audience,
    Capability,
    CapabilityContent,
}

/// The content ID named by the first capability that names one.
pub open spec fn first_content_id(att: Seq<Capability>) -> Option<Seq<char>>
    decreases att.len(),
{
    if att.len() == 0 {
        None
    } else {
        match resource_content_id(att[0].with@) {
            Some(c) => Some(c),
            None => first_content_id(att.drop_first()),
        }
    }
}

/// The state of an optional access control.
pub open spec fn ac_view(a: Option<&ContentAccessControl>) -> Option<AccessControlView> {
    match a {
        Some(x) => Some(x@),
        None => None,
    }
}

/// The first check that fails, or `None` when the token is accepted.
pub open spec fn first_failed_check(
    token: AuthToken,
    signing_input: Seq<u8>,
    issuer_public_key: Seq<u8>,
    expected_audience: Seq<char>,
    content_id: Seq<char>,
    action: CapabilityAction,
    access_control: Option<AccessControlView>,
    now: u64,
) -> Option<VerifyCheck> {
    let p = token.payload;
    if token.header.alg@ != "ES256"@ {
        Some(VerifyCheck::Algorithm)
    } else if !digest_check_passes(signing_input, token.signature@, issuer_public_key) {
        Some(VerifyCheck::Signature)
    } else if p.exp is None {
        Some(VerifyCheck::ExpirationPresent)
    } else if p.exp.unwrap() > p.iat + MAX_TTL_SECS {
        Some(VerifyCheck::ExpirationWithinTtl)
    } else if expired_at(p.exp, now) {
        Some(VerifyCheck::NotExpired)
    } else if access_control matches Some(ac) && p.iat < ac.min_valid_issued_at {
        Some(VerifyCheck::NotInvalidated)
    } else if p.aud@ != expected_audience {
        Some(VerifyCheck::Audience)
    } else if !grants(p.att@, content_resource(content_id), action) {
        Some(VerifyCheck::Capability)
    } else if first_content_id(p.att@) != Some(content_id) {
        Some(VerifyCheck::CapabilityContent)
    } else {
        None
    }
}

/// The error that a failed check reports.
pub open spec fn reports(
    e: AuthTokenVerifyError,
    check: VerifyCheck,
    token: AuthToken,
    issuer_public_key: Seq<u8>,
    expected_audience: Seq<char>,
    content_id: Seq<char>,
    action: CapabilityAction,
) -> bool {
    match check {
        VerifyCheck::Algorithm => e matches AuthTokenVerifyError::UnsupportedAlgorithm(a) && a@
            == token.header.alg@,
        VerifyCheck::Signature => e matches AuthTokenVerifyError::SignatureError(s)
            && check_error_matches(s, token.signature@, issuer_public_key),
        VerifyCheck::ExpirationPresent => e == AuthTokenVerifyError::MissingExpiration,
        VerifyCheck::ExpirationWithinTtl => e == AuthTokenVerifyError::ExpirationTooFar,
        VerifyCheck::NotExpired => e == AuthTokenVerifyError::Expired,
        VerifyCheck::NotInvalidated => e == AuthTokenVerifyError::Invalidated,
        VerifyCheck::Audience => e matches AuthTokenVerifyError::AudienceMismatch {
            expected,
            actual,
        } && expected@ == expected_audience && actual@ == token.payload.aud@,
        VerifyCheck::Capability => e matches AuthTokenVerifyError::InsufficientCapability {
            required,
            resource,
        } && required == action && resource@ == content_resource(content_id),
        VerifyCheck::CapabilityContent => e matches AuthTokenVerifyError::ContentIdMismatch {
            expected,
            actual,
        } && expected@ == content_id && actual@ == (match first_content_id(token.payload.att@) {
            Some(c) => c,
            None => "none"@,
        }),
    }
}

/// The content ID of the first capability that names one.
fn find_capability_content_id(att: &Vec<Capability>) -> (r: Option<String>)
    ensures
        r is None <==> first_content_id(att@) is None,
        r matches Some(c) ==> first_content_id(att@) == Some(c@),
{
    let mut i: usize = 0;
    assert(att@.subrange(0, att@.len() as int) =~= att@);
    while i < att.len()
        invariant
            i <= att@.len(),
            first_content_id(att@) == first_content_id(att@.subrange(i as int, att@.len() as int)),
        decreases att@.len() - i,
    {
        let ghost rest = att@.subrange(i as int, att@.len() as int);
        match att[i].content_id() {
            Some(c) => {
                assert(rest[0] == att@[i as int]);
                return Some(c);
            },
            None => {
                assert(rest.drop_first() =~= att@.subrange(i + 1, att@.len() as int));
            },
        }
        i = i + 1;
    }
    assert(att@.subrange(i as int, att@.len() as int) =~= Seq::<Capability>::empty());
    None
}

/// A copy of an optional byte-free value.
fn copy_option_u64(o: Option<u64>) -> (r: Option<u64>)
    ensures
        r == o,
{
    o
}

/// A state node's token verifier.
pub struct AuthTokenVerifier;

impl AuthTokenVerifier {
    /// Verifies a token at time `now` for accessing `content_id` with
    /// `required_action`.
    ///
    /// `signing_input` is the bytes the signature covers, as received;
    /// `issuer_public_key` is the issuer's SEC1 P-256 key; the optional
    /// access control supplies the invalidation cutoff.
    pub fn verify_at(
        token: &AuthToken,
        signing_input: &[u8],
        issuer_public_key: &[u8],
        expected_audience: &str,
        content_id: &str,
        required_action: CapabilityAction,
        access_control: Option<&ContentAccessControl>,
        now: u64,
    ) -> (r: Result<VerifiedToken, AuthTokenVerifyError>)
        ensures
            ({
                let ac = match access_control {
                    Some(a) => Some(a@),
                    None => None,
                };
                let failed = first_failed_check(
                    *token,
                    signing_input@,
                    issuer_public_key@,
                    expected_audience@,
                    content_id@,
                    required_action,
                    ac,
                    now,
                );
                &&& r is Ok <==> failed is None
                &&& r matches Err(e) ==> reports(
                    e,
                    failed.unwrap(),
                    *token,
                    issuer_public_key@,
                    expected_audience@,
                    content_id@,
                    required_action,
                )
                &&& r matches Ok(v) ==> {
                    &&& same_payload(v.payload, token.payload)
                    &&& v.issuer@ == token.payload.iss@
                    &&& v.audience@ == token.payload.aud@
                    &&& v.content_id@ == content_id@
                    &&& v.action == required_action
                }
            }),
    {
        // 1. Only ES256 is supported.
        if !str_equal(token.header.alg.as_str(), "ES256") {
            return Err(AuthTokenVerifyError::UnsupportedAlgorithm(token.header.alg.clone()));
        }
        // 2. Signature over the received bytes.
        match verify_p256_signature(signing_input, token.signature.as_slice(), issuer_public_key) {
            Err(e) => return Err(AuthTokenVerifyError::SignatureError(e)),
            Ok(()) => {},
        }
        // 3. An expiry is required, at most 24 hours after issue.
        let exp = match copy_option_u64(token.payload.exp) {
            Some(e) => e,
            None => return Err(AuthTokenVerifyError::MissingExpiration),
        };
        let iat = token.payload.iat;
        if exp >= iat && exp - iat > MAX_TTL_SECS {
            return Err(AuthTokenVerifyError::ExpirationTooFar);
        }
        // 4. Not expired.
        if token.is_expired_at(now) {
            return Err(AuthTokenVerifyError::Expired);
        }
        // 5. Not issued before the invalidation cutoff.
        match access_control {
            Some(ac) => {
                if !ac.is_token_valid(iat) {
                    return Err(AuthTokenVerifyError::Invalidated);
                }
            },
            None => {},
        }
        // 6. Addressed to the expected audience.
        if !str_equal(token.payload.aud.as_str(), expected_audience) {
            return Err(
                AuthTokenVerifyError::AudienceMismatch {
                    expected: to_owned_string(expected_audience),
                    actual: token.payload.aud.clone(),
                },
            );
        }
        // 7. Grants the action on the content.
        let resource = content_resource_for(content_id);
        if !token.has_capability(resource.as_str(), &required_action) {
            return Err(
                AuthTokenVerifyError::InsufficientCapability { required: required_action, resource },
            );
        }
        // 8. The first capability names the same content.
        match find_capability_content_id(&token.payload.att) {
            None => {
                proof {
                    reveal_strlit("none");
                }
                return Err(
                    AuthTokenVerifyError::ContentIdMismatch {
                        expected: to_owned_string(content_id),
                        actual: to_owned_string("none"),
                    },
                );
            },
            Some(c) => {
                if !str_equal(c.as_str(), content_id) {
                    return Err(
                        AuthTokenVerifyError::ContentIdMismatch {
                            expected: to_owned_string(content_id),
                            actual: c,
                        },
                    );
                }
            },
        }
        Ok(
            VerifiedToken {
                payload: token.payload.duplicate(),
                issuer: token.payload.iss.clone(),
                audience: token.payload.aud.clone(),
                content_id: to_owned_string(content_id),
                action: required_action,
            },
        )
    }

    /// Verifies a token by the system clock: the outcome is that of
    /// [`AuthTokenVerifier::verify_at`] at the time read.
    pub fn verify(
        token: &AuthToken,
        signing_input: &[u8],
        issuer_public_key: &[u8],
        expected_audience: &str,
        content_id: &str,
        required_action: CapabilityAction,
        access_control: Option<&ContentAccessControl>,
    ) -> (r: Result<VerifiedToken, AuthTokenVerifyError>)
        ensures
            exists|now: u64|
                {
                    let failed = #[trigger] first_failed_check(
                        *token,
                        signing_input@,
                        issuer_public_key@,
                        expected_audience@,
                        content_id@,
                        required_action,
                        ac_view(access_control),
                        now,
                    );
                    &&& r is Ok <==> failed is None
                    &&& r matches Err(e) ==> reports(
                        e,
                        failed.unwrap(),
                        *token,
                        issuer_public_key@,
                        expected_audience@,
                        content_id@,
                        required_action,
                    )
                },
    {
        let now = current_timestamp();
        let r = Self::verify_at(
            token,
            signing_input,
            issuer_public_key,
            expected_audience,
            content_id,
            required_action,
            access_control,
            now,
        );
        r
    }

    /// Checks only the algorithm and the signature of a token.
    pub fn verify_signature_only(token: AuthToken, signing_input: &[u8], issuer_public_key: &[u8]) -> (r:
        Result<AuthToken, AuthTokenVerifyError>)
        ensures
            r is Ok <==> (token.header.alg@ == "ES256"@ && digest_check_passes(
                signing_input@,
                token.signature@,
                issuer_public_key@,
            )),
            r matches Ok(t) ==> t == token,
            r matches Err(e) ==> (token.header.alg@ != "ES256"@ && reports(
                e,
                VerifyCheck::Algorithm,
                token,
                issuer_public_key@,
                ""@,
                ""@,
                CapabilityAction::Read,
            )) || (token.header.alg@ == "ES256"@ && reports(
                e,
                VerifyCheck::Signature,
                token,
                issuer_public_key@,
                ""@,
                ""@,
                CapabilityAction::Read,
            )),
    {
        if !str_equal(token.header.alg.as_str(), "ES256") {
            return Err(AuthTokenVerifyError::UnsupportedAlgorithm(token.header.alg.clone()));
        }
        match verify_p256_signature(signing_input, token.signature.as_slice(), issuer_public_key) {
            Err(e) => Err(AuthTokenVerifyError::SignatureError(e)),
            Ok(()) => Ok(token),
        }
    }
}

/// An accepted token was well signed, is within its lifetime at the time
/// of the check, was issued no earlier than the cutoff, is addressed to the
/// expected audience and grants the action on the content.
pub proof fn law_accepted_token_properties(
    token: AuthToken,
    signing_input: Seq<u8>,
    issuer_public_key: Seq<u8>,
    expected_audience: Seq<char>,
    content_id: Seq<char>,
    action: CapabilityAction,
    access_control: Option<AccessControlView>,
    now: u64,
)
    requires
        first_failed_check(
            token,
            signing_input,
            issuer_public_key,
            expected_audience,
            content_id,
            action,
            access_control,
            now,
        ) is None,
    ensures
        digest_check_passes(signing_input, token.signature@, issuer_public_key),
        token.payload.exp matches Some(e) && now < e && e <= token.payload.iat + MAX_TTL_SECS,
        access_control matches Some(ac) ==> token.payload.iat >= ac.min_valid_issued_at,
        token.payload.aud@ == expected_audience,
        grants(token.payload.att@, content_resource(content_id), action),
{
}

/// The first capability of a token that names any content names the
/// content it is checked for.
pub proof fn lemma_first_content_id_position(att: Seq<Capability>, content_id: Seq<char>)
    requires
        first_content_id(att) == Some(content_id),
    ensures
        exists|i: int|
            0 <= i < att.len() && (#[trigger] att[i]).with@ == content_resource(content_id) && forall|
                j: int,
            |
                0 <= j < i ==> !has_prefix((#[trigger] att[j]).with@, content_resource_prefix()),
    decreases att.len(),
{
    let w = att[0].with@;
    let plen = content_resource_prefix().len() as int;
    if has_prefix(w, content_resource_prefix()) {
        assert(w =~= content_resource_prefix() + w.subrange(plen, w.len() as int));
        assert(att[0].with@ == content_resource(content_id));
    } else {
        let rest = att.drop_first();
        lemma_first_content_id_position(rest, content_id);
        let i = choose|i: int|
            0 <= i < rest.len() && (#[trigger] rest[i]).with@ == content_resource(content_id) && forall|
                j: int,
            |
                0 <= j < i ==> !has_prefix((#[trigger] rest[j]).with@, content_resource_prefix());
        assert(att[i + 1] == rest[i]);
        assert forall|j: int| 0 <= j < i + 1 implies !has_prefix(
            (#[trigger] att[j]).with@,
            content_resource_prefix(),
        ) by {
            if j > 0 {
                assert(att[j] == rest[j - 1]);
            }
        }
    }
}

/// An accepted token names the content it is checked for in the first of
/// its capabilities that names a content at all: a token whose first
/// content is another one is refused, even if a later capability grants
/// the action on the requested content.
pub proof fn law_accepted_token_names_the_content(
    token: AuthToken,
    signing_input: Seq<u8>,
    issuer_public_key: Seq<u8>,
    expected_audience: Seq<char>,
    content_id: Seq<char>,
    action: CapabilityAction,
    access_control: Option<AccessControlView>,
    now: u64,
)
    requires
        first_failed_check(
            token,
            signing_input,
            issuer_public_key,
            expected_audience,
            content_id,
            action,
            access_control,
            now,
        ) is None,
    ensures
        exists|i: int|
            0 <= i < token.payload.att@.len() && (#[trigger] token.payload.att@[i]).with@
                == "monas://content/"@ + content_id && forall|j: int|
                0 <= j < i ==> !has_prefix(
                    (#[trigger] token.payload.att@[j]).with@,
                    "monas://content/"@,
                ),
        token.payload.exp matches Some(e) && e - token.payload.iat <= 86400,
{
    lemma_first_content_id_position(token.payload.att@, content_id);
}

/// A token that grants an action also grants every action that action
/// satisfies (a Write grant is good for a Read).
pub proof fn law_grant_covers_weaker_actions(
    att: Seq<Capability>,
    resource: Seq<char>,
    a: CapabilityAction,
    b: CapabilityAction,
)
    requires
        grants(att, resource, a),
        crate::auth_token::spec_satisfies(a, b),
    ensures
        grants(att, resource, b),
{
    let i = choose|i: int|
        0 <= i < att.len() && #[trigger] att[i].with@ == resource
            && crate::auth_token::spec_satisfies(att[i].can, a);
    assert(crate::auth_token::spec_satisfies(att[i].can, b));
}

/// Raising the cutoff above a token's issue time revokes it: verification
/// fails, at the latest at the invalidation check.
pub proof fn law_cutoff_revokes(
    token: AuthToken,
    signing_input: Seq<u8>,
    issuer_public_key: Seq<u8>,
    expected_audience: Seq<char>,
    content_id: Seq<char>,
    action: CapabilityAction,
    ac: AccessControlView,
    now: u64,
)
    requires
        token.payload.iat < ac.min_valid_issued_at,
    ensures
        first_failed_check(
            token,
            signing_input,
            issuer_public_key,
            expected_audience,
            content_id,
            action,
            Some(ac),
            now,
        ) is Some,
{
}

} // verus!
