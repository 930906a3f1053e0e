//! Auth tokens: JWT-framed, P-256 signed delegations of capabilities on
//! content.
use vstd::prelude::*;
use crate::auth_capability::{AuthCapability, spec_implies};
use crate::encoding::{base64url_decode, base64url_decoded, base64url_encode, base64url_encoded};
use crate::events::current_timestamp;
use crate::text::{
    concat, has_prefix, lemma_split_join, lemma_split_no_separator, split_chars, split_str, str_equal, strip_prefix,
    string_views, to_owned_string,
};

verus! {

broadcast use vstd::seq_lib::group_seq_properties;

/// Action kinds that a token can grant.
#[derive(Debug, Clone, Copy, PartialEq, Eq, Hash, Structural)]
pub enum CapabilityAction {
    Read,
    Write,
    Delete,
    Share,
    Revoke,
    Reencrypt,
}

/// The action that stands for a domain capability.
pub open spec fn spec_from_auth_capability(c: AuthCapability) -> CapabilityAction {
    match c {
        AuthCapability::ReadContent => CapabilityAction::Read,
        AuthCapability::ReadMetadata => CapabilityAction::Read,
        AuthCapability::WriteContent => CapabilityAction::Write,
        AuthCapability::DeleteContent => CapabilityAction::Delete,
        AuthCapability::ShareContent => CapabilityAction::Share,
        AuthCapability::RevokeAccess => CapabilityAction::Revoke,
        AuthCapability::ManageMembers => CapabilityAction::Share,
    }
}

/// The domain capability that an action stands for.
pub open spec fn spec_to_auth_capability(a: CapabilityAction) -> AuthCapability {
    match a {
        CapabilityAction::Read => AuthCapability::ReadContent,
        CapabilityAction::Write => AuthCapability::WriteContent,
        CapabilityAction::Delete => AuthCapability::DeleteContent,
        CapabilityAction::Share => AuthCapability::ShareContent,
        CapabilityAction::Revoke => AuthCapability::RevokeAccess,
        CapabilityAction::Reencrypt => AuthCapability::ManageMembers,
    }
}

/// The action hierarchy: Delete satisfies Write and Read; Write, Share and
/// Revoke satisfy Read; Revoke satisfies Share; every action satisfies
/// itself.
pub open spec fn spec_satisfies(a: CapabilityAction, b: CapabilityAction) -> bool {
    a == b || match (a, b) {
        (CapabilityAction::Write, CapabilityAction::Read) => true,
        (CapabilityAction::Delete, CapabilityAction::Write) => true,
        (CapabilityAction::Delete, CapabilityAction::Read) => true,
        (CapabilityAction::Share, CapabilityAction::Read) => true,
        (CapabilityAction::Revoke, CapabilityAction::Share) => true,
        (CapabilityAction::Revoke, CapabilityAction::Read) => true,
        _ => false,
    }
}

impl CapabilityAction {
    /// The action for a domain capability (metadata reads are reads;
    /// managing members counts as sharing).
    pub fn from_auth_capability(cap: &AuthCapability) -> (r: Self)
        ensures
            r == spec_from_auth_capability(*cap),
    {
        match cap {
            AuthCapability::ReadContent | AuthCapability::ReadMetadata => CapabilityAction::Read,
            AuthCapability::WriteContent => CapabilityAction::Write,
            AuthCapability::DeleteContent => CapabilityAction::Delete,
            AuthCapability::ShareContent => CapabilityAction::Share,
            AuthCapability::RevokeAccess => CapabilityAction::Revoke,
            AuthCapability::ManageMembers => CapabilityAction::Share,
        }
    }

    /// The domain capability for this action.
    pub fn to_auth_capability(&self) -> (r: AuthCapability)
        ensures
            r == spec_to_auth_capability(*self),
    {
        match self {
            CapabilityAction::Read => AuthCapability::ReadContent,
            CapabilityAction::Write => AuthCapability::WriteContent,
            CapabilityAction::Delete => AuthCapability::DeleteContent,
            CapabilityAction::Share => AuthCapability::ShareContent,
            CapabilityAction::Revoke => AuthCapability::RevokeAccess,
            CapabilityAction::Reencrypt => AuthCapability::ManageMembers,
        }
    }

    /// Whether this action satisfies the required one.
    pub fn satisfies(&self, required: &CapabilityAction) -> (r: bool)
        ensures
            r == spec_satisfies(*self, *required),
    {
        match (self, required) {
            (CapabilityAction::Write, CapabilityAction::Read) => true,
            (CapabilityAction::Delete, CapabilityAction::Write) => true,
            (CapabilityAction::Delete, CapabilityAction::Read) => true,
            (CapabilityAction::Share, CapabilityAction::Read) => true,
            (CapabilityAction::Revoke, CapabilityAction::Share) => true,
            (CapabilityAction::Revoke, CapabilityAction::Read) => true,
            (a, b) => *a == *b,
        }
    }
}

/// The token hierarchy agrees with the domain hierarchy: an action
/// satisfies another exactly when its capability implies the other's.
pub proof fn law_satisfies_matches_implies(a: CapabilityAction, b: CapabilityAction)
    ensures
        spec_satisfies(a, b) <==> spec_implies(spec_to_auth_capability(a), spec_to_auth_capability(b)),
{
}

/// Converting an action to a capability and back gives the action, except
/// for Reencrypt, which comes back as Share.
pub proof fn law_action_round_trip(a: CapabilityAction)
    ensures
        a != CapabilityAction::Reencrypt ==> spec_from_auth_capability(spec_to_auth_capability(a))
            == a,
        a == CapabilityAction::Reencrypt ==> spec_from_auth_capability(spec_to_auth_capability(a))
            == CapabilityAction::Share,
{
}

/// Converting a capability to an action and back gives the capability,
/// except for ReadMetadata and ManageMembers, which have no action of
/// their own.
pub proof fn law_capability_round_trip(c: AuthCapability)
    ensures
        c != AuthCapability::ReadMetadata && c != AuthCapability::ManageMembers
            ==> spec_to_auth_capability(spec_from_auth_capability(c)) == c,
{
}

/// The resource prefix of content capabilities.
pub open spec fn content_resource_prefix() -> Seq<char> {
    "monas://content/"@
}

/// The resource that names a content: `monas://content/{id}`.
pub open spec fn content_resource(content_id: Seq<char>) -> Seq<char> {
    content_resource_prefix() + content_id
}

/// The content that a resource names, if it names one.
pub open spec fn resource_content_id(resource: Seq<char>) -> Option<Seq<char>> {
    if has_prefix(resource, content_resource_prefix()) {
        Some(resource.subrange(content_resource_prefix().len() as int, resource.len() as int))
    } else {
        None
    }
}

/// The resource string for a content.
pub fn content_resource_for(content_id: &str) -> (r: String)
    ensures
        r@ == content_resource(content_id@),
{
    concat("monas://content/", content_id)
}

/// A single granted capability: an action on a resource.
#[derive(Debug, Clone, PartialEq, Eq)]
pub struct Capability {
    /// Resource: "monas://content/{id}"
    pub with: String,
    /// Action
    pub can: CapabilityAction,
}

impl Capability {
    /// A copy of this capability.
    pub fn duplicate(&self) -> (r: Capability)
        ensures
            r == *self,
    {
        Capability { with: self.with.clone(), can: self.can }
    }

    /// The content ID that the resource names, if it names one.
    pub fn content_id(&self) -> (r: Option<String>)
        ensures
            r is None <==> resource_content_id(self.with@) is None,
            r matches Some(c) ==> resource_content_id(self.with@) == Some(c@),
    {
        proof {
            reveal_strlit("monas://content/");
        }
        strip_prefix(self.with.as_str(), "monas://content/")
    }
}

/// Token header.
#[derive(Debug, Clone, PartialEq, Eq)]
pub struct AuthTokenHeader {
    /// Algorithm: "ES256" (P256 only)
    pub alg: String,
    /// Type: "JWT"
    pub token_type: String,
    /// Version: "1.0"
    pub ver: String,
}

impl Default for AuthTokenHeader {
    fn default() -> (r: Self)
        ensures
            r.alg@ == "ES256"@,
            r.token_type@ == "JWT"@,
            r.ver@ == "1.0"@,
    {
        AuthTokenHeader {
            alg: to_owned_string("ES256"),
            token_type: to_owned_string("JWT"),
            ver: to_owned_string("1.0"),
        }
    }
}

/// Token payload.
#[derive(Debug, Clone, PartialEq, Eq)]
pub struct AuthTokenPayload {
    /// Issuer key ID
    pub iss: String,
    /// Audience key ID
    pub aud: String,
    /// Expiration (Unix seconds), if any
    pub exp: Option<u64>,
    /// Issued at (Unix seconds)
    pub iat: u64,
    /// Token ID
    pub jti: String,
    /// Granted capabilities
    pub att: Vec<Capability>,
    /// Facts, as JSON text, if any
    pub fct: Option<String>,
}

/// Two payloads with the same claims.
pub open spec fn same_payload(a: AuthTokenPayload, b: AuthTokenPayload) -> bool {
    &&& a.iss == b.iss
    &&& a.aud == b.aud
    &&& a.exp == b.exp
    &&& a.iat == b.iat
    &&& a.jti == b.jti
    &&& a.att@ == b.att@
    &&& a.fct == b.fct
}

impl AuthTokenPayload {
    /// A copy of this payload.
    pub fn duplicate(&self) -> (r: AuthTokenPayload)
        ensures
            same_payload(r, *self),
    {
        let mut att: Vec<Capability> = Vec::new();
        let mut i: usize = 0;
        while i < self.att.len()
            invariant
                i <= self.att@.len(),
                att@ == self.att@.subrange(0, i as int),
            decreases self.att@.len() - i,
        {
            att.push(self.att[i].duplicate());
            assert(self.att@.subrange(0, i + 1) =~= self.att@.subrange(0, i as int).push(
                self.att@[i as int],
            ));
            i = i + 1;
        }
        assert(self.att@.subrange(0, i as int) =~= self.att@);
        let fct = match &self.fct {
            Some(f) => Some(f.clone()),
            None => None,
        };
        AuthTokenPayload {
            iss: self.iss.clone(),
            aud: self.aud.clone(),
            exp: self.exp,
            iat: self.iat,
            jti: self.jti.clone(),
            att,
            fct,
        }
    }
}

/// Whether a capability list grants `action` (or one that satisfies it) on
/// `resource`.
pub open spec fn grants(att: Seq<Capability>, resource: Seq<char>, action: CapabilityAction) -> bool {
    exists|i: int|
        0 <= i < att.len() && #[trigger] att[i].with@ == resource && spec_satisfies(
            att[i].can,
            action,
        )
}

/// Whether a token with this expiry has expired at `now`.
pub open spec fn expired_at(exp: Option<u64>, now: u64) -> bool {
    match exp {
        Some(e) => now >= e,
        None => false,
    }
}

/// A token: header, payload and signature bytes.
#[derive(Debug, Clone)]
pub struct AuthToken {
    pub header: AuthTokenHeader,
    pub payload: AuthTokenPayload,
    pub signature: Vec<u8>,
}

/// Why a token could not be read.
#[derive(Debug, Clone, PartialEq, Eq)]
pub enum AuthTokenParseError {
    /// The JWT does not have exactly three `.`-separated parts.
    InvalidFormat { parts: usize },
    /// The header part is not URL-safe base64.
    HeaderDecode,
    /// The payload part is not URL-safe base64.
    PayloadDecode,
    /// The signature part is not URL-safe base64.
    SignatureDecode,
    /// The header or the payload is not the expected JSON.
    InvalidJson(String),
    /// The algorithm is not ES256.
    UnsupportedAlgorithm(String),
}

/// Errors of token checks.
#[derive(Debug, Clone, PartialEq, Eq)]
pub enum AuthTokenError {
    InvalidFormat(String),
    SignatureVerificationFailed(String),
    Expired { exp: u64, now: u64 },
    Invalidated { iat: u64, min_valid: u64 },
    AudienceMismatch { expected: String, got: String },
    InsufficientCapability { required: CapabilityAction, granted: Vec<CapabilityAction> },
    Other(String),
}

impl AuthToken {
    /// A token with the default header.
    pub fn new(payload: AuthTokenPayload, signature: Vec<u8>) -> (r: Self)
        ensures
            r.header.alg@ == "ES256"@,
            r.header.token_type@ == "JWT"@,
            r.header.ver@ == "1.0"@,
            r.payload == payload,
            r.signature == signature,
    {
        AuthToken { header: AuthTokenHeader::default(), payload, signature }
    }

    /// A token from a parsed header and payload; refused unless the
    /// algorithm is ES256.
    pub fn from_parts(header: AuthTokenHeader, payload: AuthTokenPayload, signature: Vec<u8>) -> (r:
        Result<Self, AuthTokenParseError>)
        ensures
            r is Ok <==> header.alg@ == "ES256"@,
            r matches Ok(t) ==> t.header == header && t.payload == payload && t.signature
                == signature,
            r matches Err(e) ==> e matches AuthTokenParseError::UnsupportedAlgorithm(a) && a@
                == header.alg@,
    {
        if !str_equal(header.alg.as_str(), "ES256") {
            let alg = header.alg;
            return Err(AuthTokenParseError::UnsupportedAlgorithm(alg));
        }
        Ok(AuthToken { header, payload, signature })
    }

    /// Whether the token has expired at `now` (a token without expiry never
    /// does).
    pub fn is_expired_at(&self, now: u64) -> (r: bool)
        ensures
            r == expired_at(self.payload.exp, now),
    {
        match self.payload.exp {
            Some(exp) => now >= exp,
            None => false,
        }
    }

    /// Whether the token has expired, by the system clock: the outcome is
    /// that of [`AuthToken::is_expired_at`] at the time read.
    pub fn is_expired(&self) -> (r: bool)
        ensures
            exists|now: u64| r == #[trigger] expired_at(self.payload.exp, now),
    {
        let now = current_timestamp();
        self.is_expired_at(now)
    }

    /// Whether the token was issued before the given cutoff.
    pub fn is_invalidated(&self, min_valid_issued_at: Option<u64>) -> (r: bool)
        ensures
            r == (match min_valid_issued_at {
                Some(m) => self.payload.iat < m,
                None => false,
            }),
    {
        match min_valid_issued_at {
            Some(min) => self.payload.iat < min,
            None => false,
        }
    }

    /// Whether the token grants `capability` (or one that satisfies it) on
    /// `resource`.
    pub fn has_capability(&self, resource: &str, capability: &CapabilityAction) -> (r: bool)
        ensures
            r == grants(self.payload.att@, resource@, *capability),
    {
        has_capability_in(&self.payload.att, resource, capability)
    }
}

/// Whether `att` grants `capability` on `resource`.
pub fn has_capability_in(att: &Vec<Capability>, resource: &str, capability: &CapabilityAction) -> (r:
    bool)
    ensures
        r == grants(att@, resource@, *capability),
{
    let mut i: usize = 0;
    while i < att.len()
        invariant
            i <= att@.len(),
            forall|k: int|
                0 <= k < i ==> !(#[trigger] att@[k].with@ == resource@ && spec_satisfies(
                    att@[k].can,
                    *capability,
                )),
        decreases att@.len() - i,
    {
        let cap = &att[i];
        if str_equal(cap.with.as_str(), resource) && cap.can.satisfies(capability) {
            return true;
        }
        i = i + 1;
    }
    false
}

/// The three parts of a JWT: the two encoded segments as received, the
/// decoded header and payload JSON bytes, and the signature bytes.
#[derive(Debug, Clone)]
pub struct JwtSegments {
    pub header_b64: String,
    pub payload_b64: String,
    pub header_json: Vec<u8>,
    pub payload_json: Vec<u8>,
    pub signature: Vec<u8>,
}

/// The characters that are signed: the header and payload segments joined
/// by a `.`.
pub open spec fn signing_input_chars(header_b64: Seq<char>, payload_b64: Seq<char>) -> Seq<char> {
    header_b64 + seq!['.'] + payload_b64
}

/// The wire form of a token: three URL-safe base64 segments joined by `.`.
pub open spec fn jwt_wire(header_json: Seq<u8>, payload_json: Seq<u8>, signature: Seq<u8>) -> Seq<
    char,
> {
    base64url_encoded(header_json) + seq!['.'] + base64url_encoded(payload_json) + seq!['.']
        + base64url_encoded(signature)
}

impl JwtSegments {
    /// The bytes that the signature covers, exactly as received.
    pub fn signing_input(&self) -> (r: Vec<u8>)
        ensures
            r@ == vstd::utf8::encode_utf8(
                signing_input_chars(self.header_b64@, self.payload_b64@),
            ),
    {
        let with_dot = concat(self.header_b64.as_str(), ".");
        let joined = concat(with_dot.as_str(), self.payload_b64.as_str());
        proof {
            reveal_strlit(".");
            assert(joined@ =~= signing_input_chars(self.header_b64@, self.payload_b64@));
        }
        let mut out: Vec<u8> = Vec::new();
        crate::encoding::append_bytes(&mut out, joined.as_str().as_bytes());
        assert(out@ =~= vstd::utf8::encode_utf8(joined@));
        out
    }
}

/// Splits a JWT into its parts and decodes them from URL-safe base64.
///
/// Refused unless there are exactly three `.`-separated parts, each of
/// which decodes; the header is checked before the payload, the payload
/// before the signature.
pub fn decode_jwt(jwt: &str) -> (r: Result<JwtSegments, AuthTokenParseError>)
    ensures
        ({
            let parts = split_chars(jwt@, '.');
            &&& parts.len() != 3 ==> r == Err::<JwtSegments, _>(
                AuthTokenParseError::InvalidFormat { parts: parts.len() as usize },
            )
            &&& parts.len() == 3 ==> {
                &&& r is Ok <==> (base64url_decoded(parts[0]) is Some && base64url_decoded(
                    parts[1],
                ) is Some && base64url_decoded(parts[2]) is Some)
                &&& r matches Ok(s) ==> {
                    &&& s.header_b64@ == parts[0]
                    &&& s.payload_b64@ == parts[1]
                    &&& base64url_decoded(parts[0]) == Some(s.header_json@)
                    &&& base64url_decoded(parts[1]) == Some(s.payload_json@)
                    &&& base64url_decoded(parts[2]) == Some(s.signature@)
                }
                &&& r matches Err(e) ==> {
                    ||| e == AuthTokenParseError::HeaderDecode && base64url_decoded(
                        parts[0],
                    ) is None
                    ||| e == AuthTokenParseError::PayloadDecode && base64url_decoded(
                        parts[0],
                    ) is Some && base64url_decoded(parts[1]) is None
                    ||| e == AuthTokenParseError::SignatureDecode && base64url_decoded(
                        parts[0],
                    ) is Some && base64url_decoded(parts[1]) is Some && base64url_decoded(
                        parts[2],
                    ) is None
                }
            }
        }),
{
    let parts = split_str(jwt, '.');
    proof {
        assert(string_views(parts@).len() == parts@.len());
    }
    if parts.len() != 3 {
        return Err(AuthTokenParseError::InvalidFormat { parts: parts.len() });
    }
    proof {
        assert(string_views(parts@)[0] == parts@[0]@);
        assert(string_views(parts@)[1] == parts@[1]@);
        assert(string_views(parts@)[2] == parts@[2]@);
    }
    let header_json = match base64url_decode(parts[0].as_str()) {
        Some(v) => v,
        None => return Err(AuthTokenParseError::HeaderDecode),
    };
    let payload_json = match base64url_decode(parts[1].as_str()) {
        Some(v) => v,
        None => return Err(AuthTokenParseError::PayloadDecode),
    };
    let signature = match base64url_decode(parts[2].as_str()) {
        Some(v) => v,
        None => return Err(AuthTokenParseError::SignatureDecode),
    };
    let mut parts = parts;
    let _sig_part = parts.pop();
    let payload_b64 = parts.pop().unwrap();
    let header_b64 = parts.pop().unwrap();
    Ok(JwtSegments { header_b64, payload_b64, header_json, payload_json, signature })
}

/// Encodes a token's header JSON, payload JSON and signature as a JWT.
///
/// Decoding the result gives the inputs back: it splits into exactly the
/// three encoded segments, which decode to the header, payload and
/// signature.
pub fn encode_jwt(header_json: &[u8], payload_json: &[u8], signature: &[u8]) -> (r: String)
    ensures
        r@ == jwt_wire(header_json@, payload_json@, signature@),
        split_chars(r@, '.') == seq![
            base64url_encoded(header_json@),
            base64url_encoded(payload_json@),
            base64url_encoded(signature@),
        ],
        base64url_decoded(split_chars(r@, '.')[0]) == Some(header_json@),
        base64url_decoded(split_chars(r@, '.')[1]) == Some(payload_json@),
        base64url_decoded(split_chars(r@, '.')[2]) == Some(signature@),
{
    let h = base64url_encode(header_json);
    let p = base64url_encode(payload_json);
    let s = base64url_encode(signature);
    let a = concat(h.as_str(), ".");
    let b = concat(a.as_str(), p.as_str());
    let c = concat(b.as_str(), ".");
    let d = concat(c.as_str(), s.as_str());
    proof {
        reveal_strlit(".");
        assert(d@ =~= jwt_wire(header_json@, payload_json@, signature@));
        lemma_split_no_separator(h@, '.');
        lemma_split_no_separator(p@, '.');
        lemma_split_no_separator(s@, '.');
        lemma_split_join(h@ + seq!['.'] + p@, s@, '.');
        lemma_split_join(h@, p@, '.');
        assert(seq![h@] + seq![p@] + seq![s@] =~= seq![h@, p@, s@]);
    }
    d
}

} // verus!
