//! Authentication of state nodes by node tokens
//! (`node:<node_id>[:<signature_hex>]`), against a registry of the nodes'
//! P-256 public keys.
use crate::crypto::{der_check_passes, verify_p256_der_message, SignatureVerifyError};
use crate::encoding::{hex_decode, hex_decoded};
use crate::identity::{Identity, IdentityType};
use crate::keyed::Keyed;
use crate::text::{concat, split_chars, split_str, str_equal, string_views, to_owned_string};
use vstd::prelude::*;

verus! {

broadcast use vstd::seq_lib::group_seq_properties;

/// What a signed node request is about.
#[derive(Debug, Clone, PartialEq, Eq)]
pub struct AuthContext {
    pub content_id: String,
    pub operation: String,
}

/// Why a node was not authenticated.
#[derive(Debug, Clone, PartialEq, Eq)]
pub enum NodeAuthError {
    /// Not `node:<id>[:<signature>]`; carries the token.
    InvalidTokenFormat(String),
    /// The node id is empty.
    EmptyNodeId,
    /// The signature part is not hexadecimal.
    InvalidSignatureHex,
    /// No public key is registered for the node.
    PublicKeyNotFound(String),
    /// The node id is not the one its public key gives.
    NodeIdMismatch { expected: String, got: String },
    /// The signature was refused.
    Signature(SignatureVerifyError),
}

/// What a node token reads as: the node id, and the signature bytes when
/// a non-empty third part is given.
pub open spec fn node_token_read(
    token: Seq<char>,
    r: Result<(String, Option<Vec<u8>>), NodeAuthError>,
) -> bool {
    let parts = split_chars(token, ':');
    if parts.len() < 2 || parts[0] != "node"@ {
        r matches Err(NodeAuthError::InvalidTokenFormat(t)) && t@ == token
    } else if parts[1].len() == 0 {
        r == Err::<(String, Option<Vec<u8>>), NodeAuthError>(NodeAuthError::EmptyNodeId)
    } else if parts.len() >= 3 && parts[2].len() > 0 {
        match hex_decoded(parts[2]) {
            None => r == Err::<(String, Option<Vec<u8>>), NodeAuthError>(
                NodeAuthError::InvalidSignatureHex,
            ),
            Some(sig) => r matches Ok((id, Some(s))) && id@ == parts[1] && s@ == sig,
        }
    } else {
        r matches Ok((id, None)) && id@ == parts[1]
    }
}

/// The message a node signs for a request: `<content_id>:<operation>`.
pub open spec fn context_message(c: AuthContext) -> Seq<char> {
    c.content_id@ + ":"@ + c.operation@
}

/// When both a signature and a context are given, the signature is one of
/// the context's message by the key.
pub open spec fn context_signature_ok(sig: Option<Vec<u8>>, context: Option<AuthContext>, key: Seq<u8>) -> bool {
    match sig {
        Some(s) => match context {
            Some(c) => der_check_passes(vstd::utf8::encode_utf8(context_message(c)), s@, key),
            None => true,
        },
        None => true,
    }
}

/// The node id and the signature bytes that a node token gives, when it
/// reads (see `node_token_read`).
pub open spec fn node_token_fields(token: Seq<char>) -> Option<(Seq<char>, Option<Seq<u8>>)> {
    let parts = split_chars(token, ':');
    if parts.len() < 2 || parts[0] != "node"@ || parts[1].len() == 0 {
        None
    } else if parts.len() >= 3 && parts[2].len() > 0 {
        match hex_decoded(parts[2]) {
            None => None,
            Some(sig) => Some((parts[1], Some(sig))),
        }
    } else {
        Some((parts[1], None))
    }
}

/// When both a signature and a context are given, the signature (as
/// bytes) is one of the context's message by the key.
pub open spec fn context_signature_bytes_ok(sig: Option<Seq<u8>>, context: Option<AuthContext>, key: Seq<u8>) -> bool {
    match sig {
        Some(s) => match context {
            Some(c) => der_check_passes(vstd::utf8::encode_utf8(context_message(c)), s, key),
            None => true,
        },
        None => true,
    }
}

/// Whether a node token authenticates: it reads, its node is registered,
/// its node id is the one the key gives, and a signature it carries is one
/// of the context's message by the registered key.
pub open spec fn node_authenticated(
    token: Seq<char>,
    context: Option<AuthContext>,
    derived_node_id: Seq<char>,
    registry: Map<Seq<char>, Seq<u8>>,
) -> bool {
    match node_token_fields(token) {
        None => false,
        Some((id, sig)) => {
            &&& registry.contains_key(id)
            &&& derived_node_id == id
            &&& context_signature_bytes_ok(sig, context, registry[id])
        },
    }
}

/// The error with which a node token is refused, in the order of the
/// checks: reading the token, the registered key, the node id, then the
/// signature.
pub open spec fn node_auth_refusal(
    e: NodeAuthError,
    token: Seq<char>,
    derived_node_id: Seq<char>,
    registry: Map<Seq<char>, Seq<u8>>,
) -> bool {
    match node_token_fields(token) {
        None => node_token_read(token, Err(e)),
        Some((id, _)) => if !registry.contains_key(id) {
            e matches NodeAuthError::PublicKeyNotFound(n) && n@ == id
        } else if derived_node_id != id {
            e matches NodeAuthError::NodeIdMismatch { expected, got } && expected@ == derived_node_id
                && got@ == id
        } else {
            e is Signature
        },
    }
}

/// The context given, as a value.
pub open spec fn context_value(context: Option<&AuthContext>) -> Option<AuthContext> {
    match context {
        Some(c) => Some(*c),
        None => None,
    }
}

/// The bytes of an optional signature.
pub open spec fn sig_view(sig: Option<Vec<u8>>) -> Option<Seq<u8>> {
    match sig {
        Some(s) => Some(s@),
        None => None,
    }
}

/// What a read token gives is what `node_token_fields` names.
proof fn lemma_token_fields(token: Seq<char>, r: Result<(String, Option<Vec<u8>>), NodeAuthError>)
    requires
        node_token_read(token, r),
    ensures
        r matches Ok((id, sig)) ==> node_token_fields(token) == Some((id@, sig_view(sig))),
        r is Err ==> node_token_fields(token) is None,
{
}

/// Authentication of nodes against a registry of public keys by node id.
#[derive(Debug)]
pub struct NodeAuthAdapter {
    public_key_registry: Keyed<Vec<u8>>,
}

impl NodeAuthAdapter {
    /// The registered public keys by node id.
    pub closed spec fn registry(&self) -> Map<Seq<char>, Seq<u8>> {
        self.public_key_registry.map()
    }

    /// An adapter over a registry of public keys.
    pub fn new(public_key_registry: Keyed<Vec<u8>>) -> (r: Self)
        ensures
            r.registry() == public_key_registry.map(),
    {
        NodeAuthAdapter { public_key_registry }
    }

    /// Reads a node token as a node id and an optional signature.
    pub fn parse_node_token(&self, token: &str) -> (r: Result<(String, Option<Vec<u8>>), NodeAuthError>)
        ensures
            node_token_read(token@, r),
    {
        let parts = split_str(token, ':');
        proof {
            assert(string_views(parts@).len() == parts@.len());
        }
        if parts.len() < 2 {
            return Err(NodeAuthError::InvalidTokenFormat(to_owned_string(token)));
        }
        proof {
            assert(string_views(parts@)[0] == parts@[0]@);
            assert(string_views(parts@)[1] == parts@[1]@);
        }
        if !str_equal(parts[0].as_str(), "node") {
            return Err(NodeAuthError::InvalidTokenFormat(to_owned_string(token)));
        }
        let node_id = to_owned_string(parts[1].as_str());
        if node_id.as_str().is_empty() {
            return Err(NodeAuthError::EmptyNodeId);
        }
        if parts.len() >= 3 {
            proof {
                assert(string_views(parts@)[2] == parts@[2]@);
            }
            if !parts[2].as_str().is_empty() {
                return match hex_decode(parts[2].as_str()) {
                    None => Err(NodeAuthError::InvalidSignatureHex),
                    Some(sig) => Ok((node_id, Some(sig))),
                };
            }
        }
        Ok((node_id, None))
    }

    /// The public key registered for a node, if any.
    pub fn registered_key(&self, node_id: &str) -> (r: Option<Vec<u8>>)
        ensures
            r is Some <==> self.registry().contains_key(node_id@),
            r matches Some(k) ==> k@ == self.registry()[node_id@],
    {
        match self.public_key_registry.get(node_id) {
            None => None,
            Some(k) => Some(crate::encoding::copy_bytes(k)),
        }
    }

    /// Checks a DER-encoded P-256 signature.
    pub fn verify_signature(&self, public_key: &[u8], message: &[u8], signature: &[u8]) -> (r: Result<
        (),
        NodeAuthError,
    >)
        ensures
            r is Ok <==> der_check_passes(message@, signature@, public_key@),
            r matches Err(e) ==> e is Signature,
    {
        match verify_p256_der_message(message, signature, public_key) {
            Ok(()) => Ok(()),
            Err(e) => Err(NodeAuthError::Signature(e)),
        }
    }

    /// Authenticates a node token. The node must have a registered key;
    /// `derived_node_id` is the node id that this key gives (a base58
    /// multihash of it), which must equal the token's node id; and when
    /// the token carries a signature and a context is given, the signature
    /// must be one of `<content_id>:<operation>` by that key.
    pub fn authenticate(
        &self,
        token: &str,
        context: Option<&AuthContext>,
        derived_node_id: &str,
    ) -> (r: Result<Identity, NodeAuthError>)
        ensures
            r is Ok <==> node_authenticated(token@, context_value(context), derived_node_id@, self.registry()),
            r matches Ok(i) ==> i.spec_type() == IdentityType::Node && i.spec_id() == derived_node_id@,
            r matches Err(e) ==> node_auth_refusal(e, token@, derived_node_id@, self.registry()),
    {
        let parsed = self.parse_node_token(token);
        proof {
            lemma_token_fields(token@, parsed);
        }
        let (node_id, signature) = match parsed {
            Err(e) => return Err(e),
            Ok(p) => p,
        };
        let public_key = match self.registered_key(node_id.as_str()) {
            None => return Err(NodeAuthError::PublicKeyNotFound(node_id)),
            Some(k) => k,
        };
        if !str_equal(derived_node_id, node_id.as_str()) {
            return Err(NodeAuthError::NodeIdMismatch { expected: to_owned_string(derived_node_id), got: node_id });
        }
        match &signature {
            None => {},
            Some(sig) => match context {
                None => {},
                Some(ctx) => {
                    let a = concat(ctx.content_id.as_str(), ":");
                    let message = concat(a.as_str(), ctx.operation.as_str());
                    proof {
                        reveal_strlit(":");
                        assert(message@ =~= context_message(*ctx));
                    }
                    let bytes = message.as_str().as_bytes();
                    match self.verify_signature(public_key.as_slice(), bytes, sig.as_slice()) {
                        Err(e) => return Err(e),
                        Ok(()) => {},
                    }
                },
            },
        }
        let id_text = to_owned_string(node_id.as_str());
        match Identity::new(id_text, IdentityType::Node) {
            Ok(i) => Ok(i),
            Err(_) => Err(NodeAuthError::EmptyNodeId),
        }
    }

    /// Whether a token reads as a node token of a registered node.
    pub fn is_valid(&self, token: &str) -> (r: bool)
        ensures
            r <==> exists|id: String, sig: Option<Vec<u8>>| #[trigger] node_token_read(token@, Ok((id, sig)))
                && self.registry().contains_key(id@),
    {
        match self.parse_node_token(token) {
            Err(_) => {
                proof {
                    assert forall|id: String, sig: Option<Vec<u8>>| !#[trigger] node_token_read(
                        token@,
                        Ok((id, sig)),
                    ) by {}
                }
                false
            },
            Ok((node_id, sig)) => {
                let ghost read = (node_id, sig);
                let registered = self.registered_key(node_id.as_str()).is_some();
                proof {
                    assert(node_token_read(token@, Ok((read.0, read.1))));
                    assert forall|id: String, s: Option<Vec<u8>>| #[trigger] node_token_read(
                        token@,
                        Ok((id, s)),
                    ) implies id@ == read.0@ by {}
                }
                registered
            },
        }
    }
}

} // verus!
