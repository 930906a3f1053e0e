//! Node keys: a node's P-256 key pair, how its stored bytes read back,
//! and where the key files are kept (one per node name under a base
//! directory).
use crate::crypto::{
    message_check_passes, p256_public_key_of, p256_secret_key_accepted, p256_signing_succeeds,
    public_key_from_secret,
    random_secret_key, sign_p256_message, SigningError,
};
use crate::encoding::copy_bytes;
use crate::text::{concat, decimal_chars, decimal_string, to_owned_string};
use vstd::prelude::*;

verus! {

/// The file name of a node's key: the node name with `.p256`.
pub open spec fn key_file_name_of(node_name: Seq<char>) -> Seq<char> {
    node_name + ".p256"@
}

/// A store of node keys under a base directory.
#[derive(Debug, Clone)]
pub struct KeyStore {
    base_path: String,
}

impl KeyStore {
    /// The base directory.
    pub closed spec fn base(&self) -> Seq<char> {
        self.base_path@
    }

    /// A key store under `base_path`.
    pub fn new(base_path: String) -> (r: Self)
        ensures
            r.base() == base_path@,
    {
        KeyStore { base_path }
    }

    /// The base directory.
    pub fn base_path(&self) -> (r: &str)
        ensures
            r@ == self.base(),
    {
        self.base_path.as_str()
    }

    /// The name of the file that holds a node's key, within the base
    /// directory.
    pub fn key_file_name(node_name: &str) -> (r: String)
        ensures
            r@ == key_file_name_of(node_name@),
    {
        concat(node_name, ".p256")
    }

    /// The name of the default node.
    pub fn default_node_name() -> (r: String)
        ensures
            r@ == "node"@,
    {
        to_owned_string("node")
    }
}

/// Why stored key bytes are not a node key.
#[derive(Debug, Clone, Copy, PartialEq, Eq, Structural)]
pub enum KeyPairError {
    /// The file does not hold exactly 32 bytes; it holds this many.
    WrongLength { len: usize },
    /// The 32 bytes are not a P-256 secret scalar.
    InvalidKey,
}

/// What stored key bytes read as: the public key of the secret key they
/// hold, or why they hold none.
pub open spec fn key_pair_read(bytes: Seq<u8>) -> Result<Seq<u8>, KeyPairError> {
    if bytes.len() != 32 {
        Err(KeyPairError::WrongLength { len: bytes.len() as usize })
    } else if !p256_secret_key_accepted(bytes) {
        Err(KeyPairError::InvalidKey)
    } else {
        Ok(p256_public_key_of(bytes))
    }
}

/// The message of a key error.
pub open spec fn key_pair_error_text(e: KeyPairError) -> Seq<char> {
    match e {
        KeyPairError::WrongLength { len } => "Invalid key file: expected 32 bytes, got "@
            + decimal_chars(len as nat),
        KeyPairError::InvalidKey => "Failed to parse signing key"@,
    }
}

impl KeyPairError {
    /// The message of the error.
    pub fn message(&self) -> (r: String)
        ensures
            r@ == key_pair_error_text(*self),
    {
        match self {
            KeyPairError::WrongLength { len } => {
                let n = decimal_string(*len as u64);
                concat("Invalid key file: expected 32 bytes, got ", n.as_str())
            },
            KeyPairError::InvalidKey => to_owned_string("Failed to parse signing key"),
        }
    }
}

/// A node's P-256 key pair: the 32-byte secret key and the uncompressed
/// SEC1 public key (65 bytes) that belongs to it.
#[derive(Debug)]
pub struct NodeKeyPair {
    secret_key: Vec<u8>,
    public_key: Vec<u8>,
}

impl NodeKeyPair {
    /// The secret key.
    pub closed spec fn secret(&self) -> Seq<u8> {
        self.secret_key@
    }

    /// The public key.
    pub closed spec fn public(&self) -> Seq<u8> {
        self.public_key@
    }

    /// The public key belongs to the secret key, which P-256 accepts.
    #[verifier::type_invariant]
    spec fn pair_matches(&self) -> bool {
        &&& self.secret_key@.len() == 32
        &&& p256_secret_key_accepted(self.secret_key@)
        &&& self.public_key@ == p256_public_key_of(self.secret_key@)
        &&& self.public_key@.len() == 65
    }

    /// A fresh random key pair.
    pub fn generate() -> (r: Self)
        ensures
            r.secret().len() == 32,
            p256_secret_key_accepted(r.secret()),
            r.public() == p256_public_key_of(r.secret()),
    {
        let secret_key = random_secret_key();
        match public_key_from_secret(secret_key.as_slice()) {
            Ok(public_key) => NodeKeyPair { secret_key, public_key },
            Err(_) => {
                assert(false);
                NodeKeyPair { secret_key, public_key: Vec::new() }
            },
        }
    }

    /// The key pair of stored secret key bytes: refused unless they are
    /// exactly 32 bytes that P-256 accepts.
    pub fn from_secret_bytes(bytes: &[u8]) -> (r: Result<Self, KeyPairError>)
        ensures
            match key_pair_read(bytes@) {
                Ok(pk) => r matches Ok(k) && k.secret() == bytes@ && k.public() == pk,
                Err(e) => r == Err::<Self, KeyPairError>(e),
            },
    {
        if bytes.len() != 32 {
            return Err(KeyPairError::WrongLength { len: bytes.len() });
        }
        match public_key_from_secret(bytes) {
            Ok(public_key) => {
                let mut secret_key: Vec<u8> = Vec::new();
                crate::encoding::append_bytes(&mut secret_key, bytes);
                assert(secret_key@ =~= bytes@);
                Ok(NodeKeyPair { secret_key, public_key })
            },
            Err(_) => Err(KeyPairError::InvalidKey),
        }
    }

    /// The secret key bytes, as they are stored. Reading them back gives
    /// this pair's public key.
    pub fn secret_key_bytes(&self) -> (r: Vec<u8>)
        ensures
            r@ == self.secret(),
            key_pair_read(r@) == Ok::<Seq<u8>, KeyPairError>(self.public()),
    {
        proof {
            use_type_invariant(self);
        }
        copy_bytes(&self.secret_key)
    }

    /// The public key in uncompressed SEC1 form (65 bytes).
    pub fn public_key_bytes(&self) -> (r: Vec<u8>)
        ensures
            r@ == self.public(),
            r@ == p256_public_key_of(self.secret()),
            r@.len() == 65,
    {
        proof {
            use_type_invariant(self);
        }
        copy_bytes(&self.public_key)
    }

    /// Signs a message with the secret key; it succeeds exactly when the
    /// signer signs the message, and the signature verifies under the
    /// public key.
    pub fn sign(&self, message: &[u8]) -> (r: Result<Vec<u8>, SigningError>)
        ensures
            r is Ok <==> p256_signing_succeeds(self.secret(), message@),
            r matches Err(e) ==> e == SigningError::SigningFailed,
            r matches Ok(s) ==> message_check_passes(message@, s@, self.public()),
    {
        proof {
            use_type_invariant(self);
        }
        sign_p256_message(self.secret_key.as_slice(), message)
    }
}

} // verus!
