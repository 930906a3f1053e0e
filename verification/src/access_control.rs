//! Version-based access control for shared content: tokens issued before
//! `min_valid_issued_at` are invalid, and concurrent states converge by
//! last-writer-wins on the version.
use vstd::prelude::*;
use crate::encoding::{append_bytes, be_bytes, u64_to_be_bytes};
use crate::events::current_timestamp;
use crate::text::{concat, decimal_chars, decimal_string, to_owned_string};
use vstd::string::*;

verus! {

/// Access control state of one content.
#[derive(Debug, Clone, PartialEq, Eq)]
pub struct ContentAccessControl {
    content_id: String,
    min_valid_issued_at: u64,
    version: u64,
    updated_at: u64,
}

/// Events emitted by access control operations.
#[derive(Debug, Clone, PartialEq, Eq)]
pub enum AccessControlEvent {
    /// Tokens issued before a certain timestamp have been invalidated.
    TokensInvalidated {
        content_id: String,
        old_min_valid_issued_at: u64,
        new_min_valid_issued_at: u64,
        version: u64,
    },
}

/// Errors of access control operations.
#[derive(Debug, Clone, PartialEq, Eq)]
pub enum AccessControlError {
    /// The requested timestamp is less than the current min_valid_issued_at.
    InvalidTimestamp { current: u64, requested: u64 },
    /// The content was not found.
    ContentNotFound,
    /// Signature verification failed.
    InvalidSignature,
    /// The signer is not authorized to update access control.
    NotAuthorized,
}

/// The message of an access-control error.
pub open spec fn access_control_error_text(e: AccessControlError) -> Seq<char> {
    match e {
        AccessControlError::InvalidTimestamp { current, requested } => "Invalid timestamp: requested "@
            + decimal_chars(requested as nat) + " is less than current "@ + decimal_chars(
            current as nat,
        ),
        AccessControlError::ContentNotFound => "Content not found"@,
        AccessControlError::InvalidSignature => "Invalid signature"@,
        AccessControlError::NotAuthorized => "Not authorized"@,
    }
}

impl AccessControlError {
    /// The message of the error.
    pub fn message(&self) -> (r: String)
        ensures
            r@ == access_control_error_text(*self),
    {
        match self {
            AccessControlError::InvalidTimestamp { current, requested } => {
                let a = concat("Invalid timestamp: requested ", decimal_string(*requested).as_str());
                let b = concat(a.as_str(), " is less than current ");
                concat(b.as_str(), decimal_string(*current).as_str())
            },
            AccessControlError::ContentNotFound => to_owned_string("Content not found"),
            AccessControlError::InvalidSignature => to_owned_string("Invalid signature"),
            AccessControlError::NotAuthorized => to_owned_string("Not authorized"),
        }
    }
}

/// The abstract state: content, cutoff, version and update time.
pub struct AccessControlView {
    pub content_id: Seq<char>,
    pub min_valid_issued_at: u64,
    pub version: u64,
    pub updated_at: u64,
}

impl View for ContentAccessControl {
    type V = AccessControlView;

    closed spec fn view(&self) -> AccessControlView {
        AccessControlView {
            content_id: self.content_id@,
            min_valid_issued_at: self.min_valid_issued_at,
            version: self.version,
            updated_at: self.updated_at,
        }
    }
}

/// The state that `merge` leaves in `a` after merging `b`: a different
/// content is ignored; a higher version wins whole; at the same version a
/// higher cutoff wins (with its update time); otherwise `a` stays.
pub open spec fn merged(a: AccessControlView, b: AccessControlView) -> AccessControlView {
    if b.content_id != a.content_id {
        a
    } else if b.version > a.version {
        AccessControlView {
            content_id: a.content_id,
            min_valid_issued_at: b.min_valid_issued_at,
            version: b.version,
            updated_at: b.updated_at,
        }
    } else if b.version == a.version && b.min_valid_issued_at > a.min_valid_issued_at {
        AccessControlView {
            content_id: a.content_id,
            min_valid_issued_at: b.min_valid_issued_at,
            version: a.version,
            updated_at: b.updated_at,
        }
    } else {
        a
    }
}

/// Whether `merge` of `b` into `a` changes `a`.
pub open spec fn merge_changes(a: AccessControlView, b: AccessControlView) -> bool {
    b.content_id == a.content_id && (b.version > a.version || (b.version == a.version
        && b.min_valid_issued_at > a.min_valid_issued_at))
}

/// The (version, cutoff) pair by which states are ordered, as one number.
pub open spec fn merge_rank(a: AccessControlView) -> int {
    a.version * 0x1_0000_0000_0000_0000 + a.min_valid_issued_at
}

impl ContentAccessControl {
    /// A fresh state: every token is valid (cutoff 0), version 1, updated
    /// now.
    pub fn new(content_id: String) -> (r: Self)
        ensures
            r@.content_id == content_id@,
            r@.min_valid_issued_at == 0,
            r@.version == 1,
    {
        let now = current_timestamp();
        Self { content_id, min_valid_issued_at: 0, version: 1, updated_at: now }
    }

    /// A state with the given values.
    pub fn with_values(
        content_id: String,
        min_valid_issued_at: u64,
        version: u64,
        updated_at: u64,
    ) -> (r: Self)
        ensures
            r@ == (AccessControlView {
                content_id: content_id@,
                min_valid_issued_at,
                version,
                updated_at,
            }),
    {
        Self { content_id, min_valid_issued_at, version, updated_at }
    }

    pub fn content_id(&self) -> (r: &str)
        ensures
            r@ == self@.content_id,
    {
        self.content_id.as_str()
    }

    pub fn min_valid_issued_at(&self) -> (r: u64)
        ensures
            r == self@.min_valid_issued_at,
    {
        self.min_valid_issued_at
    }

    pub fn version(&self) -> (r: u64)
        ensures
            r == self@.version,
    {
        self.version
    }

    pub fn updated_at(&self) -> (r: u64)
        ensures
            r == self@.updated_at,
    {
        self.updated_at
    }

    /// Whether a token issued at `issued_at` is still valid.
    pub fn is_token_valid(&self, issued_at: u64) -> (r: bool)
        ensures
            r == (issued_at >= self@.min_valid_issued_at),
    {
        issued_at >= self.min_valid_issued_at
    }

    /// Invalidates every token issued before `new_min_valid_issued_at`.
    ///
    /// Refused when that is below the current cutoff; otherwise the cutoff
    /// is set, the version goes up by one and the update time becomes now.
    pub fn invalidate_before(&mut self, new_min_valid_issued_at: u64) -> (r: Result<
        AccessControlEvent,
        AccessControlError,
    >)
        requires
            old(self)@.version < u64::MAX,
        ensures
            r is Err <==> new_min_valid_issued_at < old(self)@.min_valid_issued_at,
            r is Err ==> final(self)@ == old(self)@,
            r matches Err(e) ==> e == (AccessControlError::InvalidTimestamp {
                current: old(self)@.min_valid_issued_at,
                requested: new_min_valid_issued_at,
            }),
            r is Ok ==> {
                &&& final(self)@.content_id == old(self)@.content_id
                &&& final(self)@.min_valid_issued_at == new_min_valid_issued_at
                &&& final(self)@.version == old(self)@.version + 1
            },
            r matches Ok(AccessControlEvent::TokensInvalidated {
                content_id,
                old_min_valid_issued_at,
                new_min_valid_issued_at: n,
                version,
            }) ==> {
                &&& content_id@ == old(self)@.content_id
                &&& old_min_valid_issued_at == old(self)@.min_valid_issued_at
                &&& n == new_min_valid_issued_at
                &&& version == old(self)@.version + 1
            },
    {
        if new_min_valid_issued_at < self.min_valid_issued_at {
            return Err(
                AccessControlError::InvalidTimestamp {
                    current: self.min_valid_issued_at,
                    requested: new_min_valid_issued_at,
                },
            );
        }
        let old_min = self.min_valid_issued_at;
        self.min_valid_issued_at = new_min_valid_issued_at;
        self.version = self.version + 1;
        self.updated_at = current_timestamp();
        Ok(
            AccessControlEvent::TokensInvalidated {
                content_id: self.content_id.clone(),
                old_min_valid_issued_at: old_min,
                new_min_valid_issued_at,
                version: self.version,
            },
        )
    }

    /// Merges another replica's state (last-writer-wins on the version,
    /// the higher cutoff on a tie); returns whether this state changed.
    pub fn merge(&mut self, other: &ContentAccessControl) -> (r: bool)
        ensures
            final(self)@ == merged(old(self)@, other@),
            r == merge_changes(old(self)@, other@),
    {
        if other.content_id != self.content_id {
            return false;
        }
        if other.version > self.version {
            self.min_valid_issued_at = other.min_valid_issued_at;
            self.version = other.version;
            self.updated_at = other.updated_at;
            return true;
        }
        if other.version == self.version && other.min_valid_issued_at > self.min_valid_issued_at {
            self.min_valid_issued_at = other.min_valid_issued_at;
            self.updated_at = other.updated_at;
            return true;
        }
        false
    }
}

/// A token valid under a cutoff stays valid for any later issue time.
pub proof fn law_token_validity_monotone(a: AccessControlView, t1: u64, t2: u64)
    requires
        t1 <= t2,
        t1 >= a.min_valid_issued_at,
    ensures
        t2 >= a.min_valid_issued_at,
{
}

/// Merging a state into itself changes nothing.
pub proof fn law_merge_idempotent(a: AccessControlView)
    ensures
        merged(a, a) == a,
        !merge_changes(a, a),
{
}

/// A merge keeps the content and never lowers the (version, cutoff) rank;
/// for the same content the result ranks at least as high as either input
/// and has the rank of one of them.
pub proof fn law_merge_takes_higher_rank(a: AccessControlView, b: AccessControlView)
    ensures
        merged(a, b).content_id == a.content_id,
        merge_rank(merged(a, b)) >= merge_rank(a),
        a.content_id == b.content_id ==> merge_rank(merged(a, b)) >= merge_rank(b),
        merge_rank(merged(a, b)) == merge_rank(a) || merge_rank(merged(a, b)) == merge_rank(b),
{
}

/// Replicas of one content converge whatever the order of merges: both
/// orders give the same version and cutoff.
pub proof fn law_merge_commutes(a: AccessControlView, b: AccessControlView)
    requires
        a.content_id == b.content_id,
    ensures
        merged(a, b).version == merged(b, a).version,
        merged(a, b).min_valid_issued_at == merged(b, a).min_valid_issued_at,
{
}

/// Grouping of merges does not matter for the version and cutoff.
pub proof fn law_merge_associates(a: AccessControlView, b: AccessControlView, c: AccessControlView)
    requires
        a.content_id == b.content_id,
        b.content_id == c.content_id,
    ensures
        merged(merged(a, b), c).version == merged(a, merged(b, c)).version,
        merged(merged(a, b), c).min_valid_issued_at == merged(
            a,
            merged(b, c),
        ).min_valid_issued_at,
{
}

/// Signed request to update the access control of a content.
#[derive(Debug, Clone)]
pub struct AccessControlUpdate {
    /// The content ID to update.
    pub content_id: String,
    /// The new min_valid_issued_at value.
    pub new_min_valid_issued_at: u64,
    /// The signer's public key (owner).
    pub signer_public_key: Vec<u8>,
    /// Signature over (content_id || new_min_valid_issued_at).
    pub signature: Vec<u8>,
}

/// The UTF-8 bytes of a string.
pub open spec fn utf8_of(s: Seq<char>) -> Seq<u8> {
    vstd::utf8::encode_utf8(s)
}

/// The message an owner signs: the content ID's bytes followed by the new
/// cutoff as eight big-endian bytes.
pub open spec fn update_signing_message(content_id: Seq<u8>, cutoff: u64) -> Seq<u8> {
    content_id + be_bytes(cutoff)
}

impl AccessControlUpdate {
    /// An unsigned update request.
    pub fn new(content_id: String, new_min_valid_issued_at: u64) -> (r: Self)
        ensures
            r.content_id@ == content_id@,
            r.new_min_valid_issued_at == new_min_valid_issued_at,
            r.signer_public_key@.len() == 0,
            r.signature@.len() == 0,
    {
        Self {
            content_id,
            new_min_valid_issued_at,
            signer_public_key: Vec::new(),
            signature: Vec::new(),
        }
    }

    /// The bytes to sign.
    pub fn signing_message(&self) -> (r: Vec<u8>)
        ensures
            r@ == update_signing_message(
                utf8_of(self.content_id@),
                self.new_min_valid_issued_at,
            ),
    {
        let mut msg: Vec<u8> = Vec::new();
        append_bytes(&mut msg, self.content_id.as_str().as_bytes());
        let tail = u64_to_be_bytes(self.new_min_valid_issued_at);
        append_bytes(&mut msg, tail.as_slice());
        assert(msg@ =~= update_signing_message(
            utf8_of(self.content_id@),
            self.new_min_valid_issued_at,
        ));
        msg
    }

    /// Sets the signature and the signer's public key.
    pub fn with_signature(self, signature: Vec<u8>, signer_public_key: Vec<u8>) -> (r: Self)
        ensures
            r.content_id == self.content_id,
            r.new_min_valid_issued_at == self.new_min_valid_issued_at,
            r.signature@ == signature@,
            r.signer_public_key@ == signer_public_key@,
    {
        let mut this = self;
        this.signature = signature;
        this.signer_public_key = signer_public_key;
        this
    }

    /// The signature bytes.
    pub fn signature(&self) -> (r: &[u8])
        ensures
            r@ == self.signature@,
    {
        self.signature.as_slice()
    }

    /// The signer's public key bytes.
    pub fn signer_public_key(&self) -> (r: &[u8])
        ensures
            r@ == self.signer_public_key@,
    {
        self.signer_public_key.as_slice()
    }
}

/// The signed message binds the cutoff: two updates of one content with
/// different cutoffs have different messages, so a signature for one
/// cutoff cannot be replayed for another.
pub proof fn law_signing_message_binds_cutoff(content_id: Seq<u8>, c1: u64, c2: u64)
    requires
        c1 != c2,
    ensures
        update_signing_message(content_id, c1) != update_signing_message(content_id, c2),
{
    let m1 = update_signing_message(content_id, c1);
    let m2 = update_signing_message(content_id, c2);
    if m1 == m2 {
        assert(m1.subrange(content_id.len() as int, m1.len() as int) =~= be_bytes(c1));
        assert(m2.subrange(content_id.len() as int, m2.len() as int) =~= be_bytes(c2));
        lemma_be_bytes_injective(c1, c2);
    }
}

/// The signed message names both the content and the cutoff: equal
/// messages come from equal content ids and equal cutoffs, so a signature
/// for one update cannot be replayed for another content or cutoff (the
/// cutoff takes a fixed eight bytes at the end).
pub proof fn law_signing_message_injective(c1: Seq<u8>, t1: u64, c2: Seq<u8>, t2: u64)
    requires
        update_signing_message(c1, t1) == update_signing_message(c2, t2),
    ensures
        c1 == c2,
        t1 == t2,
{
    let m = update_signing_message(c1, t1);
    assert(be_bytes(t1).len() == 8 && be_bytes(t2).len() == 8);
    assert(m.len() == c1.len() + 8);
    assert(update_signing_message(c2, t2).len() == c2.len() + 8);
    assert(c1.len() == c2.len());
    assert(m.subrange(0, c1.len() as int) =~= c1);
    assert(update_signing_message(c2, t2).subrange(0, c2.len() as int) =~= c2);
    assert(m.subrange(c1.len() as int, m.len() as int) =~= be_bytes(t1));
    assert(update_signing_message(c2, t2).subrange(c2.len() as int, m.len() as int) =~= be_bytes(t2));
    lemma_be_bytes_injective(t1, t2);
}

/// Distinct numbers have distinct big-endian bytes.
proof fn lemma_be_bytes_injective(a: u64, b: u64)
    requires
        be_bytes(a) == be_bytes(b),
    ensures
        a == b,
{
    reveal_with_fuel(crate::encoding::pow256, 8);
    let ba = be_bytes(a);
    let bb = be_bytes(b);
    assert(ba[0] == bb[0]);
    assert(ba[1] == bb[1]);
    assert(ba[2] == bb[2]);
    assert(ba[3] == bb[3]);
    assert(ba[4] == bb[4]);
    assert(ba[5] == bb[5]);
    assert(ba[6] == bb[6]);
    assert(ba[7] == bb[7]);
    assert(a == b) by (nonlinear_arith)
        requires
            ((a as int / 72057594037927936) % 256) as u8 == ((b as int / 72057594037927936) % 256) as u8,
            ((a as int / 281474976710656) % 256) as u8 == ((b as int / 281474976710656) % 256) as u8,
            ((a as int / 1099511627776) % 256) as u8 == ((b as int / 1099511627776) % 256) as u8,
            ((a as int / 4294967296) % 256) as u8 == ((b as int / 4294967296) % 256) as u8,
            ((a as int / 16777216) % 256) as u8 == ((b as int / 16777216) % 256) as u8,
            ((a as int / 65536) % 256) as u8 == ((b as int / 65536) % 256) as u8,
            ((a as int / 256) % 256) as u8 == ((b as int / 256) % 256) as u8,
            ((a as int / 1) % 256) as u8 == ((b as int / 1) % 256) as u8,
    ;
}

} // verus!
