//! Storage of raw content: each payload under its content id (a CIDv1 of
//! its SHA-256 digest), and for each content the latest version.
use crate::keyed::Keyed;
use crate::text::to_owned_string;
use crate::encoding::{append_bytes, copy_bytes};
use multihash_codetable::MultihashDigest;
use vstd::prelude::*;

verus! {

/// The multicodec of raw binary content.
pub const RAW_CODEC: u64 = 0x55;

/// The text (multibase) form of the CIDv1 with the codec whose multihash
/// is the SHA-256 digest of `data`.
pub uninterp spec fn cid_v1_sha256_text(codec: u64, data: Seq<u8>) -> Seq<char>;

/// Computes `Code::Sha2_256.digest(data)` (`multihash_codetable`), makes
/// `cid::Cid::new_v1(codec, ..)` of it and writes it with `to_string`.
/// The text is named, not stated: it is the CID's base32 multibase form.
#[verifier::external_body]
fn cid_v1_sha256(codec: u64, data: &[u8]) -> (r: String)
    ensures
        r@ == cid_v1_sha256_text(codec, data@),
{
    cid::Cid::new_v1(codec, multihash_codetable::Code::Sha2_256.digest(data)).to_string()
}

/// The content id of a payload.
pub open spec fn payload_cid(data: Seq<u8>) -> Seq<char> {
    cid_v1_sha256_text(RAW_CODEC, data)
}

/// The content id of a payload: the CIDv1 (raw codec) of its SHA-256
/// digest, as text.
pub fn compute_content_id(data: &[u8]) -> (r: String)
    ensures
        r@ == payload_cid(data@),
{
    cid_v1_sha256(RAW_CODEC, data)
}

/// What a save did.
#[derive(Debug, Clone, PartialEq)]
pub struct SaveResult {
    /// The id of the content (of its first version).
    pub genesis_cid: String,
    /// The id of the version saved, for an update.
    pub version_cid: Option<String>,
    /// Whether the save created the content.
    pub created: bool,
}

/// The abstract state of a content store: payloads by id, and the latest
/// version id of each content.
pub struct StoreState {
    pub payloads: Map<Seq<char>, Seq<u8>>,
    pub latest: Map<Seq<char>, Seq<char>>,
}

/// The state after saving `data`: a new content when `genesis` is `None`
/// (whose id is that of the payload), else a new version of `genesis`.
pub open spec fn saved(s: StoreState, genesis: Option<Seq<char>>, data: Seq<u8>) -> StoreState {
    let cid = payload_cid(data);
    match genesis {
        Some(g) => StoreState { payloads: s.payloads.insert(cid, data), latest: s.latest.insert(g, cid) },
        None => StoreState { payloads: s.payloads.insert(cid, data), latest: s.latest.insert(cid, cid) },
    }
}

/// The result that a save reports.
pub open spec fn save_reported(genesis: Option<Seq<char>>, data: Seq<u8>, r: SaveResult) -> bool {
    match genesis {
        Some(g) => {
            &&& r.genesis_cid@ == g
            &&& r.version_cid matches Some(v) && v@ == payload_cid(data)
            &&& !r.created
        },
        None => r.genesis_cid@ == payload_cid(data) && r.version_cid is None && r.created,
    }
}

/// The latest payload of a content, if any.
pub open spec fn latest_payload(s: StoreState, genesis: Seq<char>) -> Option<Seq<u8>> {
    if s.latest.contains_key(genesis) && s.payloads.contains_key(s.latest[genesis]) {
        Some(s.payloads[s.latest[genesis]])
    } else {
        None
    }
}

/// The message of the error for a payload that is not stored.
pub open spec fn not_found_message(cid: Seq<char>) -> Seq<char> {
    "Content not found: "@ + cid
}

/// Storage of raw content.
pub trait ContentStorageRepository {
    /// Saves content: a new content when `maybe_genesis_cid` is `None`,
    /// else a new version of that content.
    fn save_content(
        &mut self,
        maybe_genesis_cid: Option<&str>,
        data: &[u8],
        author_id: &str,
    ) -> Result<SaveResult, String>;

    /// The payload stored under a content id.
    fn fetch_payload_by_cid(&self, payload_cid: &str) -> Result<Vec<u8>, String>;

    /// The latest payload of a content.
    fn fetch_latest_by_genesis(&self, genesis_cid: &str) -> Result<Option<Vec<u8>>, String>;
}

/// Content storage held in memory.
#[derive(Debug)]
pub struct InMemoryContentStorageRepository {
    content: Keyed<Vec<u8>>,
    latest_versions: Keyed<String>,
}

impl InMemoryContentStorageRepository {
    /// The abstract state.
    pub open spec fn state(&self) -> StoreState {
        StoreState { payloads: self.content_map(), latest: self.latest_map() }
    }

    /// Payloads by id.
    pub closed spec fn content_map(&self) -> Map<Seq<char>, Seq<u8>> {
        self.content.map()
    }

    /// Latest version id by content id.
    pub closed spec fn latest_map(&self) -> Map<Seq<char>, Seq<char>> {
        self.latest_versions.map()
    }

    /// An empty store.
    pub fn new() -> (r: Self)
        ensures
            r.state().payloads == Map::<Seq<char>, Seq<u8>>::empty(),
            r.state().latest == Map::<Seq<char>, Seq<char>>::empty(),
    {
        InMemoryContentStorageRepository { content: Keyed::new(), latest_versions: Keyed::new() }
    }
}

impl ContentStorageRepository for InMemoryContentStorageRepository {
    fn save_content(&mut self, maybe_genesis_cid: Option<&str>, data: &[u8], author_id: &str) -> (r:
        Result<SaveResult, String>)
        ensures
            r matches Ok(res) && save_reported(
                match maybe_genesis_cid {
                    Some(g) => Some(g@),
                    None => None,
                },
                data@,
                res,
            ),
            final(self).state() == saved(
                old(self).state(),
                match maybe_genesis_cid {
                    Some(g) => Some(g@),
                    None => None,
                },
                data@,
            ),
    {
        let cid = compute_content_id(data);
        let mut payload: Vec<u8> = Vec::new();
        append_bytes(&mut payload, data);
        match maybe_genesis_cid {
            Some(genesis) => {
                self.content.insert(to_owned_string(cid.as_str()), payload);
                self.latest_versions.insert(to_owned_string(genesis), to_owned_string(cid.as_str()));
                Ok(SaveResult { genesis_cid: to_owned_string(genesis), version_cid: Some(cid), created: false })
            },
            None => {
                self.content.insert(to_owned_string(cid.as_str()), payload);
                self.latest_versions.insert(to_owned_string(cid.as_str()), to_owned_string(cid.as_str()));
                Ok(SaveResult { genesis_cid: cid, version_cid: None, created: true })
            },
        }
    }

    fn fetch_payload_by_cid(&self, payload_cid: &str) -> (r: Result<Vec<u8>, String>)
        ensures
            r is Ok <==> self.state().payloads.contains_key(payload_cid@),
            r matches Ok(d) ==> d@ == self.state().payloads[payload_cid@],
            r matches Err(m) ==> m@ == not_found_message(payload_cid@),
    {
        match self.content.get(payload_cid) {
            Some(d) => Ok(copy_bytes(d)),
            None => Err(crate::text::concat("Content not found: ", payload_cid)),
        }
    }

    fn fetch_latest_by_genesis(&self, genesis_cid: &str) -> (r: Result<Option<Vec<u8>>, String>)
        ensures
            r matches Ok(o) && match o {
                Some(d) => latest_payload(self.state(), genesis_cid@) == Some(d@),
                None => latest_payload(self.state(), genesis_cid@) is None,
            },
    {
        match self.latest_versions.get(genesis_cid) {
            None => Ok(None),
            Some(latest) => match self.content.get(latest.as_str()) {
                Some(d) => Ok(Some(copy_bytes(d))),
                None => Ok(None),
            },
        }
    }
}

/// A content store that keeps nothing: saves report the ids they would
/// give, and reads find nothing.
#[derive(Debug, Clone, Default)]
pub struct CrslContentStorageRepository;

impl ContentStorageRepository for CrslContentStorageRepository {
    fn save_content(&mut self, maybe_genesis_cid: Option<&str>, data: &[u8], author_id: &str) -> (r:
        Result<SaveResult, String>)
        ensures
            r matches Ok(res) && save_reported(
                match maybe_genesis_cid {
                    Some(g) => Some(g@),
                    None => None,
                },
                data@,
                res,
            ),
    {
        let cid = compute_content_id(data);
        match maybe_genesis_cid {
            Some(genesis) => Ok(SaveResult { genesis_cid: to_owned_string(genesis), version_cid: Some(cid), created: false }),
            None => Ok(SaveResult { genesis_cid: cid, version_cid: None, created: true }),
        }
    }

    fn fetch_payload_by_cid(&self, payload_cid: &str) -> (r: Result<Vec<u8>, String>)
        ensures
            r matches Ok(d) && d@.len() == 0,
    {
        Ok(Vec::new())
    }

    fn fetch_latest_by_genesis(&self, genesis_cid: &str) -> (r: Result<Option<Vec<u8>>, String>)
        ensures
            r matches Ok(o) && o is None,
    {
        Ok(None)
    }
}

/// A read of a content's latest version gives back what the last save of
/// it wrote, whether that save created the content or updated it.
pub proof fn law_latest_after_save(s: StoreState, genesis: Option<Seq<char>>, data: Seq<u8>)
    ensures
        latest_payload(
            saved(s, genesis, data),
            match genesis {
                Some(g) => g,
                None => payload_cid(data),
            },
        ) == Some(data),
{
}

/// A payload, once saved, can be read back by its id.
pub proof fn law_payload_after_save(s: StoreState, genesis: Option<Seq<char>>, data: Seq<u8>)
    ensures
        saved(s, genesis, data).payloads.contains_key(payload_cid(data)),
        saved(s, genesis, data).payloads[payload_cid(data)] == data,
{
}

} // verus!
