//! Per-request sessions, the hashed user id, and the registry-pointer
//! change test driving the background reload.

use vstd::prelude::*;
use crate::config::LocalGatewayConfig;
use crate::hashing::{blake3_hash, blake3_of, hex_encode, hex_of};
use crate::multipart_manager::MultipartManager;
use crate::registry::BucketManager;
use crate::store::MemoryBlockStore;
use crate::text::str_eq;
use vstd::string::StringSliceAdditionalSpecFns;

verus! {

/// The hashed form of a user id: the first 16 bytes of the BLAKE3 digest
/// of `"fula:user_id:"` followed by the id, in lowercase hexadecimal.
pub open spec fn spec_hash_user_id(user_bytes: Seq<u8>) -> Seq<char> {
    hex_of(blake3_of(("fula:user_id:").spec_bytes() + user_bytes).take(16))
}

/// Hash a user id for privacy, with domain separation.
pub fn hash_user_id(user_id: &str) -> (r: String)
    ensures
        r@ == spec_hash_user_id(user_id.spec_bytes()),
{
    let prefix = "fula:user_id:";
    let mut data: Vec<u8> = prefix.as_bytes_vec();
    data.extend_from_slice(user_id.as_bytes());
    let digest = blake3_hash(data.as_slice());
    proof {
        assert(data@ == ("fula:user_id:").spec_bytes() + user_id.spec_bytes());
        assert(digest@.subrange(0, 16) =~= blake3_of(data@).take(16));
    }
    hex_encode(&digest[0..16])
}

/// The session the auth layer attaches to each request.
#[derive(Clone, Debug)]
pub struct LocalSession {
    pub hashed_user_id: String,
    pub display_name: String,
}

impl LocalSession {
    pub fn can_read(&self) -> (r: bool)
        ensures
            r == true,
    {
        true
    }

    pub fn can_write(&self) -> (r: bool)
        ensures
            r == true,
    {
        true
    }
}

/// The registry pointer as last read: its trimmed content, or nothing when
/// the file is missing or blank.
pub open spec fn spec_cid_changed(last: Option<Seq<char>>, current: Option<Seq<char>>) -> bool {
    match (last, current) {
        (None, None) => false,
        (Some(a), Some(b)) => a != b,
        _ => true,
    }
}

/// Whether a newly read registry pointer differs from the last one seen,
/// counting appearance and disappearance as changes.
pub fn cid_file_changed(last: &Option<String>, current: &Option<String>) -> (r: bool)
    ensures
        r == spec_cid_changed(
            match last {
                Some(s) => Some(s@),
                None => None,
            },
            match current {
                Some(s) => Some(s@),
                None => None,
            },
        ),
{
    match (last, current) {
        (None, None) => false,
        (Some(a), Some(b)) => !str_eq(a.as_str(), b.as_str()),
        _ => true,
    }
}


/// Application state shared across handlers.
#[derive(Debug)]
pub struct AppState {
    /// Gateway configuration
    pub config: LocalGatewayConfig,
    /// Block store
    pub block_store: MemoryBlockStore,
    /// Bucket manager
    pub bucket_manager: BucketManager,
    /// Multipart upload manager
    pub multipart_manager: MultipartManager,
}

impl AppState {
    pub open spec fn wf(self) -> bool {
        &&& self.block_store.wf()
        &&& self.bucket_manager.wf()
        &&& self.multipart_manager.wf()
    }

    /// Fresh state for a configuration.
    pub fn new(config: LocalGatewayConfig) -> (r: AppState)
        ensures
            r.wf(),
            r.block_store.blocks@.len() == 0,
            r.bucket_manager.users@.len() == 0,
            r.multipart_manager.uploads@.len() == 0,
            r.multipart_manager.expiry_secs == config.multipart_expiry_secs,
            r.config == config,
    {
        let expiry = config.multipart_expiry_secs;
        AppState {
            config,
            block_store: MemoryBlockStore::new(),
            bucket_manager: BucketManager::new(),
            multipart_manager: MultipartManager::new(expiry),
        }
    }
}

} // verus!
