//! Gateway configuration, immutable after startup.

use vstd::prelude::*;
use crate::text::{push_u64, spec_dec};

verus! {

/// Configuration for the local S3 gateway.
#[derive(Clone, Debug)]
pub struct LocalGatewayConfig {
    /// Host to bind to
    pub host: String,
    /// Port to listen on
    pub port: u16,
    /// Block-store API endpoint
    pub ipfs_url: String,
    /// Path of the registry-pointer file
    pub registry_cid_path: Option<String>,
    /// Path of the pairing-properties file
    pub box_props_file: Option<String>,
    /// Hashed owner id taken from the pairing properties
    pub owner_id: Option<String>,
    /// Bearer secret for request authentication
    pub bearer_secret: Option<String>,
    /// Maximum request body size in bytes
    pub max_body_size: u64,
    /// Multipart upload expiry in seconds
    pub multipart_expiry_secs: u64,
}

impl Default for LocalGatewayConfig {
    fn default() -> (r: LocalGatewayConfig)
        ensures
            r.host@ == "0.0.0.0"@,
            r.port == 9000,
            r.ipfs_url@ == "http://127.0.0.1:5001"@,
            r.registry_cid_path matches Some(p) && p@ == "/internal/fula-gateway/registry.cid"@,
            r.box_props_file matches Some(p) && p@ == "/internal/box_props.json"@,
            r.owner_id is None,
            r.bearer_secret is None,
            r.max_body_size == 5368709120,
            r.multipart_expiry_secs == 86400,
    {
        LocalGatewayConfig {
            host: ("0.0.0.0").to_owned(),
            port: 9000,
            ipfs_url: ("http://127.0.0.1:5001").to_owned(),
            registry_cid_path: Some(("/internal/fula-gateway/registry.cid").to_owned()),
            box_props_file: Some(("/internal/box_props.json").to_owned()),
            owner_id: None,
            bearer_secret: None,
            max_body_size: 5368709120,
            multipart_expiry_secs: 86400,
        }
    }
}

impl LocalGatewayConfig {
    /// The `host:port` address to bind.
    pub fn bind_addr(&self) -> (r: String)
        ensures
            r@ == self.host@ + ":"@ + spec_dec(self.port as nat),
    {
        let mut s = self.host.clone();
        s.append(":");
        push_u64(&mut s, self.port as u64);
        s
    }
}

} // verus!
