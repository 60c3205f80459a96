//! Where the ChromaDB server is reached.
use vstd::prelude::*;
use crate::text::{concat, decimal, owned, u64_decimal};

verus! {

/// The ChromaDB server and collection.
#[derive(Debug, Clone)]
pub struct ChromaDBConfig {
    pub host: String,
    pub port: u16,
    pub collection_name: String,
}

impl Default for ChromaDBConfig {
    /// `localhost:8000`, collection `mindcortex`.
    fn default() -> (r: Self)
        ensures
            r.host@ == "localhost"@,
            r.port == 8000,
            r.collection_name@ == "mindcortex"@,
    {
        ChromaDBConfig { host: owned("localhost"), port: 8000, collection_name: owned("mindcortex") }
    }
}

impl ChromaDBConfig {
    /// The address of an API path on the server:
    /// `http://<host>:<port><path>`.
    pub fn build_url(&self, path: &str) -> (r: String)
        ensures
            r@ == "http://"@ + self.host@ + ":"@ + decimal(self.port as nat) + path@,
    {
        let mut u = concat("http://", self.host.as_str());
        u = concat(u.as_str(), ":");
        u = concat(u.as_str(), u64_decimal(self.port as u64).as_str());
        concat(u.as_str(), path)
    }
}

} // verus!
