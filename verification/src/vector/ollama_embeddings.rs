//! Where the Ollama embedding server is reached.
use vstd::prelude::*;
use crate::text::{concat, decimal, owned, u64_decimal};

verus! {

/// The Ollama server and model.
#[derive(Debug, Clone)]
pub struct OllamaConfig {
    pub host: String,
    pub port: u16,
    pub model: String,
    pub timeout_seconds: u64,
}

impl Default for OllamaConfig {
    /// `localhost:11434`, model `nomic-embed-text`, 30 seconds.
    fn default() -> (r: Self)
        ensures
            r.host@ == "localhost"@,
            r.port == 11434,
            r.model@ == "nomic-embed-text"@,
            r.timeout_seconds == 30,
    {
        OllamaConfig { host: owned("localhost"), port: 11434, model: owned("nomic-embed-text"), timeout_seconds: 30 }
    }
}

impl OllamaConfig {
    /// The address of an API endpoint: `http://<host>:<port>/api/<endpoint>`.
    pub fn build_url(&self, endpoint: &str) -> (r: String)
        ensures
            r@ == "http://"@ + self.host@ + ":"@ + decimal(self.port as nat) + "/api/"@ + endpoint@,
    {
        let mut u = concat("http://", self.host.as_str());
        u = concat(u.as_str(), ":");
        u = concat(u.as_str(), u64_decimal(self.port as u64).as_str());
        u = concat(u.as_str(), "/api/");
        concat(u.as_str(), endpoint)
    }
}

} // verus!
