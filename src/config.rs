//! Settings of the server and of the page, read from the configuration file.
use vstd::prelude::*;

verus! {

/// Both halves of the configuration file.
#[derive(Clone, Debug, PartialEq, Eq)]
pub struct Config {
    pub backend_config: BackendConfig,
    pub frontend_config: FrontendConfig,
}

/// The server's settings.
#[derive(Clone, Debug, PartialEq, Eq)]
pub struct BackendConfig {
    /// Address the web server binds to.
    pub web_bind_addr: String,
    pub web_port: u16,
    pub web_tls_enabled: bool,
    pub web_tls_certs: String,
    pub web_tls_key: String,
    pub web_tls_ca_cert: String,
    /// Serve the page and its assets.
    pub web_serve_page: bool,
    /// Serve the rendezvous API.
    pub web_serve_api: bool,
    /// How long one long poll waits for the answer, in milliseconds.
    pub poll_timeout_ms: u32,
    /// How long an idle session lives, in seconds.
    pub session_ttl_s: u32,
}

/// The page's settings.
#[derive(Clone, Debug, PartialEq, Eq)]
pub struct FrontendConfig {
    /// Where the page finds the rendezvous API.
    pub api_address: String,
}

} // verus!
