//! The per-server runtime configuration: loaded once at startup, then shared
//! read-only by every connection the server handles.

use vstd::prelude::*;

verus! {

/// Settings of a static-file server: the document root and the file served
/// for the root path.
#[derive(Clone, Debug)]
pub struct StaticConfig {
    pub webroot: String,
    pub index: String,
}

/// Settings of a reverse-proxy server: the single fixed backend and the
/// header-rewrite switches.
#[derive(Clone, Debug)]
pub struct ProxyConfig {
    /// Backend as `host[:port]`, optionally prefixed with `http://`.
    pub backend: String,
    /// Rewrite every `Host:` request line before forwarding.
    pub modify_host: bool,
    /// The host name written into rewritten `Host:` lines.
    pub header_host: String,
    /// Rewrite the first `Server:` line of the backend response.
    pub modify_server: bool,
}

/// One virtual server as it exists at runtime. Exactly one of the two
/// optional sections is expected to match `server_type`; when the matching
/// one is absent, dispatch answers with an internal-error response instead
/// of failing.
#[derive(Clone, Debug)]
pub struct ServerConfig {
    /// Address the listening socket binds to.
    pub bind_address: String,
    /// Port the listening socket binds to.
    pub bind_port: u16,
    /// Selects the behavior: `"static"`, `"proxy"`, or unsupported.
    pub server_type: String,
    pub static_config: Option<StaticConfig>,
    pub proxy_config: Option<ProxyConfig>,
}

} // verus!
