//! The server side: its configuration, the tunnels it has opened and the
//! decisions of its control, proxy and public connections.
pub mod http;
pub mod tunnel;

use crate::strmap::StrMap;
use crate::text::string_of;
use vstd::prelude::*;

verus! {

/// The server's configuration file.
#[derive(Debug)]
pub struct Config {
    pub domain: String,
    pub port: u16,
    pub http_port: Option<u16>,
    pub https_port: Option<u16>,
    pub ssl_crt: Option<String>,
    pub ssl_key: Option<String>,
    pub so_timeout: Option<u64>,
    pub ping_timeout: Option<u64>,
}

impl Default for Config {
    /// The configuration of a server without a configuration file.
    fn default() -> (res: Self)
        ensures
            res.domain@ == "ngrok.com"@,
            res.port == 4443,
            res.http_port == Some(80u16),
            res.https_port == Some(443u16),
            res.ssl_crt is None,
            res.ssl_key is None,
            res.so_timeout is None,
            res.ping_timeout is None,
    {
        Config {
            domain: string_of("ngrok.com"),
            port: 4443,
            http_port: Some(80),
            https_port: Some(443),
            ssl_crt: None,
            ssl_key: None,
            so_timeout: None,
            ping_timeout: None,
        }
    }
}

/// Seconds of silence after which a connection is given up, unless configured.
pub const DEFAULT_SO_TIMEOUT: u64 = 28800;

/// Seconds without a message after which a control connection is given up,
/// unless configured.
pub const DEFAULT_PING_TIMEOUT: u64 = 120;

/// The settings of a running server, with the defaults filled in, and the
/// open tunnels: the id of the client behind each public URL.
pub struct Context {
    pub domain: String,
    pub port: u16,
    pub http_port: Option<u16>,
    pub https_port: Option<u16>,
    pub ssl_crt: Option<String>,
    pub ssl_key: Option<String>,
    pub so_timeout: u64,
    pub ping_timeout: u64,
    pub tunnel_map: StrMap<String>,
}

impl Context {
    /// The certificate and key files to read, when both are configured.
    pub fn ssl_files(&self) -> (res: Option<(&String, &String)>)
        ensures
            match (self.ssl_crt, self.ssl_key) {
                (Some(c), Some(k)) => res == Some((&c, &k)),
                _ => res is None,
            },
    {
        match (&self.ssl_crt, &self.ssl_key) {
            (Some(c), Some(k)) => Some((c, k)),
            _ => None,
        }
    }

    /// The settings that `cfg` gives, with the defaults for what it leaves
    /// out, and no tunnel yet.
    pub fn new(cfg: Config) -> (res: Self)
        ensures
            res.domain == cfg.domain,
            res.port == cfg.port,
            res.http_port == cfg.http_port,
            res.https_port == cfg.https_port,
            res.ssl_crt == cfg.ssl_crt,
            res.ssl_key == cfg.ssl_key,
            res.so_timeout == (match cfg.so_timeout {
                Some(t) => t,
                None => DEFAULT_SO_TIMEOUT,
            }),
            res.ping_timeout == (match cfg.ping_timeout {
                Some(t) => t,
                None => DEFAULT_PING_TIMEOUT,
            }),
            res.tunnel_map@ == Map::<Seq<char>, Seq<char>>::empty(),
    {
        Context {
            domain: cfg.domain,
            port: cfg.port,
            http_port: cfg.http_port,
            https_port: cfg.https_port,
            ssl_crt: cfg.ssl_crt,
            ssl_key: cfg.ssl_key,
            so_timeout: match cfg.so_timeout {
                Some(t) => t,
                None => DEFAULT_SO_TIMEOUT,
            },
            ping_timeout: match cfg.ping_timeout {
                Some(t) => t,
                None => DEFAULT_PING_TIMEOUT,
            },
            tunnel_map: StrMap::new(),
        }
    }
}

} // verus!
