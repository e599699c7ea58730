//! The client side: its configuration, the tunnels it holds, and the
//! decisions of its control and proxy connections.
pub mod control;
pub mod proxy;

use crate::strmap::StrMap;
use crate::text::{concat3, decimal, u64_to_string};
use vstd::prelude::*;

verus! {

/// The client's configuration file.
#[derive(Debug)]
pub struct Config {
    pub server_host: String,
    pub server_port: u16,
    pub tunnel_list: Vec<TunnelConfig>,
    pub so_timeout: Option<u64>,
    pub ping_time: Option<u64>,
    pub auth_token: String,
    pub use_ssl: Option<bool>,
}

/// One tunnel that the client asks for, and the local service behind it.
#[derive(Debug)]
pub struct TunnelConfig {
    pub protocol: String,
    pub hostname: Option<String>,
    pub subdomain: Option<String>,
    pub remote_port: Option<u16>,
    pub local_host: String,
    pub local_port: u16,
}

/// A tunnel that the server has opened for the client.
#[derive(Debug)]
pub struct Tunnel {
    pub public_url: String,
    pub protocol: String,
    pub local_addr: String,
}

impl View for Tunnel {
    /// Public URL, protocol and local address, as characters.
    type V = (Seq<char>, Seq<char>, Seq<char>);

    open spec fn view(&self) -> (Seq<char>, Seq<char>, Seq<char>) {
        (self.public_url@, self.protocol@, self.local_addr@)
    }
}

/// The address `host:port` of a local service.
pub open spec fn local_addr_of(host: Seq<char>, port: u16) -> Seq<char> {
    host + ":"@ + decimal(port as nat)
}

impl TunnelConfig {
    /// The address of the local service behind this tunnel, `host:port`.
    pub fn local_addr(&self) -> (res: String)
        ensures
            res@ == local_addr_of(self.local_host@, self.local_port),
    {
        let port = u64_to_string(self.local_port as u64);
        concat3(self.local_host.as_str(), ":", port.as_str())
    }
}

/// The settings of a running client, with the defaults filled in, and the
/// tunnels that the server has opened for it, by public URL.
pub struct Context {
    pub server_host: String,
    pub server_port: u16,
    pub tunnel_list: Vec<TunnelConfig>,
    pub tunnel_map: StrMap<Tunnel>,
    pub so_timeout: u64,
    pub ping_time: u64,
    pub auth_token: String,
    pub use_ssl: bool,
}

/// Seconds of silence after which a connection is given up, unless configured.
pub const DEFAULT_SO_TIMEOUT: u64 = 28800;

/// Seconds between pings on the control connection, unless configured.
pub const DEFAULT_PING_TIME: u64 = 10;

impl Context {
    /// The settings that `cfg` gives, with the defaults for what it leaves
    /// out, and no tunnel yet.
    pub fn new(cfg: Config) -> (res: Self)
        ensures
            res.server_host == cfg.server_host,
            res.server_port == cfg.server_port,
            res.tunnel_list == cfg.tunnel_list,
            res.auth_token == cfg.auth_token,
            res.so_timeout == (match cfg.so_timeout {
                Some(t) => t,
                None => DEFAULT_SO_TIMEOUT,
            }),
            res.ping_time == (match cfg.ping_time {
                Some(t) => t,
                None => DEFAULT_PING_TIME,
            }),
            res.use_ssl == (match cfg.use_ssl {
                Some(b) => b,
                None => false,
            }),
            res.tunnel_map@ == Map::<Seq<char>, (Seq<char>, Seq<char>, Seq<char>)>::empty(),
    {
        Context {
            server_host: cfg.server_host,
            server_port: cfg.server_port,
            tunnel_list: cfg.tunnel_list,
            auth_token: cfg.auth_token,
            so_timeout: match cfg.so_timeout {
                Some(t) => t,
                None => DEFAULT_SO_TIMEOUT,
            },
            ping_time: match cfg.ping_time {
                Some(t) => t,
                None => DEFAULT_PING_TIME,
            },
            use_ssl: match cfg.use_ssl {
                Some(b) => b,
                None => false,
            },
            tunnel_map: StrMap::new(),
        }
    }
}

/// A local address is the host, then `:`, then the port in decimal digits.
pub proof fn lemma_local_addr_parts(host: Seq<char>, port: u16)
    ensures
        local_addr_of(host, port).take(host.len() as int) == host,
        local_addr_of(host, port)[host.len() as int] == ':',
        local_addr_of(host, port).skip(host.len() + 1int) == decimal(port as nat),
{
    reveal_strlit(":");
    let a = local_addr_of(host, port);
    assert(a.take(host.len() as int) =~= host);
    assert(a.skip(host.len() + 1int) =~= decimal(port as nat));
}

} // verus!
