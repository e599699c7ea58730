//! The decisions of a connection to the server's tunnel port: what its first
//! message makes of it, what a control connection does with each message,
//! which public URL a tunnel gets, and the messages the server sends.
use crate::msg::{AuthResp, Message, NewTunnel, Pong, ReqProxy, ReqTunnel, StartProxy};
use crate::strmap::{without_value, StrMap};
use crate::text::{concat3, concat4, decimal, str_eq, string_of, u64_to_string};
use crate::util::{is_alphanumeric, rand_id};
use vstd::prelude::*;

verus! {

/// What a new connection to the tunnel port becomes, by its first message.
#[derive(Debug)]
pub enum HandlerAction {
    /// A control connection of a new client.
    Control,
    /// A proxy connection of the client with this id.
    Proxy(String),
    /// Nothing: the connection is closed.
    Close,
}

/// `Auth` opens a control connection, `RegProxy` a proxy connection for its
/// client; any other first message closes the connection.
pub fn first_message_action(msg: Message) -> (res: HandlerAction)
    ensures
        match msg {
            Message::Auth(_) => res is Control,
            Message::RegProxy(r) => res == HandlerAction::Proxy(r.client_id),
            _ => res is Close,
        },
{
    match msg {
        Message::Auth(_) => HandlerAction::Control,
        Message::RegProxy(r) => HandlerAction::Proxy(r.client_id),
        _ => HandlerAction::Close,
    }
}

/// What a control connection does with a message of its client.
#[derive(Debug)]
pub enum ControlStep {
    /// Opens the tunnel that is asked for.
    RegisterTunnel(ReqTunnel),
    /// Answers with `Pong`.
    Pong,
    /// Reads on.
    Ignore,
}

/// `ReqTunnel` asks for a tunnel, `Ping` for a `Pong`; anything else is
/// passed over.
pub fn control_step(msg: Message) -> (res: ControlStep)
    ensures
        match msg {
            Message::ReqTunnel(r) => res == ControlStep::RegisterTunnel(r),
            Message::Ping(_) => res is Pong,
            _ => res is Ignore,
        },
{
    match msg {
        Message::ReqTunnel(r) => ControlStep::RegisterTunnel(r),
        Message::Ping(_) => ControlStep::Pong,
        _ => ControlStep::Ignore,
    }
}

/// The tunnel asks for a random subdomain: it is for HTTP(S) and names
/// neither a hostname nor a subdomain.
pub open spec fn needs_random_subdomain(req: ReqTunnel) -> bool {
    (req.protocol@ == "http"@ || req.protocol@ == "https"@) && req.hostname is None
        && req.subdomain is None
}

/// The public URL of the tunnel that `req` asks for, on a server for
/// `domain`, with `random` as subdomain where one is made up: for TCP
/// `tcp://domain:port`; for HTTP(S) `protocol://hostname`, else
/// `protocol://subdomain.domain`, else `protocol://random.domain`; none for
/// any other protocol.
pub open spec fn tunnel_url_of(req: ReqTunnel, domain: Seq<char>, random: Seq<char>) -> Option<
    Seq<char>,
> {
    if req.protocol@ == "tcp"@ {
        Some("tcp://"@ + domain + ":"@ + decimal(req.remote_port.unwrap() as nat))
    } else if req.protocol@ == "http"@ || req.protocol@ == "https"@ {
        match req.hostname {
            Some(h) => Some(req.protocol@ + "://"@ + h@),
            None => match req.subdomain {
                Some(s) => Some(req.protocol@ + "://"@ + s@ + "."@ + domain),
                None => Some(req.protocol@ + "://"@ + random + "."@ + domain),
            },
        }
    } else {
        None
    }
}

/// The characters of an optional string.
pub open spec fn opt_view(s: Option<String>) -> Option<Seq<char>> {
    match s {
        Some(x) => Some(x@),
        None => None,
    }
}

/// The public URL of the tunnel that `req` asks for, `random` standing for
/// the subdomain that is made up when one is needed. A TCP tunnel must name
/// its port.
pub fn tunnel_url_with(req: &ReqTunnel, domain: &str, random: &str) -> (res: Option<String>)
    requires
        req.protocol@ == "tcp"@ ==> req.remote_port is Some,
    ensures
        opt_view(res) == tunnel_url_of(*req, domain@, random@),
{
    let protocol = req.protocol.as_str();
    if str_eq(protocol, "tcp") {
        let port = u64_to_string(req.remote_port.unwrap() as u64);
        Some(concat4("tcp://", domain, ":", port.as_str()))
    } else if str_eq(protocol, "http") || str_eq(protocol, "https") {
        match &req.hostname {
            Some(h) => Some(concat3(protocol, "://", h.as_str())),
            None => {
                let sub = match &req.subdomain {
                    Some(s) => s.as_str(),
                    None => random,
                };
                let mut url = concat4(protocol, "://", sub, ".");
                url.append(domain);
                Some(url)
            },
        }
    } else {
        None
    }
}

/// The public URL of the tunnel that `req` asks for, with a random subdomain
/// of six letters and digits where one is needed. A TCP tunnel must name its
/// port.
pub fn tunnel_url(req: &ReqTunnel, domain: &str) -> (res: Option<String>)
    requires
        req.protocol@ == "tcp"@ ==> req.remote_port is Some,
    ensures
        exists|random: Seq<char>|
            #![trigger tunnel_url_of(*req, domain@, random)]
            random.len() == 6 && (forall|i: int| 0 <= i < 6 ==> is_alphanumeric(#[trigger] random[i]))
                && opt_view(res) == tunnel_url_of(*req, domain@, random),
{
    if needs_random(req) {
        let random = rand_id(6);
        tunnel_url_with(req, domain, random.as_str())
    } else {
        let res = tunnel_url_with(req, domain, "");
        proof {
            let r = seq!['0', '0', '0', '0', '0', '0'];
            assert(tunnel_url_of(*req, domain@, ""@) == tunnel_url_of(*req, domain@, r));
        }
        res
    }
}

/// Whether `req` needs a made-up subdomain.
fn needs_random(req: &ReqTunnel) -> (res: bool)
    ensures
        res == needs_random_subdomain(*req),
{
    let protocol = req.protocol.as_str();
    (str_eq(protocol, "http") || str_eq(protocol, "https")) && req.hostname.is_none()
        && req.subdomain.is_none()
}

/// The server's answer to a log-in: protocol `2`, version `1.7`, the new
/// client id, no error.
pub fn auth_resp(client_id: String) -> (res: Message)
    ensures
        res matches Message::AuthResp(a) && {
            &&& opt_view(a.version) == Some("2"@)
            &&& opt_view(a.mm_version) == Some("1.7"@)
            &&& a.client_id == Some(client_id)
            &&& a.error is None
        },
{
    Message::AuthResp(
        AuthResp {
            version: Some(string_of("2")),
            mm_version: Some(string_of("1.7")),
            client_id: Some(client_id),
            error: None,
        },
    )
}

/// The request for a new proxy connection.
pub fn req_proxy() -> (res: Message)
    ensures
        res is ReqProxy,
{
    Message::ReqProxy(ReqProxy {  })
}

/// The message that starts relaying the public connection from
/// `client_addr` to the tunnel at `url`.
pub fn start_proxy(url: String, client_addr: String) -> (res: Message)
    ensures
        res matches Message::StartProxy(s) && s.url == url && s.client_addr == client_addr,
{
    Message::StartProxy(StartProxy { url, client_addr })
}

/// The answer that a tunnel is open.
pub fn new_tunnel(req_id: String, url: String, protocol: String) -> (res: Message)
    ensures
        res matches Message::NewTunnel(n) && {
            &&& n.req_id == Some(req_id)
            &&& n.url == Some(url)
            &&& n.protocol == Some(protocol)
            &&& n.error is None
        },
{
    Message::NewTunnel(
        NewTunnel { req_id: Some(req_id), url: Some(url), protocol: Some(protocol), error: None },
    )
}

/// The answer to a ping.
pub fn pong() -> (res: Message)
    ensures
        res is Pong,
{
    Message::Pong(Pong {  })
}

/// Opens the tunnel at `url` for the client `client_id`, and gives the
/// answer to its request `req_id`.
pub fn open_tunnel(
    tunnel_map: &mut StrMap<String>,
    client_id: String,
    req_id: String,
    url: String,
    protocol: String,
) -> (res: Message)
    ensures
        final(tunnel_map)@ == old(tunnel_map)@.insert(url@, client_id@),
        res matches Message::NewTunnel(n) && {
            &&& n.req_id == Some(req_id)
            &&& n.url == Some(url)
            &&& n.protocol == Some(protocol)
            &&& n.error is None
        },
{
    tunnel_map.insert(url.clone(), client_id);
    new_tunnel(req_id, url, protocol)
}

/// Closes every tunnel of the client `client_id`, whose control connection
/// has ended; the tunnels of other clients stay.
pub fn forget_client(tunnel_map: &mut StrMap<String>, client_id: &str)
    ensures
        final(tunnel_map)@ == without_value(old(tunnel_map)@, client_id@),
{
    tunnel_map.remove_value(client_id);
}

/// A tunnel opened for a client routes to that client, and stays open when
/// another client leaves; once its own client leaves, no tunnel of that
/// client is left.
pub proof fn lemma_tunnel_routes_until_client_leaves(
    m: Map<Seq<char>, Seq<char>>,
    url: Seq<char>,
    client: Seq<char>,
    other: Seq<char>,
)
    requires
        other != client,
    ensures
        m.insert(url, client)[url] == client,
        without_value(m.insert(url, client), other).contains_key(url),
        without_value(m.insert(url, client), other)[url] == client,
        forall|u: Seq<char>|
            #[trigger] without_value(m.insert(url, client), client).contains_key(u) ==> without_value(
                m.insert(url, client),
                client,
            )[u] != client,
        !without_value(m.insert(url, client), client).contains_key(url),
{
}

/// When a client leaves, the tunnels of every other client stay as they were.
pub proof fn lemma_forget_client_keeps_others(m: Map<Seq<char>, Seq<char>>, client: Seq<char>, url: Seq<char>)
    requires
        m.contains_key(url),
        m[url] != client,
    ensures
        without_value(m, client).contains_key(url),
        without_value(m, client)[url] == m[url],
{
}

/// An HTTP(S) tunnel's URL begins with the requested protocol and `://`; a
/// TCP tunnel's with `tcp://`; any other protocol gets none.
pub proof fn lemma_tunnel_url_scheme(req: ReqTunnel, domain: Seq<char>, random: Seq<char>)
    ensures
        (req.protocol@ == "http"@ || req.protocol@ == "https"@) ==> (tunnel_url_of(req, domain, random) matches Some(u)
            && u.len() >= req.protocol@.len() + 3 && u.take(req.protocol@.len() + 3int) == req.protocol@
            + "://"@),
        req.protocol@ == "tcp"@ ==> (tunnel_url_of(req, domain, random) matches Some(u) && u.len() >= 6
            && u.take(6) == "tcp://"@),
        !(req.protocol@ == "http"@ || req.protocol@ == "https"@ || req.protocol@ == "tcp"@)
            ==> tunnel_url_of(req, domain, random) is None,
{
    reveal_strlit("http");
    reveal_strlit("https");
    reveal_strlit("tcp");
    reveal_strlit("tcp://");
    reveal_strlit("://");
    reveal_strlit(":");
    match tunnel_url_of(req, domain, random) {
        Some(u) => {
            if req.protocol@ == "tcp"@ {
                assert(u.take(6) =~= "tcp://"@);
            } else {
                let p = req.protocol@ + "://"@;
                assert(u.take(p.len() as int) =~= p);
            }
        },
        None => {},
    }
}

/// An HTTP(S) tunnel that names a hostname is at `protocol://hostname`,
/// whatever its subdomain, the domain and the random subdomain; one that
/// names only a subdomain is at `protocol://subdomain.domain`; one that
/// names neither is at `protocol://random.domain`.
pub proof fn lemma_tunnel_url_http_host(req: ReqTunnel, domain: Seq<char>, random: Seq<char>)
    requires
        req.protocol@ == "http"@ || req.protocol@ == "https"@,
    ensures
        req.hostname matches Some(h) ==> tunnel_url_of(req, domain, random) == Some(
            req.protocol@ + "://"@ + h@,
        ),
        req.hostname is None ==> match req.subdomain {
            Some(s) => tunnel_url_of(req, domain, random) == Some(
                req.protocol@ + "://"@ + s@ + "."@ + domain,
            ),
            None => true,
        },
        (req.hostname is None && req.subdomain is None) ==> tunnel_url_of(req, domain, random)
            == Some(req.protocol@ + "://"@ + random + "."@ + domain),
{
    reveal_strlit("http");
    reveal_strlit("https");
    reveal_strlit("tcp");
}

/// Two requests that differ only in protocol, one `http` and one `https`,
/// get URLs that differ only in that scheme.
pub proof fn lemma_tunnel_url_scheme_only_differs(a: ReqTunnel, b: ReqTunnel, domain: Seq<char>, random: Seq<char>)
    requires
        a.protocol@ == "http"@,
        b.protocol@ == "https"@,
        a.hostname == b.hostname,
        a.subdomain == b.subdomain,
    ensures
        tunnel_url_of(a, domain, random) matches Some(u) && tunnel_url_of(b, domain, random) matches Some(v)
            && u.skip(4) == v.skip(5) && u.take(4) == "http"@ && v.take(5) == "https"@,
{
    reveal_strlit("http");
    reveal_strlit("https");
    reveal_strlit("tcp");
    let u = tunnel_url_of(a, domain, random).unwrap();
    let v = tunnel_url_of(b, domain, random).unwrap();
    assert(u.skip(4) =~= v.skip(5));
    assert(u.take(4) =~= "http"@);
    assert(v.take(5) =~= "https"@);
}

/// A TCP tunnel is at `tcp://domain:port`, with the port it asks for, in
/// decimal, whatever its hostname, subdomain and the random subdomain.
pub proof fn lemma_tunnel_url_tcp(req: ReqTunnel, domain: Seq<char>, random: Seq<char>, port: u16)
    requires
        req.protocol@ == "tcp"@,
        req.remote_port == Some(port),
    ensures
        tunnel_url_of(req, domain, random) == Some("tcp://"@ + domain + ":"@ + decimal(port as nat)),
{
}

} // verus!
