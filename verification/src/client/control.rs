//! The decisions of the client's control connection: the messages it sends,
//! what the server's log-in answer means, and what each later message does.
use super::{local_addr_of, Tunnel, TunnelConfig};
use crate::msg::{Auth, AuthResp, Message, Ping, ReqTunnel};
use crate::strmap::StrMap;
use crate::text::{clone_opt_string, string_of};
use crate::util::{is_alphanumeric, rand_id};
use vstd::prelude::*;

verus! {

/// The client's log-in message, carrying its auth token as the user.
pub fn auth(auth_token: String) -> (res: Message)
    ensures
        res matches Message::Auth(a) && {
            &&& a.version@ == "2"@
            &&& a.mm_version@ == "1.7"@
            &&& a.user == auth_token
            &&& a.password@ == ""@
            &&& a.os@ == "darwin"@
            &&& a.arch@ == "amd64"@
            &&& a.client_id@ == ""@
        },
{
    Message::Auth(
        Auth {
            version: string_of("2"),
            mm_version: string_of("1.7"),
            user: auth_token,
            password: string_of(""),
            os: string_of("darwin"),
            arch: string_of("amd64"),
            client_id: string_of(""),
        },
    )
}

/// The request for `tunnel` under the request id `req_id`.
pub open spec fn is_req_tunnel_for(m: Message, tunnel: TunnelConfig, req_id: String) -> bool {
    m matches Message::ReqTunnel(r) && {
        &&& r.req_id == req_id
        &&& r.protocol == tunnel.protocol
        &&& r.hostname == tunnel.hostname
        &&& r.subdomain == tunnel.subdomain
        &&& r.http_auth@ == ""@
        &&& r.remote_port == tunnel.remote_port
    }
}

/// The message that asks the server for `tunnel`, under `req_id`.
pub fn req_tunnel(tunnel: TunnelConfig, req_id: String) -> (res: Message)
    ensures
        is_req_tunnel_for(res, tunnel, req_id),
{
    Message::ReqTunnel(
        ReqTunnel {
            req_id,
            protocol: tunnel.protocol,
            hostname: tunnel.hostname,
            subdomain: tunnel.subdomain,
            http_auth: string_of(""),
            remote_port: tunnel.remote_port,
        },
    )
}

/// The message that keeps the control connection alive.
pub fn ping() -> (res: Message)
    ensures
        res is Ping,
{
    Message::Ping(Ping {  })
}

/// What the log-in answer says: the client id, or the server's error.
pub fn auth_outcome(resp: AuthResp) -> (res: Result<String, String>)
    requires
        resp.error is None ==> resp.client_id is Some,
    ensures
        match resp.error {
            Some(e) => res == Err::<String, String>(e),
            None => res == Ok::<String, String>(resp.client_id.unwrap()),
        },
{
    match resp.error {
        Some(e) => Err(e),
        None => Ok(resp.client_id.unwrap()),
    }
}

/// The local addresses of the tunnels that the requests ask for, by request
/// id: a later request replaces an earlier one with the same id.
pub open spec fn pending_of(reqs: Seq<Message>, tunnels: Seq<TunnelConfig>) -> Map<
    Seq<char>,
    Seq<char>,
>
    decreases reqs.len(),
{
    if reqs.len() == 0 || tunnels.len() == 0 {
        Map::empty()
    } else {
        let r = reqs.last();
        let t = tunnels.last();
        let rest = pending_of(reqs.drop_last(), tunnels.drop_last());
        match r {
            Message::ReqTunnel(q) => rest.insert(q.req_id@, local_addr_of(t.local_host@, t.local_port)),
            _ => rest,
        }
    }
}

/// `m` asks for `tunnel` under a random id of eight letters and digits.
pub open spec fn is_fresh_request(m: Message, tunnel: TunnelConfig) -> bool {
    m matches Message::ReqTunnel(r) && {
        &&& is_req_tunnel_for(m, tunnel, r.req_id)
        &&& r.req_id@.len() == 8
        &&& forall|j: int| 0 <= j < 8 ==> is_alphanumeric(#[trigger] r.req_id@[j])
    }
}

/// A copy of a tunnel's configuration.
fn copy_tunnel_config(t: &TunnelConfig) -> (res: TunnelConfig)
    ensures
        res == *t,
{
    TunnelConfig {
        protocol: t.protocol.clone(),
        hostname: clone_opt_string(&t.hostname),
        subdomain: clone_opt_string(&t.subdomain),
        remote_port: t.remote_port,
        local_host: t.local_host.clone(),
        local_port: t.local_port,
    }
}

/// The requests for all configured tunnels, each under a fresh random id of
/// eight letters and digits, and the local address of each, by request id.
pub fn request_tunnels(tunnels: &Vec<TunnelConfig>) -> (res: (Vec<Message>, StrMap<String>))
    ensures
        res.0@.len() == tunnels@.len(),
        forall|i: int|
            0 <= i < tunnels@.len() ==> is_fresh_request(#[trigger] res.0@[i], tunnels@[i]),
        res.1@ == pending_of(res.0@, tunnels@),
{
    let mut reqs: Vec<Message> = Vec::new();
    let mut pending: StrMap<String> = StrMap::new();
    let mut i: usize = 0;
    while i < tunnels.len()
        invariant
            i <= tunnels@.len(),
            reqs@.len() == i,
            forall|k: int|
                0 <= k < i ==> is_fresh_request(#[trigger] reqs@[k], tunnels@[k]),
            pending@ == pending_of(reqs@, tunnels@.take(i as int)),
        decreases tunnels@.len() - i,
    {
        let t = &tunnels[i];
        let req_id = rand_id(8);
        let addr = t.local_addr();
        pending.insert(req_id.clone(), addr);
        let m = req_tunnel(copy_tunnel_config(t), req_id);
        let ghost old_reqs = reqs@;
        reqs.push(m);
        proof {
            assert(reqs@.drop_last() =~= old_reqs);
            assert(tunnels@.take(i + 1).drop_last() =~= tunnels@.take(i as int));
            assert(tunnels@.take(i + 1).last() == tunnels@[i as int]);
        }
        i = i + 1;
    }
    proof {
        assert(tunnels@.take(i as int) =~= tunnels@);
    }
    (reqs, pending)
}

/// What the control connection does after a message from the server.
#[derive(Debug)]
pub enum ControlAction {
    /// Reads on.
    Continue,
    /// Opens a proxy connection to the server.
    SpawnProxy,
    /// A tunnel is open at this public URL; reads on.
    Established(String),
    /// The server could not open a tunnel, for this reason; the connection ends.
    TunnelFailed(String),
    /// The connection ends.
    Stop,
    /// Sends this message; reads on.
    Send(Message),
}

/// When no message came within the ping time, the control connection sends a
/// ping and reads on.
pub fn on_ping_timeout() -> (res: ControlAction)
    ensures
        res matches ControlAction::Send(m) && m is Ping,
{
    ControlAction::Send(ping())
}

/// A `NewTunnel` answer can be taken in: without an error it names its
/// request, and when that request is pending it names URL and protocol.
pub open spec fn new_tunnel_complete(pending: Map<Seq<char>, Seq<char>>, msg: Message) -> bool {
    match msg {
        Message::NewTunnel(nt) => nt.error is None ==> match nt.req_id {
            Some(id) => pending.contains_key(id@) ==> nt.url is Some && nt.protocol is Some,
            None => false,
        },
        _ => true,
    }
}

/// Takes in a message from the server. A `NewTunnel` with an error ends the
/// connection with that error; one for a request that is not pending ends
/// it; else the tunnel is recorded under its public URL, with the local
/// address of its request. `ReqProxy` asks for a proxy connection; anything
/// else is passed over.
pub fn on_message(pending: &StrMap<String>, tunnels: &mut StrMap<Tunnel>, msg: Message) -> (res:
    ControlAction)
    requires
        new_tunnel_complete(pending@, msg),
    ensures
        match msg {
            Message::NewTunnel(nt) => match nt.error {
                Some(e) => res == ControlAction::TunnelFailed(e) && final(tunnels)@ == old(
                    tunnels,
                )@,
                None => {
                    let id = nt.req_id.unwrap();
                    if pending@.contains_key(id@) {
                        let url = nt.url.unwrap();
                        &&& res == ControlAction::Established(url)
                        &&& final(tunnels)@ == old(tunnels)@.insert(
                            url@,
                            (url@, nt.protocol.unwrap()@, pending@[id@]),
                        )
                    } else {
                        res == ControlAction::Stop && final(tunnels)@ == old(tunnels)@
                    }
                },
            },
            Message::ReqProxy(_) => res == ControlAction::SpawnProxy && final(tunnels)@ == old(
                tunnels,
            )@,
            _ => res == ControlAction::Continue && final(tunnels)@ == old(tunnels)@,
        },
{
    match msg {
        Message::NewTunnel(nt) => {
            match nt.error {
                Some(e) => ControlAction::TunnelFailed(e),
                None => {
                    let id = nt.req_id.unwrap();
                    match pending.get(id.as_str()) {
                        None => ControlAction::Stop,
                        Some(addr) => {
                            let url = nt.url.unwrap();
                            let tunnel = Tunnel {
                                public_url: url.clone(),
                                protocol: nt.protocol.unwrap(),
                                local_addr: addr.clone(),
                            };
                            tunnels.insert(url.clone(), tunnel);
                            ControlAction::Established(url)
                        },
                    }
                },
            }
        },
        Message::ReqProxy(_) => ControlAction::SpawnProxy,
        _ => ControlAction::Continue,
    }
}

/// The request id that a message carries, for a tunnel request.
pub open spec fn req_id_of(m: Message) -> Seq<char> {
    match m {
        Message::ReqTunnel(r) => r.req_id@,
        _ => Seq::empty(),
    }
}

/// When the requests carry distinct ids, the answer to the request for the
/// `i`-th tunnel is taken in with the local address of that tunnel.
pub proof fn lemma_pending_answers(reqs: Seq<Message>, tunnels: Seq<TunnelConfig>, i: int)
    requires
        reqs.len() == tunnels.len(),
        0 <= i < reqs.len(),
        forall|k: int| 0 <= k < reqs.len() ==> #[trigger] reqs[k] is ReqTunnel,
        forall|a: int, b: int|
            0 <= a < b < reqs.len() ==> req_id_of(#[trigger] reqs[a]) != req_id_of(#[trigger] reqs[b]),
    ensures
        pending_of(reqs, tunnels).contains_key(req_id_of(reqs[i])),
        pending_of(reqs, tunnels)[req_id_of(reqs[i])] == local_addr_of(
            tunnels[i].local_host@,
            tunnels[i].local_port,
        ),
    decreases reqs.len(),
{
    let n = reqs.len() - 1;
    assert(reqs[n] is ReqTunnel);
    if i < n {
        let r2 = reqs.drop_last();
        let t2 = tunnels.drop_last();
        assert forall|k: int| 0 <= k < r2.len() implies #[trigger] r2[k] is ReqTunnel by {
            assert(reqs[k] is ReqTunnel);
        }
        assert forall|a: int, b: int|
            0 <= a < b < r2.len() implies req_id_of(#[trigger] r2[a]) != req_id_of(#[trigger] r2[b]) by {
            assert(req_id_of(reqs[a]) != req_id_of(reqs[b]));
        }
        lemma_pending_answers(r2, t2, i);
        assert(req_id_of(reqs[i]) != req_id_of(reqs[n]));
        assert(r2[i] == reqs[i]);
    }
}

/// A tunnel request carries the configured tunnel's protocol, hostname,
/// subdomain and remote port unchanged, under the given id, with no HTTP
/// auth.
pub proof fn lemma_request_carries_tunnel(m: Message, tunnel: TunnelConfig, req_id: String)
    requires
        is_req_tunnel_for(m, tunnel, req_id),
    ensures
        m is ReqTunnel,
        match m {
            Message::ReqTunnel(r) => {
                &&& r.req_id@ == req_id@
                &&& r.protocol@ == tunnel.protocol@
                &&& r.hostname == tunnel.hostname
                &&& r.subdomain == tunnel.subdomain
                &&& r.remote_port == tunnel.remote_port
                &&& r.http_auth@.len() == 0
            },
            _ => false,
        },
{
    reveal_strlit("");
}

/// Each request that `request_tunnels` makes carries its tunnel's fields.
pub proof fn lemma_fresh_request_carries_tunnel(m: Message, tunnel: TunnelConfig)
    requires
        is_fresh_request(m, tunnel),
    ensures
        match m {
            Message::ReqTunnel(r) => {
                &&& r.protocol@ == tunnel.protocol@
                &&& r.hostname == tunnel.hostname
                &&& r.subdomain == tunnel.subdomain
                &&& r.remote_port == tunnel.remote_port
                &&& r.req_id@.len() == 8
            },
            _ => false,
        },
{
    match m {
        Message::ReqTunnel(r) => lemma_request_carries_tunnel(m, tunnel, r.req_id),
        _ => {},
    }
}

} // verus!
