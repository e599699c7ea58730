//! The decisions of a proxy connection of the client: its registration and
//! the answer it gives a public HTTP request whose local service is down.
use super::Tunnel;
use crate::msg::{Message, RegProxy};
use crate::text::{concat2, concat3, decimal, starts_with, u64_to_string};
use vstd::prelude::*;
use vstd::utf8::encode_utf8;

verus! {

/// The message that registers a new proxy connection for the client `client_id`.
pub fn reg_proxy(client_id: String) -> (res: Message)
    ensures
        res matches Message::RegProxy(r) && r.client_id == client_id,
{
    Message::RegProxy(RegProxy { client_id })
}

/// The heading of the page: the tunnel's public URL is unavailable.
pub open spec fn heading(public_url: Seq<char>) -> Seq<char> {
    "<h2>Tunnel "@ + public_url + " unavailable</h2>"@
}

/// The local address, in bold.
pub open spec fn strong(local_addr: Seq<char>) -> Seq<char> {
    "<strong>"@ + local_addr + "</strong>"@
}

/// The HTML page that says the tunnel's local service could not be reached.
pub open spec fn bad_gateway_body(public_url: Seq<char>, local_addr: Seq<char>) -> Seq<char> {
    "<html>\n<body style=\"background-color: #97a8b9\">\n<div style=\"margin:auto; width:400px;padding: 20px 60px; background-color: #D3D3D3; border: 5px solid maroon;\">\n"@
        + heading(public_url) + "\n<p>Unable to initiate connection to "@ + strong(local_addr)
        + ". A web server must be running on port "@ + strong(local_addr)
        + " to complete the tunnel.</p>"@
}

/// The head of the response, up to the page.
pub open spec fn bad_gateway_head(body: Seq<char>) -> Seq<char> {
    "HTTP/1.0 502 Bad Gateway\nContent-Type: text/html\nContent-Length: "@ + decimal(
        encode_utf8(body).len(),
    ) + "\n\n"@
}

/// The `502 Bad Gateway` response that carries that page, with its length
/// in bytes.
pub open spec fn bad_gateway_response(public_url: Seq<char>, local_addr: Seq<char>) -> Seq<char> {
    let body = bad_gateway_body(public_url, local_addr);
    bad_gateway_head(body) + body
}

/// The response to a public request whose local service could not be reached.
pub fn bad_gateway(tunnel: &Tunnel) -> (res: String)
    ensures
        res@ == bad_gateway_response(tunnel.public_url@, tunnel.local_addr@),
{
    let title = concat3("<h2>Tunnel ", tunnel.public_url.as_str(), " unavailable</h2>");
    let addr = concat3("<strong>", tunnel.local_addr.as_str(), "</strong>");
    let mut body = concat2(
        "<html>\n<body style=\"background-color: #97a8b9\">\n<div style=\"margin:auto; width:400px;padding: 20px 60px; background-color: #D3D3D3; border: 5px solid maroon;\">\n",
        title.as_str(),
    );
    body.append("\n<p>Unable to initiate connection to ");
    body.append(addr.as_str());
    body.append(". A web server must be running on port ");
    body.append(addr.as_str());
    body.append(" to complete the tunnel.</p>");
    let len = body.as_str().as_bytes().len();
    assert(len as nat == encode_utf8(body@).len());
    let mut resp = concat2(
        "HTTP/1.0 502 Bad Gateway\nContent-Type: text/html\nContent-Length: ",
        u64_to_string(len as u64).as_str(),
    );
    resp.append("\n\n");
    resp.append(body.as_str());
    resp
}

/// `x` occurs in `s` from position `i` on.
pub open spec fn occurs_at(s: Seq<char>, x: Seq<char>, i: int) -> bool {
    0 <= i && i + x.len() <= s.len() && s.subrange(i, i + x.len()) == x
}

proof fn lemma_occurs_between(p: Seq<char>, x: Seq<char>, q: Seq<char>)
    ensures
        occurs_at(p + x + q, x, p.len() as int),
{
    assert((p + x + q).subrange(p.len() as int, p.len() + x.len() as int) =~= x);
}

/// The bad-gateway response depends on the tunnel's public URL and local
/// address alone, whatever its protocol; it names the URL in its heading and
/// the local address, in bold, twice.
pub proof fn lemma_bad_gateway_mentions(public_url: Seq<char>, local_addr: Seq<char>)
    ensures
        exists|i: int| occurs_at(bad_gateway_response(public_url, local_addr), heading(public_url), i),
        exists|i: int, j: int|
            i + strong(local_addr).len() <= j && occurs_at(
                bad_gateway_response(public_url, local_addr),
                strong(local_addr),
                i,
            ) && occurs_at(bad_gateway_response(public_url, local_addr), strong(local_addr), j),
{
    let body = bad_gateway_body(public_url, local_addr);
    let r = bad_gateway_response(public_url, local_addr);
    let h = bad_gateway_head(body);
    let l0 = "<html>\n<body style=\"background-color: #97a8b9\">\n<div style=\"margin:auto; width:400px;padding: 20px 60px; background-color: #D3D3D3; border: 5px solid maroon;\">\n"@;
    let l1 = "\n<p>Unable to initiate connection to "@;
    let l2 = ". A web server must be running on port "@;
    let l3 = " to complete the tunnel.</p>"@;
    let t = heading(public_url);
    let a = strong(local_addr);
    let p1 = h + l0;
    let q1 = l1 + a + l2 + a + l3;
    assert(r =~= p1 + t + q1);
    lemma_occurs_between(p1, t, q1);
    let p2 = h + l0 + t + l1;
    let q2 = l2 + a + l3;
    assert(r =~= p2 + a + q2);
    lemma_occurs_between(p2, a, q2);
    let p3 = h + l0 + t + l1 + a + l2;
    assert(r =~= p3 + a + l3);
    lemma_occurs_between(p3, a, l3);
    assert(p2.len() + a.len() <= p3.len());
}

/// Two tunnels with the same public URL and local address get the same
/// bad-gateway response, whatever their protocols.
pub proof fn lemma_bad_gateway_ignores_protocol(t1: Tunnel, t2: Tunnel)
    requires
        t1.public_url@ == t2.public_url@,
        t1.local_addr@ == t2.local_addr@,
    ensures
        bad_gateway_response(t1.public_url@, t1.local_addr@) == bad_gateway_response(
            t2.public_url@,
            t2.local_addr@,
        ),
{
}

/// What to send back when the local service of `tunnel` could not be
/// reached: the bad-gateway response for an HTTP or HTTPS tunnel, nothing
/// for any other.
pub fn local_connect_failed(tunnel: &Tunnel) -> (res: Option<String>)
    ensures
        match res {
            Some(r) => tunnel.protocol@.len() >= 4 && tunnel.protocol@.take(4) == "http"@ && r@
                == bad_gateway_response(tunnel.public_url@, tunnel.local_addr@),
            None => !(tunnel.protocol@.len() >= 4 && tunnel.protocol@.take(4) == "http"@),
        },
{
    proof {
        reveal_strlit("http");
    }
    if starts_with(tunnel.protocol.as_str(), "http") {
        Some(bad_gateway(tunnel))
    } else {
        None
    }
}

} // verus!
