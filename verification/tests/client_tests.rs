use rngrok::client::control::{
    auth, auth_outcome, on_message, on_ping_timeout, ping, req_tunnel, request_tunnels, ControlAction,
};
use rngrok::client::proxy::{bad_gateway, local_connect_failed, reg_proxy};
use rngrok::client::{Config, Context, Tunnel, TunnelConfig};
use rngrok::msg::{AuthResp, Message, NewTunnel, Pong, ReqProxy};
use rngrok::strmap::StrMap;

fn tunnel_config(protocol: &str, port: u16) -> TunnelConfig {
    TunnelConfig {
        protocol: protocol.to_string(),
        hostname: None,
        subdomain: Some("sub".to_string()),
        remote_port: Some(9000),
        local_host: "127.0.0.1".to_string(),
        local_port: port,
    }
}

fn config() -> Config {
    Config {
        server_host: "example.com".to_string(),
        server_port: 4443,
        tunnel_list: vec![tunnel_config("http", 80)],
        so_timeout: None,
        ping_time: Some(3),
        auth_token: "token".to_string(),
        use_ssl: None,
    }
}

#[test]
fn client_context_fills_in_defaults() {
    let ctx = Context::new(config());
    assert_eq!(ctx.server_host, "example.com");
    assert_eq!(ctx.server_port, 4443);
    assert_eq!(ctx.so_timeout, 28800);
    assert_eq!(ctx.ping_time, 3);
    assert!(!ctx.use_ssl);
    assert_eq!(ctx.auth_token, "token");
    assert_eq!(ctx.tunnel_list.len(), 1);
    assert_eq!(ctx.tunnel_map.len(), 0);
}

#[test]
fn context_keeps_configured_values() {
    let mut cfg = config();
    cfg.so_timeout = Some(5);
    cfg.use_ssl = Some(true);
    cfg.ping_time = None;
    let ctx = Context::new(cfg);
    assert_eq!(ctx.so_timeout, 5);
    assert_eq!(ctx.ping_time, 10);
    assert!(ctx.use_ssl);
}

#[test]
fn local_addr_is_host_colon_port() {
    assert_eq!(tunnel_config("tcp", 8080).local_addr(), "127.0.0.1:8080");
    assert_eq!(tunnel_config("tcp", 0).local_addr(), "127.0.0.1:0");
}

#[test]
fn auth_message_fields() {
    match auth("secret".to_string()) {
        Message::Auth(a) => {
            assert_eq!(a.version, "2");
            assert_eq!(a.mm_version, "1.7");
            assert_eq!(a.user, "secret");
            assert_eq!(a.password, "");
            assert_eq!(a.os, "darwin");
            assert_eq!(a.arch, "amd64");
            assert_eq!(a.client_id, "");
        }
        other => panic!("{:?}", other),
    }
    assert!(matches!(ping(), Message::Ping(_)));
    match reg_proxy("cid".to_string()) {
        Message::RegProxy(r) => assert_eq!(r.client_id, "cid"),
        other => panic!("{:?}", other),
    }
}

#[test]
fn req_tunnel_copies_the_tunnel() {
    match req_tunnel(tunnel_config("https", 443), "rid".to_string()) {
        Message::ReqTunnel(r) => {
            assert_eq!(r.req_id, "rid");
            assert_eq!(r.protocol, "https");
            assert_eq!(r.hostname, None);
            assert_eq!(r.subdomain.as_deref(), Some("sub"));
            assert_eq!(r.http_auth, "");
            assert_eq!(r.remote_port, Some(9000));
        }
        other => panic!("{:?}", other),
    }
}

#[test]
fn auth_outcome_error_or_id() {
    let ok = AuthResp { client_id: Some("id1".to_string()), ..AuthResp::default() };
    assert_eq!(auth_outcome(ok), Ok("id1".to_string()));
    let err = AuthResp { error: Some("bad".to_string()), ..AuthResp::default() };
    assert_eq!(auth_outcome(err), Err("bad".to_string()));
}

fn request_id(m: &Message) -> String {
    match m {
        Message::ReqTunnel(r) => r.req_id.clone(),
        other => panic!("{:?}", other),
    }
}

#[test]
fn request_tunnels_asks_for_each_tunnel() {
    let tunnels = vec![tunnel_config("http", 80), tunnel_config("tcp", 22)];
    let (reqs, pending) = request_tunnels(&tunnels);
    assert_eq!(reqs.len(), 2);
    let id0 = request_id(&reqs[0]);
    let id1 = request_id(&reqs[1]);
    assert_eq!(id0.len(), 8);
    assert!(id0.chars().all(|c| c.is_ascii_alphanumeric()));
    assert_ne!(id0, id1);
    assert_eq!(pending.get(&id0).map(|s| s.as_str()), Some("127.0.0.1:80"));
    assert_eq!(pending.get(&id1).map(|s| s.as_str()), Some("127.0.0.1:22"));
    assert_eq!(pending.len(), 2);
}

fn new_tunnel(req_id: &str, url: &str, error: Option<&str>) -> Message {
    Message::NewTunnel(NewTunnel {
        req_id: Some(req_id.to_string()),
        url: Some(url.to_string()),
        protocol: Some("http".to_string()),
        error: error.map(|e| e.to_string()),
    })
}

#[test]
fn new_tunnel_answer_records_the_tunnel() {
    let mut pending = StrMap::new();
    pending.insert("r1".to_string(), "127.0.0.1:80".to_string());
    let mut tunnels: StrMap<Tunnel> = StrMap::new();
    let action = on_message(&pending, &mut tunnels, new_tunnel("r1", "http://sub.example.com", None));
    assert!(matches!(&action, ControlAction::Established(u) if u == "http://sub.example.com"));
    let t = tunnels.get("http://sub.example.com").unwrap();
    assert_eq!(t.public_url, "http://sub.example.com");
    assert_eq!(t.protocol, "http");
    assert_eq!(t.local_addr, "127.0.0.1:80");
}

#[test]
fn new_tunnel_error_or_unknown_request_stops() {
    let mut pending = StrMap::new();
    pending.insert("r1".to_string(), "127.0.0.1:80".to_string());
    let mut tunnels: StrMap<Tunnel> = StrMap::new();
    let action = on_message(&pending, &mut tunnels, new_tunnel("r1", "u", Some("taken")));
    assert!(matches!(&action, ControlAction::TunnelFailed(e) if e == "taken"));
    let action = on_message(&pending, &mut tunnels, new_tunnel("r2", "u", None));
    assert!(matches!(action, ControlAction::Stop));
    assert_eq!(tunnels.len(), 0);
}

#[test]
fn req_proxy_spawns_and_others_continue() {
    let pending = StrMap::new();
    let mut tunnels: StrMap<Tunnel> = StrMap::new();
    assert!(matches!(on_message(&pending, &mut tunnels, Message::ReqProxy(ReqProxy {})), ControlAction::SpawnProxy));
    assert!(matches!(on_message(&pending, &mut tunnels, Message::Pong(Pong {})), ControlAction::Continue));
    assert!(matches!(on_message(&pending, &mut tunnels, ping()), ControlAction::Continue));
}

fn tunnel(protocol: &str) -> Tunnel {
    Tunnel {
        public_url: "http://a.example.com".to_string(),
        protocol: protocol.to_string(),
        local_addr: "127.0.0.1:3000".to_string(),
    }
}

#[test]
fn bad_gateway_page() {
    let body = "<html>\n<body style=\"background-color: #97a8b9\">\n<div style=\"margin:auto; width:400px;padding: 20px 60px; background-color: #D3D3D3; border: 5px solid maroon;\">\n<h2>Tunnel http://a.example.com unavailable</h2>\n<p>Unable to initiate connection to <strong>127.0.0.1:3000</strong>. A web server must be running on port <strong>127.0.0.1:3000</strong> to complete the tunnel.</p>";
    let expected = format!(
        "HTTP/1.0 502 Bad Gateway\nContent-Type: text/html\nContent-Length: {}\n\n{}",
        body.len(),
        body
    );
    assert_eq!(bad_gateway(&tunnel("http")), expected);
    assert!(expected.contains("Content-Length: 374\n"));
}

#[test]
fn only_http_tunnels_answer_a_failed_local_connect() {
    assert_eq!(local_connect_failed(&tunnel("http")), Some(bad_gateway(&tunnel("http"))));
    assert_eq!(local_connect_failed(&tunnel("https")), Some(bad_gateway(&tunnel("https"))));
    assert_eq!(local_connect_failed(&tunnel("tcp")), None);
    assert_eq!(local_connect_failed(&tunnel("htt")), None);
}

#[test]
fn ping_timeout_sends_a_ping() {
    assert!(matches!(on_ping_timeout(), ControlAction::Send(Message::Ping(_))));
}

#[test]
fn bad_gateway_names_url_and_address_whatever_the_protocol() {
    let r = bad_gateway(&tunnel("http"));
    assert_eq!(r, bad_gateway(&tunnel("tcp")));
    assert!(r.contains("<h2>Tunnel http://a.example.com unavailable</h2>"));
    assert_eq!(r.matches("<strong>127.0.0.1:3000</strong>").count(), 2);
}
