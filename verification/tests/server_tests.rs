use rngrok::msg::{Auth, Message, Ping, Pong, RegProxy, ReqTunnel};
use rngrok::server::http::request_url;
use rngrok::server::tunnel::{
    auth_resp, control_step, first_message_action, forget_client, new_tunnel, open_tunnel, pong, req_proxy,
    start_proxy, tunnel_url, tunnel_url_with, ControlStep, HandlerAction,
};
use rngrok::server::{Config, Context};
use rngrok::strmap::StrMap;
use rngrok::util::read_http_head;

#[test]
fn default_config() {
    let cfg = Config::default();
    assert_eq!(cfg.domain, "ngrok.com");
    assert_eq!(cfg.port, 4443);
    assert_eq!(cfg.http_port, Some(80));
    assert_eq!(cfg.https_port, Some(443));
    assert!(cfg.ssl_crt.is_none() && cfg.ssl_key.is_none());
    assert!(cfg.so_timeout.is_none() && cfg.ping_timeout.is_none());
}

#[test]
fn server_context_fills_in_defaults() {
    let ctx = Context::new(Config::default());
    assert_eq!(ctx.so_timeout, 28800);
    assert_eq!(ctx.ping_timeout, 120);
    assert_eq!(ctx.domain, "ngrok.com");
    assert!(ctx.ssl_files().is_none());
    let mut cfg = Config::default();
    cfg.so_timeout = Some(1);
    cfg.ping_timeout = Some(2);
    cfg.ssl_crt = Some("a.crt".to_string());
    let ctx = Context::new(cfg);
    assert_eq!((ctx.so_timeout, ctx.ping_timeout), (1, 2));
    assert!(ctx.ssl_files().is_none());
}

#[test]
fn ssl_files_when_both_are_configured() {
    let mut cfg = Config::default();
    cfg.ssl_crt = Some("a.crt".to_string());
    cfg.ssl_key = Some("a.key".to_string());
    let ctx = Context::new(cfg);
    let (c, k) = ctx.ssl_files().unwrap();
    assert_eq!((c.as_str(), k.as_str()), ("a.crt", "a.key"));
}

fn req(protocol: &str, hostname: Option<&str>, subdomain: Option<&str>, port: Option<u16>) -> ReqTunnel {
    ReqTunnel {
        req_id: "r".to_string(),
        protocol: protocol.to_string(),
        hostname: hostname.map(|s| s.to_string()),
        subdomain: subdomain.map(|s| s.to_string()),
        http_auth: String::new(),
        remote_port: port,
    }
}

#[test]
fn tunnel_urls() {
    assert_eq!(tunnel_url_with(&req("tcp", None, None, Some(2222)), "ngrok.com", "qwerty").as_deref(), Some("tcp://ngrok.com:2222"));
    assert_eq!(tunnel_url_with(&req("http", Some("my.host"), Some("s"), None), "ngrok.com", "qwerty").as_deref(), Some("http://my.host"));
    assert_eq!(tunnel_url_with(&req("https", None, Some("s"), None), "ngrok.com", "qwerty").as_deref(), Some("https://s.ngrok.com"));
    assert_eq!(tunnel_url_with(&req("http", None, None, None), "ngrok.com", "abc123").as_deref(), Some("http://abc123.ngrok.com"));
    assert_eq!(tunnel_url_with(&req("udp", None, None, Some(1)), "ngrok.com", "abc123"), None);
}

#[test]
fn random_subdomain_has_six_characters() {
    let url = tunnel_url(&req("http", None, None, None), "ngrok.com").unwrap();
    assert!(url.starts_with("http://") && url.ends_with(".ngrok.com"));
    let sub = &url["http://".len()..url.len() - ".ngrok.com".len()];
    assert_eq!(sub.len(), 6);
    assert!(sub.chars().all(|c| c.is_ascii_alphanumeric()));
    assert_eq!(tunnel_url(&req("https", None, Some("s"), None), "d").as_deref(), Some("https://s.d"));
}

#[test]
fn first_message_decides_the_connection() {
    let auth = Message::Auth(Auth {
        version: String::new(),
        mm_version: String::new(),
        user: String::new(),
        password: String::new(),
        os: String::new(),
        arch: String::new(),
        client_id: String::new(),
    });
    assert!(matches!(first_message_action(auth), HandlerAction::Control));
    let reg = Message::RegProxy(RegProxy { client_id: "c1".to_string() });
    assert!(matches!(first_message_action(reg), HandlerAction::Proxy(id) if id == "c1"));
    assert!(matches!(first_message_action(Message::Ping(Ping {})), HandlerAction::Close));
}

#[test]
fn control_steps() {
    assert!(matches!(control_step(Message::ReqTunnel(req("tcp", None, None, Some(1)))), ControlStep::RegisterTunnel(r) if r.protocol == "tcp"));
    assert!(matches!(control_step(Message::Ping(Ping {})), ControlStep::Pong));
    assert!(matches!(control_step(Message::Pong(Pong {})), ControlStep::Ignore));
}

#[test]
fn server_messages() {
    match auth_resp("id".to_string()) {
        Message::AuthResp(a) => {
            assert_eq!(a.version.as_deref(), Some("2"));
            assert_eq!(a.mm_version.as_deref(), Some("1.7"));
            assert_eq!(a.client_id.as_deref(), Some("id"));
            assert!(a.error.is_none());
        }
        other => panic!("{:?}", other),
    }
    assert!(matches!(req_proxy(), Message::ReqProxy(_)));
    assert!(matches!(pong(), Message::Pong(_)));
    match start_proxy("tcp://d:1".to_string(), "1.2.3.4:5".to_string()) {
        Message::StartProxy(s) => assert_eq!((s.url.as_str(), s.client_addr.as_str()), ("tcp://d:1", "1.2.3.4:5")),
        other => panic!("{:?}", other),
    }
    match new_tunnel("r".to_string(), "u".to_string(), "http".to_string()) {
        Message::NewTunnel(n) => {
            assert_eq!(n.req_id.as_deref(), Some("r"));
            assert_eq!(n.url.as_deref(), Some("u"));
            assert_eq!(n.protocol.as_deref(), Some("http"));
            assert!(n.error.is_none());
        }
        other => panic!("{:?}", other),
    }
}

#[test]
fn tunnels_route_until_their_client_leaves() {
    let mut map: StrMap<String> = StrMap::new();
    let _ = open_tunnel(&mut map, "c1".to_string(), "r1".to_string(), "http://a.d".to_string(), "http".to_string());
    let _ = open_tunnel(&mut map, "c2".to_string(), "r2".to_string(), "http://b.d".to_string(), "http".to_string());
    let _ = open_tunnel(&mut map, "c1".to_string(), "r3".to_string(), "tcp://d:1".to_string(), "tcp".to_string());
    assert_eq!(map.get("http://a.d").map(|s| s.as_str()), Some("c1"));
    forget_client(&mut map, "c2");
    assert_eq!(map.get("http://b.d"), None);
    assert_eq!(map.get("http://a.d").map(|s| s.as_str()), Some("c1"));
    forget_client(&mut map, "c1");
    assert_eq!(map.len(), 0);
}

#[test]
fn request_url_uses_host_header() {
    let head = read_http_head(b"GET / HTTP/1.1\r\nHost: a.ngrok.com\r\n\r\n").unwrap();
    assert_eq!(request_url("https", &head), "https://a.ngrok.com");
}

#[test]
fn strmap_insert_replace_remove() {
    let mut m: StrMap<String> = StrMap::new();
    m.insert("k".to_string(), "1".to_string());
    m.insert("k".to_string(), "2".to_string());
    m.insert("j".to_string(), "3".to_string());
    assert_eq!(m.len(), 2);
    assert_eq!(m.get("k").map(|s| s.as_str()), Some("2"));
    assert!(m.contains_key("j"));
    assert_eq!(m.remove("k"), Some("2".to_string()));
    assert_eq!(m.remove("k"), None);
    assert!(!m.contains_key("k"));
    assert_eq!(m.len(), 1);
}
