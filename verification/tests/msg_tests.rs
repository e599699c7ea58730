use rngrok::msg::{AuthResp, Message, MessageKind, NewTunnel, Ping, RegProxy};

const KINDS: [MessageKind; 9] = [
    MessageKind::Auth,
    MessageKind::AuthResp,
    MessageKind::ReqTunnel,
    MessageKind::NewTunnel,
    MessageKind::ReqProxy,
    MessageKind::RegProxy,
    MessageKind::StartProxy,
    MessageKind::Ping,
    MessageKind::Pong,
];

#[test]
fn wire_names_are_the_protocol_names() {
    let names: Vec<&str> = KINDS.iter().map(|k| k.wire_name()).collect();
    assert_eq!(
        names,
        vec!["Auth", "AuthResp", "ReqTunnel", "NewTunnel", "ReqProxy", "RegProxy", "StartProxy", "Ping", "Pong"]
    );
}

#[test]
fn wire_names_read_back_as_their_kind() {
    for k in KINDS {
        assert_eq!(MessageKind::from_wire_name(k.wire_name()), Some(k));
    }
}

#[test]
fn unknown_wire_name_is_none() {
    assert_eq!(MessageKind::from_wire_name("auth"), None);
    assert_eq!(MessageKind::from_wire_name(""), None);
    assert_eq!(MessageKind::from_wire_name("Pings"), None);
}

#[test]
fn message_kind_and_name() {
    let m = Message::RegProxy(RegProxy { client_id: "abc".to_string() });
    assert_eq!(m.kind(), MessageKind::RegProxy);
    assert_eq!(m.wire_name(), "RegProxy");
    assert_eq!(Message::Ping(Ping {}).wire_name(), "Ping");
}

#[test]
fn defaults_are_empty() {
    let a = AuthResp::default();
    assert!(a.version.is_none() && a.mm_version.is_none() && a.client_id.is_none() && a.error.is_none());
    let n = NewTunnel::default();
    assert!(n.req_id.is_none() && n.url.is_none() && n.protocol.is_none() && n.error.is_none());
}
