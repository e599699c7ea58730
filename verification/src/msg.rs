//! The messages of the control protocol, and the type names that tag them on
//! the wire.
use crate::text::str_eq;
use vstd::prelude::*;

verus! {

/// The client logs in.
#[derive(Debug)]
pub struct Auth {
    /// Protocol version.
    pub version: String,
    /// Major/minor software version (informational only).
    pub mm_version: String,
    pub user: String,
    pub password: String,
    pub os: String,
    pub arch: String,
    /// Empty for new sessions.
    pub client_id: String,
}

/// The server's answer to `Auth`.
#[derive(Debug)]
pub struct AuthResp {
    pub version: Option<String>,
    pub mm_version: Option<String>,
    pub client_id: Option<String>,
    pub error: Option<String>,
}

/// The client asks for a tunnel.
#[derive(Debug)]
pub struct ReqTunnel {
    pub req_id: String,
    pub protocol: String,
    /// http only
    pub hostname: Option<String>,
    /// http only
    pub subdomain: Option<String>,
    /// http only
    pub http_auth: String,
    /// tcp only
    pub remote_port: Option<u16>,
}

/// The server's answer to `ReqTunnel`.
#[derive(Debug)]
pub struct NewTunnel {
    pub req_id: Option<String>,
    pub url: Option<String>,
    pub protocol: Option<String>,
    pub error: Option<String>,
}

/// The server asks the client for a proxy connection.
#[derive(Debug)]
pub struct ReqProxy {}

/// A new connection of the client offers itself as a proxy.
#[derive(Debug)]
pub struct RegProxy {
    pub client_id: String,
}

/// The server starts to relay a public connection over a proxy connection.
#[derive(Debug)]
pub struct StartProxy {
    /// URL of the tunnel this connection is being proxied for.
    pub url: String,
    /// Network address of the client initiating the connection to the tunnel.
    pub client_addr: String,
}

#[derive(Debug)]
pub struct Ping {}

#[derive(Debug)]
pub struct Pong {}

impl Default for AuthResp {
    fn default() -> (res: Self)
        ensures
            res.version is None,
            res.mm_version is None,
            res.client_id is None,
            res.error is None,
    {
        AuthResp { version: None, mm_version: None, client_id: None, error: None }
    }
}

impl Default for NewTunnel {
    fn default() -> (res: Self)
        ensures
            res.req_id is None,
            res.url is None,
            res.protocol is None,
            res.error is None,
    {
        NewTunnel { req_id: None, url: None, protocol: None, error: None }
    }
}

/// A message of either side.
#[derive(Debug)]
pub enum Message {
    Auth(Auth),
    AuthResp(AuthResp),
    ReqTunnel(ReqTunnel),
    NewTunnel(NewTunnel),
    ReqProxy(ReqProxy),
    RegProxy(RegProxy),
    StartProxy(StartProxy),
    Ping(Ping),
    Pong(Pong),
}

/// Which of the messages a value is, without its fields.
#[derive(Debug, Clone, Copy, PartialEq, Eq, Structural)]
pub enum MessageKind {
    Auth,
    AuthResp,
    ReqTunnel,
    NewTunnel,
    ReqProxy,
    RegProxy,
    StartProxy,
    Ping,
    Pong,
}

/// The type name that tags a message of kind `k` on the wire.
pub open spec fn kind_name(k: MessageKind) -> Seq<char> {
    match k {
        MessageKind::Auth => "Auth"@,
        MessageKind::AuthResp => "AuthResp"@,
        MessageKind::ReqTunnel => "ReqTunnel"@,
        MessageKind::NewTunnel => "NewTunnel"@,
        MessageKind::ReqProxy => "ReqProxy"@,
        MessageKind::RegProxy => "RegProxy"@,
        MessageKind::StartProxy => "StartProxy"@,
        MessageKind::Ping => "Ping"@,
        MessageKind::Pong => "Pong"@,
    }
}

/// The kind whose wire name is `name`, if any kind has it.
pub open spec fn kind_of_name(name: Seq<char>) -> Option<MessageKind> {
    if exists|k: MessageKind| kind_name(k) == name {
        Some(choose|k: MessageKind| kind_name(k) == name)
    } else {
        None
    }
}

/// No two kinds share a wire name.
pub proof fn lemma_kind_names_distinct()
    ensures
        forall|a: MessageKind, b: MessageKind| #[trigger] kind_name(a) == #[trigger] kind_name(b) ==> a == b,
{
    reveal_strlit("Auth");
    reveal_strlit("AuthResp");
    reveal_strlit("ReqTunnel");
    reveal_strlit("NewTunnel");
    reveal_strlit("ReqProxy");
    reveal_strlit("RegProxy");
    reveal_strlit("StartProxy");
    reveal_strlit("Ping");
    reveal_strlit("Pong");
    assert forall|a: MessageKind, b: MessageKind| #[trigger] kind_name(a) == #[trigger] kind_name(b) implies a == b by {
        if a != b {
            let x = kind_name(a);
            let y = kind_name(b);
            if x.len() == y.len() {
                assert(x[1] != y[1] || x[2] != y[2] || x[3] != y[3]);
            }
        }
    }
}

/// The kind of a message.
pub open spec fn message_kind(m: Message) -> MessageKind {
    match m {
        Message::Auth(_) => MessageKind::Auth,
        Message::AuthResp(_) => MessageKind::AuthResp,
        Message::ReqTunnel(_) => MessageKind::ReqTunnel,
        Message::NewTunnel(_) => MessageKind::NewTunnel,
        Message::ReqProxy(_) => MessageKind::ReqProxy,
        Message::RegProxy(_) => MessageKind::RegProxy,
        Message::StartProxy(_) => MessageKind::StartProxy,
        Message::Ping(_) => MessageKind::Ping,
        Message::Pong(_) => MessageKind::Pong,
    }
}

impl MessageKind {
    /// The type name that tags messages of this kind.
    pub fn wire_name(&self) -> (res: &'static str)
        ensures
            res@ == kind_name(*self),
    {
        match self {
            MessageKind::Auth => "Auth",
            MessageKind::AuthResp => "AuthResp",
            MessageKind::ReqTunnel => "ReqTunnel",
            MessageKind::NewTunnel => "NewTunnel",
            MessageKind::ReqProxy => "ReqProxy",
            MessageKind::RegProxy => "RegProxy",
            MessageKind::StartProxy => "StartProxy",
            MessageKind::Ping => "Ping",
            MessageKind::Pong => "Pong",
        }
    }

    /// The kind that `name` tags, or `None` for a type name that no message has.
    pub fn from_wire_name(name: &str) -> (res: Option<MessageKind>)
        ensures
            res == kind_of_name(name@),
    {
        proof {
            lemma_kind_names_distinct();
            assert(kind_name(MessageKind::Auth) == "Auth"@);
            assert(kind_name(MessageKind::AuthResp) == "AuthResp"@);
            assert(kind_name(MessageKind::ReqTunnel) == "ReqTunnel"@);
            assert(kind_name(MessageKind::NewTunnel) == "NewTunnel"@);
            assert(kind_name(MessageKind::ReqProxy) == "ReqProxy"@);
            assert(kind_name(MessageKind::RegProxy) == "RegProxy"@);
            assert(kind_name(MessageKind::StartProxy) == "StartProxy"@);
            assert(kind_name(MessageKind::Ping) == "Ping"@);
            assert(kind_name(MessageKind::Pong) == "Pong"@);
        }
        if str_eq(name, "Auth") {
            Some(MessageKind::Auth)
        } else if str_eq(name, "AuthResp") {
            Some(MessageKind::AuthResp)
        } else if str_eq(name, "ReqTunnel") {
            Some(MessageKind::ReqTunnel)
        } else if str_eq(name, "NewTunnel") {
            Some(MessageKind::NewTunnel)
        } else if str_eq(name, "ReqProxy") {
            Some(MessageKind::ReqProxy)
        } else if str_eq(name, "RegProxy") {
            Some(MessageKind::RegProxy)
        } else if str_eq(name, "StartProxy") {
            Some(MessageKind::StartProxy)
        } else if str_eq(name, "Ping") {
            Some(MessageKind::Ping)
        } else if str_eq(name, "Pong") {
            Some(MessageKind::Pong)
        } else {
            None
        }
    }
}

impl Message {
    /// The kind of this message.
    pub fn kind(&self) -> (res: MessageKind)
        ensures
            res == message_kind(*self),
    {
        match self {
            Message::Auth(_) => MessageKind::Auth,
            Message::AuthResp(_) => MessageKind::AuthResp,
            Message::ReqTunnel(_) => MessageKind::ReqTunnel,
            Message::NewTunnel(_) => MessageKind::NewTunnel,
            Message::ReqProxy(_) => MessageKind::ReqProxy,
            Message::RegProxy(_) => MessageKind::RegProxy,
            Message::StartProxy(_) => MessageKind::StartProxy,
            Message::Ping(_) => MessageKind::Ping,
            Message::Pong(_) => MessageKind::Pong,
        }
    }

    /// The type name that tags this message on the wire.
    pub fn wire_name(&self) -> (res: &'static str)
        ensures
            res@ == kind_name(message_kind(*self)),
    {
        self.kind().wire_name()
    }
}

/// Each kind is read back from the type name that tags it, so a message that
/// is tagged and read back keeps its kind.
pub proof fn lemma_kind_name_roundtrip(k: MessageKind)
    ensures
        kind_of_name(kind_name(k)) == Some(k),
{
    lemma_kind_names_distinct();
}

/// The kind of a message is the variant it was built with: each variant has
/// its own kind, and a message has a kind exactly when it is of that variant.
pub proof fn lemma_kind_is_variant(m: Message)
    ensures
        m is Auth <==> message_kind(m) == MessageKind::Auth,
        m is AuthResp <==> message_kind(m) == MessageKind::AuthResp,
        m is ReqTunnel <==> message_kind(m) == MessageKind::ReqTunnel,
        m is NewTunnel <==> message_kind(m) == MessageKind::NewTunnel,
        m is ReqProxy <==> message_kind(m) == MessageKind::ReqProxy,
        m is RegProxy <==> message_kind(m) == MessageKind::RegProxy,
        m is StartProxy <==> message_kind(m) == MessageKind::StartProxy,
        m is Ping <==> message_kind(m) == MessageKind::Ping,
        m is Pong <==> message_kind(m) == MessageKind::Pong,
{
}

/// Two messages get the same kind, and so the same wire name, exactly when
/// they are of the same variant.
pub proof fn lemma_same_kind_same_variant(a: Message, b: Message)
    ensures
        (message_kind(a) == message_kind(b)) <==> (
            (a is Auth && b is Auth) || (a is AuthResp && b is AuthResp) || (a is ReqTunnel
                && b is ReqTunnel) || (a is NewTunnel && b is NewTunnel) || (a is ReqProxy
                && b is ReqProxy) || (a is RegProxy && b is RegProxy) || (a is StartProxy
                && b is StartProxy) || (a is Ping && b is Ping) || (a is Pong && b is Pong)),
        (kind_name(message_kind(a)) == kind_name(message_kind(b))) <==> (message_kind(a)
            == message_kind(b)),
{
    lemma_kind_names_distinct();
}

/// A message's wire name reads back as the variant it was built with: a
/// `NewTunnel` is tagged `"NewTunnel"`, an `AuthResp` `"AuthResp"`, and so on.
pub proof fn lemma_wire_name_is_variant_name(m: Message)
    ensures
        m is Auth ==> kind_name(message_kind(m)) == "Auth"@,
        m is AuthResp ==> kind_name(message_kind(m)) == "AuthResp"@,
        m is ReqTunnel ==> kind_name(message_kind(m)) == "ReqTunnel"@,
        m is NewTunnel ==> kind_name(message_kind(m)) == "NewTunnel"@,
        m is ReqProxy ==> kind_name(message_kind(m)) == "ReqProxy"@,
        m is RegProxy ==> kind_name(message_kind(m)) == "RegProxy"@,
        m is StartProxy ==> kind_name(message_kind(m)) == "StartProxy"@,
        m is Ping ==> kind_name(message_kind(m)) == "Ping"@,
        m is Pong ==> kind_name(message_kind(m)) == "Pong"@,
        kind_of_name(kind_name(message_kind(m))) == Some(message_kind(m)),
{
    lemma_kind_names_distinct();
}

} // verus!
