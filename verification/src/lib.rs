//! A verified core for an ngrok-style tunnel: packet framing, HTTP head
//! parsing, the message vocabulary and the decisions of client and server.

pub mod text;
pub mod strmap;
pub mod util;
pub mod pack;
pub mod msg;
pub mod client;
pub mod server;
