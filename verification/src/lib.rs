//! Request planning, argument decoding and message framing for a MySQL UDF that
//! calls HTTP services and relays WebSocket traffic over inherited sockets.

pub mod args;
pub mod json;
pub mod request;
pub mod response;
pub mod socket;
pub mod socks5;
pub mod text;
