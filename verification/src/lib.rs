//! Core of a Trojan-protocol relay: the request and UDP-frame codec, the DNS
//! cache, the token scheme of the event loop, the per-connection state
//! machine, and the connection registry. All I/O (sockets, TLS records,
//! blocking name lookups) lives outside this crate; these modules work on
//! plain bytes and values and state in their contracts what each step does.

pub mod addr;
pub mod token;
pub mod codec;
pub mod conn;
pub mod backend;
pub mod registry;
pub mod resolver;
pub mod tls;
