//! A minimal TCP reverse-proxy tunnel, as a library of verified decisions.
//!
//! A client behind NAT exposes a local TCP service by dialling out to a
//! server; the server assigns a public port and relays visitors of that port
//! down the tunnel. This crate holds everything the two sides decide: the
//! wire format, the port allocator, the server's table of sessions, and the
//! step functions of the session, the visitor acceptor, the client and the
//! byte pump. Sockets, timers and tasks are the caller's: each step function
//! takes a report of what happened and answers with what to do next.

pub mod acceptor;
pub mod client;
pub mod json;
pub mod port_allocator;
pub mod protocol;
pub mod pump;
pub mod reader;
pub mod server;
pub mod session;
pub mod tunnel;
