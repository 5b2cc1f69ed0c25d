//! Core of a LAN `cat`: the wire codec shared by discovery and sessions, the
//! decision logic of the fan-in TCP server, the discovery collector and the
//! per-session rules of readers and writers. Sockets, polling and threads are
//! driven from outside; every decision they act on is made here.

pub mod codec;
pub mod server;
pub mod discovery;
pub mod io_kind;
pub mod session;
