//! A TCP port forwarder's decision logic: the per-direction byte relay, the
//! accept loop and the wiring of each new connection, and the startup settings.
//!
//! Sockets are not touched here. The relay, the accept loop and the connection
//! setup are state machines: each tells its driver which operation to perform
//! next and is told how it went.

pub mod acceptor;
pub mod config;
pub mod relay;
