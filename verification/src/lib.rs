//! Verified core of a JSON-RPC server that exposes Crazyflie radio links.
//!
//! The library holds the server's decisions: what each request asks of the
//! radio and the connection table, how the answer is built, how a relay
//! thread reacts to what its sockets report, and the text the server sends.
//! Everything that touches a socket, a USB radio or a thread is left to the
//! caller, which performs the steps the library asks for and reports back.

pub mod connection;
pub mod error;
pub mod jsonrpc;
pub mod ports;
pub mod radio;
pub mod relay;
pub mod server;
pub mod text;
