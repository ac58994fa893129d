//! A user-space TCP/IPv4 endpoint core for a layer-3 tunnel device.
//!
//! The crate holds the TCP connection state machine for passive opens and
//! active closes, the 32-bit modular sequence arithmetic under it, the send
//! path that frames IPv4+TCP datagrams, and the table that routes inbound
//! datagrams to connections. It performs no I/O: inbound datagrams come in as
//! byte slices, outbound datagrams go out as byte vectors.

pub mod connection;
pub mod dispatch;
pub mod header;
pub mod sequence;
pub mod trace;
pub mod wire;
