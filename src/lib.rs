//! A TFTP engine (RFC 1350 with the option, block size, timeout, transfer
//! size and window size extensions): the wire codec, option negotiation, the
//! send window, and the per-transfer decisions of client and server. Sockets
//! and files stay with the caller, which hands each received packet or
//! timeout to the state machines here and performs the action they return.
use vstd::prelude::*;

pub mod client;
pub mod options;
pub mod packet;
pub mod relay;
pub mod server;
pub mod transfer;
pub mod window;

verus! {

} // verus!
