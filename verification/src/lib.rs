//! ASCIIDesk: terminal-first, consent-based remote access.
//!
//! The library holds the decision logic of the host, the client and the
//! rendezvous broker, the wire message types, device identities and trust,
//! and the ASCII desktop encoder. Each piece is specified by contracts and
//! checked by Verus; the program around it performs the I/O.
use vstd::prelude::*;

pub mod client;
pub mod config;
pub mod desktop;
pub mod host;
pub mod input;
pub mod keyed;
pub mod keys;
pub mod protocol;
pub mod rendezvous;
pub mod session;
pub mod session_hijack;
pub mod signaling;
pub mod text;
pub mod transport;

verus! {

} // verus!
