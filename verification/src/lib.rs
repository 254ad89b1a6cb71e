//! A minimal client/server banking protocol engine.
//!
//! The library covers the session protocol core: the fixed-layout message
//! codec, the anti-replay sequencing discipline, the ATM-side and bank-side
//! state machines, and the shared ledger they consult.  Everything here is
//! verified; the thin I/O shell (sockets, console) lives outside the library.

pub mod atm;
pub mod bank;
pub mod message;
pub mod server;
pub mod text;
pub mod transport;
