//! Core of a gateway to a perpetual-futures venue that lives on a remote
//! ledger: symbol resolution over an immutable global snapshot, decoding of
//! the ledger's packed binary account layouts, exact fixed-point unit
//! conversions, and construction of the account lists and instruction
//! payloads for the four mutating operations.
//!
//! Network transport, signing-key storage and the HTTP surface are the
//! surrounding application's concern; this crate works on plain values.

pub mod addrs;
pub mod builder;
pub mod decode;
pub mod errs;
pub mod pda;
pub mod portfolio;
pub mod registry;
pub mod slab;
pub mod units;
pub mod wire;
