//! Per-owner note storage: every note lives in a slot whose address is derived
//! from the owner's identity and the note's numeric id.
//!
//! The crate holds the wire formats, the address binding and the rules that
//! guard creation, update and deletion of a note. Talking to the runtime
//! (allocation, rent, balances on chain) is left to the caller.

pub mod address;
pub mod errors;
pub mod instructions;
pub mod laws;
pub mod processor;
pub mod state;
pub mod wire;
