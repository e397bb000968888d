//! Secure-storage engine of a local password vault: zeroizing byte buffers,
//! key derivation, authenticated encryption, the vault file layout and the
//! vault session state machine.

pub mod crypto;
pub mod errors;
pub mod file;
pub mod session;
pub mod vault;
pub mod zerobyte;
