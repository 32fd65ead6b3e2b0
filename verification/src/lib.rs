//! A capped-supply identity token ("person token") and the protocol that
//! provisions it: one mint carrying a transfer-hook extension and a
//! metadata-pointer extension, a metadata record, a per-signer person record
//! at a derived address, and a vault holding the whole fixed supply, after
//! which the mint authority is cleared forever.
//!
//! The ledger, accounts and the initialization instruction are modelled and
//! verified here; the byte-size and rent figures are taken from the token
//! program's own crates through a few trusted wrappers and proved to agree
//! with the model's arithmetic.

pub mod addr;
pub mod account;
pub mod ledger;
pub mod sizing;
pub mod instruction;
