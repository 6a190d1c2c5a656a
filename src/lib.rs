//! Account model and initialization protocol of a pooled-custody vault.
//!
//! A vault is a fixed-layout record living at an address derived from its
//! name, paired with a token custody account whose spending authority is the
//! vault's own derived address.

pub mod address;
pub mod errors;
pub mod state;
pub mod ledger;
pub mod instructions;
pub mod layout;
