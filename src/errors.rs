use vstd::prelude::*;

verus! {

/// The ways in which an instruction of this program is rejected.
#[derive(Clone, Copy, Debug, PartialEq, Eq, Structural)]
pub enum Error {
    /// An account handed in is not the one the derivation rules demand.
    InvalidAccount,
    /// The caller lacks the privilege that the operation needs.
    Unauthorized,
    /// A pass of an unknown type was presented.
    InvalidPassType,
    /// A principal that has to co-sign did not sign.
    MissingSignature,
    /// An account already lives at the address to be created.
    AccountAlreadyExists,
    /// The payer cannot cover the storage cost of the new accounts.
    InsufficientFunds,
    /// The token reference does not resolve to an existing mint.
    InvalidTokenMint,
}

} // verus!
