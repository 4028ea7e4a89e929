use crate::address::Address;
use crate::derivation::Authorization;
use vstd::prelude::*;

verus! {

/// An account as the ledger hands it to the program: its address and its contents.
#[derive(Clone, Debug, PartialEq, Eq)]
pub struct Account {
    pub key: Address,
    pub data: Vec<u8>,
}

/// A request to the ledger to allocate an account at a derived address,
/// with the proof of the program's authority over that address.
#[derive(Clone, Debug, PartialEq, Eq)]
pub struct Allocation {
    /// Who pays for the storage.
    pub payer: Address,
    /// The derived address at which to allocate.
    pub account: Address,
    /// Number of bytes to allocate.
    pub space: u64,
    /// The program that will own the account.
    pub owner: Address,
    pub authorization: Authorization,
}

/// A request to the token service to hand a token account to a new owner,
/// authorized by the current owner's signature.
#[derive(Clone, Copy, Debug, PartialEq, Eq)]
pub struct Reassignment {
    pub account: Address,
    pub new_owner: Address,
    pub current_owner: Address,
}

/// A request to the token service to move `amount` tokens.
#[derive(Clone, Copy, Debug, PartialEq, Eq)]
pub struct Transfer {
    pub source: Address,
    pub destination: Address,
    /// Who authorizes the transfer: the owner of `source`.
    pub authority: Address,
    pub amount: u64,
    /// The authority is the transform's derived address, which the program
    /// proves with the transform's seed rather than with a signature.
    pub vault_signed: bool,
}

} // verus!
