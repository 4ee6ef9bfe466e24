use crate::address::Address;
use crate::custody::CustodyAuthority;
use vstd::prelude::*;

verus! {

/// Who authorizes an instruction to the token program.
#[derive(Clone, Copy, Debug, PartialEq, Eq)]
pub enum Signer {
    /// The caller, by their own signature.
    Caller(Address),
    /// The ledger itself, by reproducing the derivation of the custody
    /// authority.
    Custody(CustodyAuthority),
}

/// A request to move `amount` tokens from one token account to another.
#[derive(Clone, Copy, Debug, PartialEq, Eq)]
pub struct Transfer {
    pub from: Address,
    pub to: Address,
    pub signer: Signer,
    pub amount: u64,
}

/// A request to create `amount` new tokens of `mint` in the account `to`.
#[derive(Clone, Copy, Debug, PartialEq, Eq)]
pub struct MintTo {
    pub mint: Address,
    pub to: Address,
    pub signer: Signer,
    pub amount: u64,
}

/// The token program's answer to one instruction. It either carried the
/// instruction out in full or did nothing.
#[derive(Clone, Copy, Debug, PartialEq, Eq, Structural)]
pub enum Receipt {
    Completed,
    Refused,
}

} // verus!
