//! A staking ledger: one shared pool, one stake record per user, and the four
//! transitions that move value between them. Every transition is a pure
//! decision over plain values; the token program that actually moves funds is
//! asked through instructions that the transitions hand out, and its answer
//! comes back as a receipt.

pub mod accounts;
pub mod address;
pub mod conservation;
pub mod custody;
pub mod error;
pub mod ledger;
pub mod token;
pub mod transitions;
