use crate::address::Address;
use vstd::prelude::*;

verus! {

/// The divisor that turns a staked balance into a reward.
pub const REWARD_RATE: u64 = 10;

/// The single shared record of aggregate staking state.
#[derive(Clone, Copy, Debug, PartialEq, Eq)]
pub struct Pool {
    /// The administrator who created the pool.
    pub authority: Address,
    /// The token type that users deposit.
    pub stake_mint: Address,
    /// The token type that rewards are paid in.
    pub reward_mint: Address,
    /// The sum of all users' staked amounts.
    pub total_staked: u64,
    /// The reward divisor.
    pub reward_rate: u64,
    /// Confirms the derivation of the pool's own address.
    pub bump: u8,
    /// Confirms the derivation of the vault's address.
    pub vault_bump: u8,
}

impl Pool {
    /// A pool as creation leaves it and as every transition keeps it: the
    /// reward divisor is the fixed one.
    pub open spec fn wf(self) -> bool {
        self.reward_rate == REWARD_RATE
    }
}

/// One user's staked balance.
#[derive(Clone, Copy, Debug, PartialEq, Eq)]
pub struct UserStake {
    /// The user who owns this record.
    pub user: Address,
    /// The amount this user has staked.
    pub amount: u64,
    /// Confirms the derivation of the record's address.
    pub bump: u8,
}

impl UserStake {
    /// The record that a stored one stands for: none, where no owner was
    /// written into it yet.
    pub open spec fn spec_existing(self) -> Option<UserStake> {
        if self.user.spec_is_unset() {
            None
        } else {
            Some(self)
        }
    }

    /// Reads a stored record: a newly allocated one, which holds no owner
    /// yet, is no record.
    pub fn existing(&self) -> (record: Option<UserStake>)
        ensures
            record == self.spec_existing(),
    {
        if self.user.is_unset() {
            None
        } else {
            Some(*self)
        }
    }
}

} // verus!
