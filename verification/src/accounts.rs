use crate::address::Address;
use crate::ledger::{Pool, UserStake};
use vstd::prelude::*;

verus! {

/// What the creation of the pool works on.
#[derive(Clone, Copy, Debug, PartialEq, Eq)]
pub struct InitializePool {
    /// The freshly allocated pool record.
    pub pool: Pool,
    /// The caller, who becomes the administrator.
    pub authority: Address,
    pub stake_mint: Address,
    pub reward_mint: Address,
    /// Confirms the derivation of the pool's address.
    pub pool_bump: u8,
    /// Confirms the derivation of the vault's address.
    pub vault_bump: u8,
}

/// What a deposit works on.
#[derive(Clone, Copy, Debug, PartialEq, Eq)]
pub struct Stake {
    pub pool: Pool,
    /// The authenticated caller.
    pub user: Address,
    /// The caller's own token account, which pays.
    pub user_token: Address,
    /// The pool's vault, which receives.
    pub vault: Address,
    /// The caller's record, or `None` before their first deposit.
    pub user_stake: Option<UserStake>,
    /// Confirms the derivation of the record's address; recorded where the
    /// deposit creates the record.
    pub user_stake_bump: u8,
}

/// What a withdrawal works on.
#[derive(Clone, Copy, Debug, PartialEq, Eq)]
pub struct Unstake {
    pub pool: Pool,
    /// The pool's own address, which owns the vault.
    pub pool_key: Address,
    /// The authenticated caller.
    pub user: Address,
    /// The caller's token account, which receives.
    pub user_token: Address,
    /// The pool's vault, which pays.
    pub vault: Address,
    /// The record the caller names as theirs.
    pub user_stake: UserStake,
}

/// What a reward claim works on.
#[derive(Clone, Copy, Debug, PartialEq, Eq)]
pub struct ClaimRewards {
    pub pool: Pool,
    /// The pool's own address, which may mint rewards.
    pub pool_key: Address,
    /// The authenticated caller.
    pub user: Address,
    /// The record the caller names as theirs.
    pub user_stake: UserStake,
    /// The token type that the caller asks to be paid in; it has to be the
    /// pool's reward token.
    pub reward_mint: Address,
    /// The caller's reward token account, which receives.
    pub user_reward_token: Address,
}

} // verus!
