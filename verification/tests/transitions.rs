use staking_dapp::accounts::{ClaimRewards, InitializePool, Stake, Unstake};
use staking_dapp::address::Address;
use staking_dapp::custody::CustodyAuthority;
use staking_dapp::error::CustomError;
use staking_dapp::ledger::{Pool, UserStake, REWARD_RATE};
use staking_dapp::token::{MintTo, Receipt, Signer, Transfer};
use staking_dapp::transitions::{
    claim_rewards, claim_rewards_mint, initialize_pool, stake, stake_transfer, unstake,
    unstake_transfer,
};

fn addr(tag: u8) -> Address {
    Address { bytes: [tag; 32] }
}

const ADMIN: u8 = 1;
const STAKE_MINT: u8 = 2;
const REWARD_MINT: u8 = 3;
const POOL_KEY: u8 = 4;
const VAULT: u8 = 5;
const ALICE: u8 = 10;
const BOB: u8 = 11;

fn new_pool() -> Pool {
    let blank = Pool {
        authority: addr(0),
        stake_mint: addr(0),
        reward_mint: addr(0),
        total_staked: 77,
        reward_rate: 0,
        bump: 0,
        vault_bump: 0,
    };
    let mut ctx = InitializePool {
        pool: blank,
        authority: addr(ADMIN),
        stake_mint: addr(STAKE_MINT),
        reward_mint: addr(REWARD_MINT),
        pool_bump: 254,
        vault_bump: 253,
    };
    assert_eq!(initialize_pool(&mut ctx), Ok(()));
    ctx.pool
}

fn stake_ctx(pool: Pool, user: u8, record: Option<UserStake>) -> Stake {
    Stake {
        pool,
        user: addr(user),
        user_token: addr(user + 100),
        vault: addr(VAULT),
        user_stake: record,
        user_stake_bump: 250,
    }
}

fn unstake_ctx(pool: Pool, user: u8, record: UserStake) -> Unstake {
    Unstake {
        pool,
        pool_key: addr(POOL_KEY),
        user: addr(user),
        user_token: addr(user + 100),
        vault: addr(VAULT),
        user_stake: record,
    }
}

fn claim_ctx(pool: Pool, user: u8, record: UserStake) -> ClaimRewards {
    ClaimRewards {
        pool,
        pool_key: addr(POOL_KEY),
        user: addr(user),
        user_stake: record,
        reward_mint: addr(REWARD_MINT),
        user_reward_token: addr(user + 200),
    }
}

/// Runs a whole deposit the way a host would: validate, transfer, settle.
fn deposit(pool: &mut Pool, record: &mut Option<UserStake>, vault: &mut u64, user: u8, amount: u64) -> Result<(), CustomError> {
    let mut ctx = stake_ctx(*pool, user, *record);
    let transfer = stake_transfer(&ctx, amount)?;
    assert_eq!(transfer.to, addr(VAULT));
    stake(&mut ctx, amount, Receipt::Completed)?;
    *vault += transfer.amount;
    *pool = ctx.pool;
    *record = ctx.user_stake;
    Ok(())
}

/// Runs a whole withdrawal the way a host would.
fn withdraw(pool: &mut Pool, record: &mut Option<UserStake>, vault: &mut u64, user: u8, amount: u64) -> Result<(), CustomError> {
    let mut ctx = unstake_ctx(*pool, user, record.expect("a record to withdraw from"));
    let transfer = unstake_transfer(&ctx, amount)?;
    assert_eq!(transfer.from, addr(VAULT));
    let receipt = if transfer.amount <= *vault { Receipt::Completed } else { Receipt::Refused };
    unstake(&mut ctx, amount, receipt)?;
    *vault -= transfer.amount;
    *pool = ctx.pool;
    *record = Some(ctx.user_stake);
    Ok(())
}

#[test]
fn initialize_pool_writes_the_record() {
    let pool = new_pool();
    assert_eq!(pool.authority, addr(ADMIN));
    assert_eq!(pool.stake_mint, addr(STAKE_MINT));
    assert_eq!(pool.reward_mint, addr(REWARD_MINT));
    assert_eq!(pool.total_staked, 0);
    assert_eq!(pool.reward_rate, 10);
    assert_eq!(REWARD_RATE, 10);
    assert_eq!(pool.bump, 254);
    assert_eq!(pool.vault_bump, 253);
}

#[test]
fn initialize_pool_keeps_the_request() {
    let mut ctx = InitializePool {
        pool: new_pool(),
        authority: addr(ADMIN),
        stake_mint: addr(STAKE_MINT),
        reward_mint: addr(REWARD_MINT),
        pool_bump: 7,
        vault_bump: 8,
    };
    let before = ctx;
    assert_eq!(initialize_pool(&mut ctx), Ok(()));
    assert_eq!(ctx.authority, before.authority);
    assert_eq!(ctx.pool_bump, 7);
    assert_eq!(ctx.vault_bump, 8);
    assert_eq!(ctx.pool.bump, 7);
    assert_eq!(ctx.pool.vault_bump, 8);
}

#[test]
fn first_stake_creates_the_record() {
    let mut ctx = stake_ctx(new_pool(), ALICE, None);
    assert_eq!(
        stake_transfer(&ctx, 40),
        Ok(Transfer {
            from: addr(ALICE + 100),
            to: addr(VAULT),
            signer: Signer::Caller(addr(ALICE)),
            amount: 40,
        })
    );
    assert_eq!(stake(&mut ctx, 40, Receipt::Completed), Ok(()));
    assert_eq!(ctx.user_stake, Some(UserStake { user: addr(ALICE), amount: 40, bump: 250 }));
    assert_eq!(ctx.pool.total_staked, 40);
    assert_eq!(ctx.pool.reward_rate, 10);
}

#[test]
fn second_stake_adds_to_the_record() {
    let mut pool = new_pool();
    pool.total_staked = 1000;
    let record = UserStake { user: addr(ALICE), amount: 300, bump: 250 };
    let mut ctx = stake_ctx(pool, ALICE, Some(record));
    assert_eq!(stake(&mut ctx, 25, Receipt::Completed), Ok(()));
    assert_eq!(ctx.user_stake.unwrap().amount, 325);
    assert_eq!(ctx.pool.total_staked, 1025);
}

#[test]
fn second_stake_keeps_the_recorded_bump() {
    let record = UserStake { user: addr(ALICE), amount: 1, bump: 7 };
    let mut ctx = stake_ctx(new_pool(), ALICE, Some(record));
    ctx.user_stake_bump = 9;
    assert_eq!(stake(&mut ctx, 2, Receipt::Completed), Ok(()));
    assert_eq!(ctx.user_stake, Some(UserStake { user: addr(ALICE), amount: 3, bump: 7 }));

    let mut first = stake_ctx(new_pool(), ALICE, None);
    first.user_stake_bump = 9;
    assert_eq!(stake(&mut first, 2, Receipt::Completed), Ok(()));
    assert_eq!(first.user_stake, Some(UserStake { user: addr(ALICE), amount: 2, bump: 9 }));
}

#[test]
fn a_newly_allocated_record_is_no_record() {
    let blank = UserStake { user: addr(0), amount: 0, bump: 0 };
    assert_eq!(blank.existing(), None);
    assert!(addr(0).is_unset());
    let mut bytes = [0u8; 32];
    bytes[31] = 1;
    let owner = Address { bytes };
    assert!(!owner.is_unset());
    let written = UserStake { user: owner, amount: 0, bump: 0 };
    assert_eq!(written.existing(), Some(written));
}

#[test]
fn claim_of_another_token_is_refused() {
    let record = UserStake { user: addr(ALICE), amount: 100, bump: 0 };
    let mut ctx = claim_ctx(new_pool(), ALICE, record);
    ctx.reward_mint = addr(STAKE_MINT);
    assert_eq!(claim_rewards_mint(&ctx), Err(CustomError::MintFailure));
    assert_eq!(claim_rewards(&ctx, Receipt::Completed), Err(CustomError::MintFailure));
    ctx.reward_mint = addr(99);
    assert_eq!(claim_rewards_mint(&ctx), Err(CustomError::MintFailure));
    ctx.reward_mint = addr(REWARD_MINT);
    let mint = claim_rewards_mint(&ctx).unwrap();
    assert_eq!(mint.mint, ctx.pool.reward_mint);
    assert_eq!(mint.mint, addr(REWARD_MINT));
    assert_eq!(mint.amount, 10);
}

#[test]
fn claim_of_another_token_from_a_foreign_record_is_unauthorized() {
    let record = UserStake { user: addr(BOB), amount: 100, bump: 0 };
    let mut ctx = claim_ctx(new_pool(), ALICE, record);
    ctx.reward_mint = addr(STAKE_MINT);
    assert_eq!(claim_rewards_mint(&ctx), Err(CustomError::AuthorizationFailure));
}

#[test]
fn stake_zero_is_invalid_and_asks_for_no_transfer() {
    let mut ctx = stake_ctx(new_pool(), ALICE, None);
    let before = ctx;
    assert_eq!(stake_transfer(&ctx, 0), Err(CustomError::InvalidAmount));
    assert_eq!(stake(&mut ctx, 0, Receipt::Completed), Err(CustomError::InvalidAmount));
    assert_eq!(ctx, before);
}

#[test]
fn stake_refused_transfer_changes_nothing() {
    let mut ctx = stake_ctx(new_pool(), ALICE, None);
    let before = ctx;
    assert_eq!(stake(&mut ctx, 5, Receipt::Refused), Err(CustomError::TransferFailure));
    assert_eq!(ctx, before);
}

#[test]
fn stake_overflow_of_the_record_changes_nothing() {
    let mut pool = new_pool();
    pool.total_staked = 1;
    let record = UserStake { user: addr(ALICE), amount: 1, bump: 250 };
    let mut ctx = stake_ctx(pool, ALICE, Some(record));
    let before = ctx;
    assert_eq!(stake(&mut ctx, u64::MAX, Receipt::Completed), Err(CustomError::MathOverflow));
    assert_eq!(ctx, before);
}

#[test]
fn stake_overflow_of_the_total_changes_nothing() {
    let mut pool = new_pool();
    pool.total_staked = u64::MAX - 4;
    let mut ctx = stake_ctx(pool, ALICE, None);
    let before = ctx;
    assert_eq!(stake(&mut ctx, 5, Receipt::Completed), Err(CustomError::MathOverflow));
    assert_eq!(ctx, before);
    assert_eq!(stake(&mut ctx, 4, Receipt::Completed), Ok(()));
    assert_eq!(ctx.pool.total_staked, u64::MAX);
}

#[test]
fn stake_on_a_foreign_record_is_unauthorized() {
    let record = UserStake { user: addr(BOB), amount: 9, bump: 250 };
    let mut ctx = stake_ctx(new_pool(), ALICE, Some(record));
    let before = ctx;
    assert_eq!(stake_transfer(&ctx, 0), Err(CustomError::AuthorizationFailure));
    assert_eq!(stake(&mut ctx, 3, Receipt::Completed), Err(CustomError::AuthorizationFailure));
    assert_eq!(ctx, before);
}

#[test]
fn unstake_moves_funds_back() {
    let mut pool = new_pool();
    pool.total_staked = 900;
    let record = UserStake { user: addr(ALICE), amount: 300, bump: 9 };
    let mut ctx = unstake_ctx(pool, ALICE, record);
    assert_eq!(
        unstake_transfer(&ctx, 120),
        Ok(Transfer {
            from: addr(VAULT),
            to: addr(ALICE + 100),
            signer: Signer::Custody(CustodyAuthority { address: addr(POOL_KEY), bump: 254 }),
            amount: 120,
        })
    );
    assert_eq!(unstake(&mut ctx, 120, Receipt::Completed), Ok(()));
    assert_eq!(ctx.user_stake, UserStake { user: addr(ALICE), amount: 180, bump: 9 });
    assert_eq!(ctx.pool.total_staked, 780);
}

#[test]
fn unstake_zero_is_invalid() {
    let record = UserStake { user: addr(ALICE), amount: 300, bump: 9 };
    let mut ctx = unstake_ctx(new_pool(), ALICE, record);
    let before = ctx;
    assert_eq!(unstake_transfer(&ctx, 0), Err(CustomError::InvalidAmount));
    assert_eq!(unstake(&mut ctx, 0, Receipt::Completed), Err(CustomError::InvalidAmount));
    assert_eq!(ctx, before);
}

#[test]
fn unstake_over_balance_is_insufficient_and_asks_for_no_transfer() {
    let mut pool = new_pool();
    pool.total_staked = 900;
    let record = UserStake { user: addr(ALICE), amount: 300, bump: 9 };
    let mut ctx = unstake_ctx(pool, ALICE, record);
    let before = ctx;
    assert_eq!(unstake_transfer(&ctx, 301), Err(CustomError::InsufficientStake));
    assert_eq!(unstake(&mut ctx, 301, Receipt::Completed), Err(CustomError::InsufficientStake));
    assert_eq!(ctx, before);
    assert_eq!(unstake(&mut ctx, 300, Receipt::Completed), Ok(()));
    assert_eq!(ctx.user_stake.amount, 0);
}

#[test]
fn unstake_refused_transfer_changes_nothing() {
    let mut pool = new_pool();
    pool.total_staked = 900;
    let record = UserStake { user: addr(ALICE), amount: 300, bump: 9 };
    let mut ctx = unstake_ctx(pool, ALICE, record);
    let before = ctx;
    assert_eq!(unstake(&mut ctx, 10, Receipt::Refused), Err(CustomError::TransferFailure));
    assert_eq!(ctx, before);
}

#[test]
fn unstake_underflow_of_the_total_changes_nothing() {
    let mut pool = new_pool();
    pool.total_staked = 5;
    let record = UserStake { user: addr(ALICE), amount: 300, bump: 9 };
    let mut ctx = unstake_ctx(pool, ALICE, record);
    let before = ctx;
    assert_eq!(unstake(&mut ctx, 6, Receipt::Completed), Err(CustomError::MathOverflow));
    assert_eq!(ctx, before);
}

#[test]
fn unstake_from_a_foreign_record_is_unauthorized() {
    let mut pool = new_pool();
    pool.total_staked = 900;
    let record = UserStake { user: addr(BOB), amount: 300, bump: 9 };
    let mut ctx = unstake_ctx(pool, ALICE, record);
    let before = ctx;
    assert_eq!(unstake_transfer(&ctx, 10), Err(CustomError::AuthorizationFailure));
    assert_eq!(unstake(&mut ctx, 10, Receipt::Completed), Err(CustomError::AuthorizationFailure));
    assert_eq!(unstake(&mut ctx, 0, Receipt::Completed), Err(CustomError::AuthorizationFailure));
    assert_eq!(ctx, before);
}

#[test]
fn claim_from_a_foreign_record_is_unauthorized() {
    let record = UserStake { user: addr(BOB), amount: 300, bump: 9 };
    let ctx = claim_ctx(new_pool(), ALICE, record);
    assert_eq!(claim_rewards_mint(&ctx), Err(CustomError::AuthorizationFailure));
    assert_eq!(claim_rewards(&ctx, Receipt::Completed), Err(CustomError::AuthorizationFailure));
}

#[test]
fn claim_after_staking_99_mints_9() {
    let mut ctx = stake_ctx(new_pool(), ALICE, None);
    assert_eq!(stake(&mut ctx, 99, Receipt::Completed), Ok(()));
    let claim = claim_ctx(ctx.pool, ALICE, ctx.user_stake.unwrap());
    assert_eq!(
        claim_rewards_mint(&claim),
        Ok(MintTo {
            mint: addr(REWARD_MINT),
            to: addr(ALICE + 200),
            signer: Signer::Custody(CustodyAuthority { address: addr(POOL_KEY), bump: 254 }),
            amount: 9,
        })
    );
    assert_eq!(claim_rewards(&claim, Receipt::Completed), Ok(()));
}

#[test]
fn claim_after_staking_100_mints_10() {
    let mut ctx = stake_ctx(new_pool(), ALICE, None);
    assert_eq!(stake(&mut ctx, 100, Receipt::Completed), Ok(()));
    let claim = claim_ctx(ctx.pool, ALICE, ctx.user_stake.unwrap());
    assert_eq!(claim_rewards_mint(&claim).unwrap().amount, 10);
}

#[test]
fn claim_on_small_and_large_balances() {
    let pool = new_pool();
    let record = |amount| UserStake { user: addr(ALICE), amount, bump: 0 };
    assert_eq!(claim_rewards_mint(&claim_ctx(pool, ALICE, record(0))).unwrap().amount, 0);
    assert_eq!(claim_rewards_mint(&claim_ctx(pool, ALICE, record(9))).unwrap().amount, 0);
    assert_eq!(claim_rewards_mint(&claim_ctx(pool, ALICE, record(10))).unwrap().amount, 1);
    assert_eq!(
        claim_rewards_mint(&claim_ctx(pool, ALICE, record(u64::MAX))).unwrap().amount,
        1844674407370955161
    );
}

#[test]
fn claim_with_a_zero_divisor_is_an_overflow() {
    let mut pool = new_pool();
    pool.reward_rate = 0;
    let ctx = claim_ctx(pool, ALICE, UserStake { user: addr(ALICE), amount: 50, bump: 0 });
    assert_eq!(claim_rewards_mint(&ctx), Err(CustomError::MathOverflow));
    assert_eq!(claim_rewards(&ctx, Receipt::Completed), Err(CustomError::MathOverflow));
}

#[test]
fn claim_refused_mint_fails() {
    let ctx = claim_ctx(new_pool(), ALICE, UserStake { user: addr(ALICE), amount: 50, bump: 0 });
    assert_eq!(claim_rewards(&ctx, Receipt::Refused), Err(CustomError::MintFailure));
}

#[test]
fn double_claim_mints_twice() {
    let ctx = claim_ctx(new_pool(), ALICE, UserStake { user: addr(ALICE), amount: 257, bump: 0 });
    let before = ctx;
    let mut minted: u64 = 0;
    for _ in 0..2 {
        let mint = claim_rewards_mint(&ctx).unwrap();
        assert_eq!(claim_rewards(&ctx, Receipt::Completed), Ok(()));
        minted += mint.amount;
    }
    assert_eq!(minted, 2 * 25);
    assert_eq!(ctx, before);
}

#[test]
fn round_trip_of_500() {
    let mut pool = new_pool();
    let mut vault: u64 = 0;
    let mut bob: Option<UserStake> = None;
    deposit(&mut pool, &mut bob, &mut vault, BOB, 1200).unwrap();
    let total_before = pool.total_staked;
    let vault_before = vault;

    let mut alice: Option<UserStake> = None;
    deposit(&mut pool, &mut alice, &mut vault, ALICE, 500).unwrap();
    assert_eq!(alice.unwrap().amount, 500);
    assert_eq!(pool.total_staked, 1700);
    withdraw(&mut pool, &mut alice, &mut vault, ALICE, 500).unwrap();

    assert_eq!(alice.unwrap().amount, 0);
    assert_eq!(alice.unwrap().user, addr(ALICE));
    assert_eq!(pool.total_staked, total_before);
    assert_eq!(vault, vault_before);
}

#[test]
fn funds_are_conserved_over_a_sequence() {
    let mut pool = new_pool();
    let mut vault: u64 = 0;
    let mut alice: Option<UserStake> = None;
    let mut bob: Option<UserStake> = None;
    let held = |r: &Option<UserStake>| r.map_or(0, |s| s.amount);

    deposit(&mut pool, &mut alice, &mut vault, ALICE, 70).unwrap();
    assert_eq!(pool.total_staked, held(&alice) + held(&bob));
    assert_eq!(pool.total_staked, vault);
    deposit(&mut pool, &mut bob, &mut vault, BOB, 30).unwrap();
    assert_eq!(pool.total_staked, held(&alice) + held(&bob));
    assert_eq!(pool.total_staked, vault);
    assert_eq!(deposit(&mut pool, &mut bob, &mut vault, BOB, 0), Err(CustomError::InvalidAmount));
    assert_eq!(pool.total_staked, held(&alice) + held(&bob));
    withdraw(&mut pool, &mut alice, &mut vault, ALICE, 45).unwrap();
    assert_eq!(pool.total_staked, held(&alice) + held(&bob));
    assert_eq!(pool.total_staked, vault);
    assert_eq!(
        withdraw(&mut pool, &mut bob, &mut vault, BOB, 31),
        Err(CustomError::InsufficientStake)
    );
    assert_eq!(pool.total_staked, held(&alice) + held(&bob));
    deposit(&mut pool, &mut alice, &mut vault, ALICE, 5).unwrap();
    withdraw(&mut pool, &mut bob, &mut vault, BOB, 30).unwrap();

    assert_eq!(held(&alice), 30);
    assert_eq!(held(&bob), 0);
    assert_eq!(pool.total_staked, 30);
    assert_eq!(vault, 30);
}

#[test]
fn claim_with_a_zero_divisor_of_another_token_is_an_overflow() {
    let mut pool = new_pool();
    pool.reward_rate = 0;
    let record = UserStake { user: addr(ALICE), amount: 50, bump: 0 };
    let mut ctx = claim_ctx(pool, ALICE, record);
    ctx.reward_mint = addr(STAKE_MINT);
    let before = ctx;
    assert_eq!(claim_rewards_mint(&ctx), Err(CustomError::MathOverflow));
    assert_eq!(claim_rewards(&ctx, Receipt::Completed), Err(CustomError::MathOverflow));
    assert_eq!(claim_rewards(&ctx, Receipt::Refused), Err(CustomError::MathOverflow));
    assert_eq!(ctx, before);
}
