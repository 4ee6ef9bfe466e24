use crate::accounts::{ClaimRewards, InitializePool, Stake, Unstake};
use crate::address::Address;
use crate::custody::CustodyAuthority;
use crate::error::CustomError;
use crate::ledger::{Pool, UserStake, REWARD_RATE};
use crate::token::{MintTo, Receipt, Signer, Transfer};
use vstd::prelude::*;

verus! {

/// The pool record that creation writes.
pub open spec fn pool_created(ctx: InitializePool) -> Pool {
    Pool {
        authority: ctx.authority,
        stake_mint: ctx.stake_mint,
        reward_mint: ctx.reward_mint,
        total_staked: 0,
        reward_rate: REWARD_RATE,
        bump: ctx.pool_bump,
        vault_bump: ctx.vault_bump,
    }
}

/// Creates the pool: nothing staked, the fixed reward divisor, the caller as
/// administrator. It cannot fail.
pub fn initialize_pool(ctx: &mut InitializePool) -> (r: Result<(), CustomError>)
    ensures
        r is Ok,
        *final(ctx) == (InitializePool { pool: pool_created(*old(ctx)), ..*old(ctx) }),
        final(ctx).pool.wf(),
{
    ctx.pool.authority = ctx.authority;
    ctx.pool.stake_mint = ctx.stake_mint;
    ctx.pool.reward_mint = ctx.reward_mint;
    ctx.pool.total_staked = 0;
    ctx.pool.reward_rate = REWARD_RATE;
    ctx.pool.bump = ctx.pool_bump;
    ctx.pool.vault_bump = ctx.vault_bump;
    Ok(())
}

/// The amount that the caller's record holds before a deposit: nothing, if
/// there is no record yet.
pub open spec fn stake_held(ctx: Stake) -> u64 {
    match ctx.user_stake {
        Some(record) => record.amount,
        None => 0,
    }
}

/// Why a deposit is refused before the token program is asked, if it is.
pub open spec fn stake_rejection(ctx: Stake, amount: u64) -> Option<CustomError> {
    if ctx.user_stake is Some && ctx.user_stake->0.user != ctx.user {
        Some(CustomError::AuthorizationFailure)
    } else if amount == 0 {
        Some(CustomError::InvalidAmount)
    } else {
        None
    }
}

/// Why a deposit fails as a whole, if it does, given the token program's
/// answer to the transfer.
pub open spec fn stake_refusal(ctx: Stake, amount: u64, receipt: Receipt) -> Option<CustomError> {
    if stake_rejection(ctx, amount) is Some {
        stake_rejection(ctx, amount)
    } else if receipt == Receipt::Refused {
        Some(CustomError::TransferFailure)
    } else if stake_held(ctx) + amount > u64::MAX || ctx.pool.total_staked + amount > u64::MAX {
        Some(CustomError::MathOverflow)
    } else {
        None
    }
}

/// The confirming value of the caller's record after a deposit: the one
/// recorded when the record was created, or the one handed in where the
/// deposit creates it.
pub open spec fn stake_bump(ctx: Stake) -> u8 {
    match ctx.user_stake {
        Some(record) => record.bump,
        None => ctx.user_stake_bump,
    }
}

/// The accounts after a deposit of `amount` that went through.
pub open spec fn staked(ctx: Stake, amount: u64) -> Stake {
    Stake {
        pool: Pool { total_staked: (ctx.pool.total_staked + amount) as u64, ..ctx.pool },
        user_stake: Some(
            UserStake {
                user: ctx.user,
                amount: (stake_held(ctx) + amount) as u64,
                bump: stake_bump(ctx),
            },
        ),
        ..ctx
    }
}

/// The transfer that a deposit asks of the token program: `amount` from the
/// caller's token account into the vault, signed by the caller.
pub open spec fn stake_instruction(ctx: Stake, amount: u64) -> Transfer {
    Transfer { from: ctx.user_token, to: ctx.vault, signer: Signer::Caller(ctx.user), amount }
}

/// Validates a deposit and says what to ask of the token program. Where it
/// returns an error, no transfer is to be attempted.
pub fn stake_transfer(ctx: &Stake, amount: u64) -> (r: Result<Transfer, CustomError>)
    ensures
        match stake_rejection(*ctx, amount) {
            Some(e) => r == Err::<Transfer, CustomError>(e),
            None => r == Ok::<Transfer, CustomError>(stake_instruction(*ctx, amount)),
        },
{
    if let Some(record) = ctx.user_stake {
        if record.user != ctx.user {
            return Err(CustomError::AuthorizationFailure);
        }
    }
    if amount == 0 {
        return Err(CustomError::InvalidAmount);
    }
    Ok(Transfer { from: ctx.user_token, to: ctx.vault, signer: Signer::Caller(ctx.user), amount })
}

/// Deposits `amount` for the caller, given the token program's answer to the
/// transfer that `stake_transfer` asked for. Either the caller's record and
/// the pool's total both grow by `amount`, or nothing changes.
pub fn stake(ctx: &mut Stake, amount: u64, receipt: Receipt) -> (r: Result<(), CustomError>)
    ensures
        match stake_refusal(*old(ctx), amount, receipt) {
            Some(e) => r == Err::<(), CustomError>(e) && *final(ctx) == *old(ctx),
            None => r is Ok && *final(ctx) == staked(*old(ctx), amount),
        },
{
    if let Err(e) = stake_transfer(ctx, amount) {
        return Err(e);
    }
    if receipt == Receipt::Refused {
        return Err(CustomError::TransferFailure);
    }
    let (held, bump): (u64, u8) = match ctx.user_stake {
        Some(record) => (record.amount, record.bump),
        None => (0, ctx.user_stake_bump),
    };
    let amount_after: u64 = match held.checked_add(amount) {
        Some(sum) => sum,
        None => {
            return Err(CustomError::MathOverflow);
        },
    };
    let total_after: u64 = match ctx.pool.total_staked.checked_add(amount) {
        Some(sum) => sum,
        None => {
            return Err(CustomError::MathOverflow);
        },
    };
    ctx.user_stake = Some(UserStake { user: ctx.user, amount: amount_after, bump });
    ctx.pool.total_staked = total_after;
    Ok(())
}

/// Why a withdrawal is refused before the token program is asked, if it is.
pub open spec fn unstake_rejection(ctx: Unstake, amount: u64) -> Option<CustomError> {
    if ctx.user_stake.user != ctx.user {
        Some(CustomError::AuthorizationFailure)
    } else if amount == 0 {
        Some(CustomError::InvalidAmount)
    } else if ctx.user_stake.amount < amount {
        Some(CustomError::InsufficientStake)
    } else {
        None
    }
}

/// Why a withdrawal fails as a whole, if it does, given the token program's
/// answer to the transfer.
pub open spec fn unstake_refusal(ctx: Unstake, amount: u64, receipt: Receipt) -> Option<
    CustomError,
> {
    if unstake_rejection(ctx, amount) is Some {
        unstake_rejection(ctx, amount)
    } else if receipt == Receipt::Refused {
        Some(CustomError::TransferFailure)
    } else if ctx.pool.total_staked < amount {
        Some(CustomError::MathOverflow)
    } else {
        None
    }
}

/// The accounts after a withdrawal of `amount` that went through.
pub open spec fn unstaked(ctx: Unstake, amount: u64) -> Unstake {
    Unstake {
        pool: Pool { total_staked: (ctx.pool.total_staked - amount) as u64, ..ctx.pool },
        user_stake: UserStake {
            amount: (ctx.user_stake.amount - amount) as u64,
            ..ctx.user_stake
        },
        ..ctx
    }
}

/// The authority that owns the vault and mints rewards: the pool's own
/// address, confirmed by the value recorded when the pool was created.
pub open spec fn custody_of(pool_key: Address, pool: Pool) -> CustodyAuthority {
    CustodyAuthority { address: pool_key, bump: pool.bump }
}

/// The transfer that a withdrawal asks of the token program: `amount` from
/// the vault into the caller's token account, signed by the custody authority.
pub open spec fn unstake_instruction(ctx: Unstake, amount: u64) -> Transfer {
    Transfer {
        from: ctx.vault,
        to: ctx.user_token,
        signer: Signer::Custody(custody_of(ctx.pool_key, ctx.pool)),
        amount,
    }
}

/// Validates a withdrawal and says what to ask of the token program. Where
/// it returns an error, no transfer is to be attempted.
pub fn unstake_transfer(ctx: &Unstake, amount: u64) -> (r: Result<Transfer, CustomError>)
    ensures
        match unstake_rejection(*ctx, amount) {
            Some(e) => r == Err::<Transfer, CustomError>(e),
            None => r == Ok::<Transfer, CustomError>(unstake_instruction(*ctx, amount)),
        },
{
    if ctx.user_stake.user != ctx.user {
        return Err(CustomError::AuthorizationFailure);
    }
    if amount == 0 {
        return Err(CustomError::InvalidAmount);
    }
    if ctx.user_stake.amount < amount {
        return Err(CustomError::InsufficientStake);
    }
    let custody = CustodyAuthority { address: ctx.pool_key, bump: ctx.pool.bump };
    Ok(Transfer { from: ctx.vault, to: ctx.user_token, signer: Signer::Custody(custody), amount })
}

/// Withdraws `amount` for the caller, given the token program's answer to
/// the transfer that `unstake_transfer` asked for. Either the caller's record
/// and the pool's total both shrink by `amount`, or nothing changes.
pub fn unstake(ctx: &mut Unstake, amount: u64, receipt: Receipt) -> (r: Result<(), CustomError>)
    ensures
        match unstake_refusal(*old(ctx), amount, receipt) {
            Some(e) => r == Err::<(), CustomError>(e) && *final(ctx) == *old(ctx),
            None => r is Ok && *final(ctx) == unstaked(*old(ctx), amount),
        },
{
    if let Err(e) = unstake_transfer(ctx, amount) {
        return Err(e);
    }
    if receipt == Receipt::Refused {
        return Err(CustomError::TransferFailure);
    }
    let amount_after: u64 = match ctx.user_stake.amount.checked_sub(amount) {
        Some(rest) => rest,
        None => {
            return Err(CustomError::MathOverflow);
        },
    };
    let total_after: u64 = match ctx.pool.total_staked.checked_sub(amount) {
        Some(rest) => rest,
        None => {
            return Err(CustomError::MathOverflow);
        },
    };
    ctx.user_stake.amount = amount_after;
    ctx.pool.total_staked = total_after;
    Ok(())
}

/// The reward that a staked balance earns per claim: the balance divided by
/// the divisor, rounded down. It is undefined for a divisor of zero.
pub open spec fn reward_for(staked: u64, rate: u64) -> Option<u64> {
    if rate == 0 {
        None
    } else {
        Some((staked / rate) as u64)
    }
}

/// Why a claim is refused before the token program is asked, if it is: the
/// owner is tested first, then the reward is computed, and last the mint is
/// made out. The pool alone says which token rewards are paid in: a claim
/// that names another token is refused as a mint that cannot be made.
pub open spec fn claim_rejection(ctx: ClaimRewards) -> Option<CustomError> {
    if ctx.user_stake.user != ctx.user {
        Some(CustomError::AuthorizationFailure)
    } else if reward_for(ctx.user_stake.amount, ctx.pool.reward_rate) is None {
        Some(CustomError::MathOverflow)
    } else if ctx.reward_mint != ctx.pool.reward_mint {
        Some(CustomError::MintFailure)
    } else {
        None
    }
}

/// Why a claim fails as a whole, if it does, given the token program's answer
/// to the mint.
pub open spec fn claim_refusal(ctx: ClaimRewards, receipt: Receipt) -> Option<CustomError> {
    if claim_rejection(ctx) is Some {
        claim_rejection(ctx)
    } else if receipt == Receipt::Refused {
        Some(CustomError::MintFailure)
    } else {
        None
    }
}

/// The mint that a claim asks of the token program: the caller's reward, in
/// the pool's reward token, into the caller's reward token account, signed
/// by the custody authority.
pub open spec fn claim_instruction(ctx: ClaimRewards) -> MintTo
    recommends
        ctx.pool.reward_rate != 0,
{
    MintTo {
        mint: ctx.pool.reward_mint,
        to: ctx.user_reward_token,
        signer: Signer::Custody(custody_of(ctx.pool_key, ctx.pool)),
        amount: (ctx.user_stake.amount / ctx.pool.reward_rate) as u64,
    }
}

/// Validates a claim and says what to ask of the token program. Where it
/// returns an error, no mint is to be attempted.
pub fn claim_rewards_mint(ctx: &ClaimRewards) -> (r: Result<MintTo, CustomError>)
    ensures
        match claim_rejection(*ctx) {
            Some(e) => r == Err::<MintTo, CustomError>(e),
            None => r == Ok::<MintTo, CustomError>(claim_instruction(*ctx)),
        },
        r is Ok ==> r->Ok_0.mint == ctx.pool.reward_mint,
        ctx.pool.wf() && r is Ok ==> r->Ok_0.amount == ctx.user_stake.amount / 10,
{
    if ctx.user_stake.user != ctx.user {
        return Err(CustomError::AuthorizationFailure);
    }
    let reward: u64 = match ctx.user_stake.amount.checked_div(ctx.pool.reward_rate) {
        Some(quotient) => quotient,
        None => {
            return Err(CustomError::MathOverflow);
        },
    };
    if ctx.reward_mint != ctx.pool.reward_mint {
        return Err(CustomError::MintFailure);
    }
    let custody = CustodyAuthority { address: ctx.pool_key, bump: ctx.pool.bump };
    Ok(
        MintTo {
            mint: ctx.pool.reward_mint,
            to: ctx.user_reward_token,
            signer: Signer::Custody(custody),
            amount: reward,
        },
    )
}

/// Settles a claim, given the token program's answer to the mint that
/// `claim_rewards_mint` asked for. A claim reads the ledgers and never writes
/// them: the staked balance and the pool's total stay as they are, so a
/// second claim earns the same reward again.
pub fn claim_rewards(ctx: &ClaimRewards, receipt: Receipt) -> (r: Result<(), CustomError>)
    ensures
        match claim_refusal(*ctx, receipt) {
            Some(e) => r == Err::<(), CustomError>(e),
            None => r is Ok,
        },
{
    if let Err(e) = claim_rewards_mint(ctx) {
        return Err(e);
    }
    if receipt == Receipt::Refused {
        return Err(CustomError::MintFailure);
    }
    Ok(())
}

/// A withdrawal against a record that is not the caller's own is refused as
/// unauthorized, whatever the amount and whatever the token program would
/// answer, and before any transfer is asked for.
pub proof fn lemma_foreign_unstake_is_unauthorized(ctx: Unstake, amount: u64, receipt: Receipt)
    requires
        ctx.user_stake.user != ctx.user,
    ensures
        unstake_rejection(ctx, amount) == Some(CustomError::AuthorizationFailure),
        unstake_refusal(ctx, amount, receipt) == Some(CustomError::AuthorizationFailure),
{
}

/// A claim against a record that is not the caller's own is refused as
/// unauthorized, whatever the token program would answer, and before any
/// mint is asked for.
pub proof fn lemma_foreign_claim_is_unauthorized(ctx: ClaimRewards, receipt: Receipt)
    requires
        ctx.user_stake.user != ctx.user,
    ensures
        claim_rejection(ctx) == Some(CustomError::AuthorizationFailure),
        claim_refusal(ctx, receipt) == Some(CustomError::AuthorizationFailure),
{
}

/// A transition that fails on arithmetic was about to leave the 64-bit
/// range, and one that goes through stays inside it: after a deposit both
/// ledgers are the exact sums, after a withdrawal the exact differences.
pub proof fn lemma_ledgers_stay_in_range(deposit: Stake, withdrawal: Unstake, amount: u64)
    ensures
        stake_refusal(deposit, amount, Receipt::Completed) is None ==> {
            &&& staked(deposit, amount).pool.total_staked == deposit.pool.total_staked + amount
            &&& staked(deposit, amount).user_stake->0.amount == stake_held(deposit) + amount
        },
        stake_refusal(deposit, amount, Receipt::Completed) == Some(CustomError::MathOverflow) ==> {
            ||| stake_held(deposit) + amount > u64::MAX
            ||| deposit.pool.total_staked + amount > u64::MAX
        },
        unstake_refusal(withdrawal, amount, Receipt::Completed) is None ==> {
            &&& unstaked(withdrawal, amount).pool.total_staked == withdrawal.pool.total_staked
                - amount
            &&& unstaked(withdrawal, amount).user_stake.amount == withdrawal.user_stake.amount
                - amount
        },
        unstake_refusal(withdrawal, amount, Receipt::Completed) == Some(
            CustomError::MathOverflow,
        ) ==> withdrawal.pool.total_staked - amount < 0,
{
}

} // verus!
