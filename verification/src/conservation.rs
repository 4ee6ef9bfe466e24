//! The ledgers of all users taken together, and what holds of them whatever
//! is called in whatever order: funds are conserved, and no caller touches
//! another user's record.

use crate::accounts::{ClaimRewards, InitializePool, Stake, Unstake};
use crate::address::Address;
use crate::ledger::{Pool, UserStake};
use crate::token::{Receipt, Transfer};
use crate::transitions::{
    claim_instruction, claim_refusal, pool_created, stake_held, stake_instruction, stake_refusal,
    staked, unstake_instruction, unstake_refusal, unstaked,
};
use vstd::prelude::*;

verus! {

/// Everything the transitions read and write, for all users at once.
pub struct World {
    /// The pool record.
    pub pool: Pool,
    /// The stake records that exist, in the order of their creation.
    pub stakes: Seq<UserStake>,
    /// The address of the vault.
    pub vault_key: Address,
    /// The stake tokens that the vault holds.
    pub vault: nat,
    /// The reward tokens created so far.
    pub minted: nat,
}

/// A request as it reaches the ledger, together with the token program's
/// answer to the instruction it leads to. The pool, the vault and the stake
/// record inside the accounts only name what is to be loaded; their contents
/// come from the world.
pub enum Call {
    Stake(Stake, u64, Receipt),
    Unstake(Unstake, u64, Receipt),
    ClaimRewards(ClaimRewards, Receipt),
}

/// The record at index `i` belongs to `user`.
pub open spec fn holds(stakes: Seq<UserStake>, user: Address, i: int) -> bool {
    0 <= i < stakes.len() && stakes[i].user == user
}

/// Where the record of `user` stands, if there is one.
pub open spec fn slot(stakes: Seq<UserStake>, user: Address) -> int {
    choose|i: int| holds(stakes, user, i)
}

/// The record of `user`, found by the user's identity alone.
pub open spec fn record_of(stakes: Seq<UserStake>, user: Address) -> Option<UserStake> {
    if exists|i: int| holds(stakes, user, i) {
        Some(stakes[slot(stakes, user)])
    } else {
        None
    }
}

/// The records after `record` was written back: in place of its owner's
/// earlier record, or as a new one.
pub open spec fn put(stakes: Seq<UserStake>, record: UserStake) -> Seq<UserStake> {
    if exists|i: int| holds(stakes, record.user, i) {
        stakes.update(slot(stakes, record.user), record)
    } else {
        stakes.push(record)
    }
}

/// No user has two records.
pub open spec fn one_record_each(stakes: Seq<UserStake>) -> bool {
    forall|i: int, j: int| 0 <= i < j < stakes.len() ==> stakes[i].user != stakes[j].user
}

/// The sum of all staked amounts.
pub open spec fn total(stakes: Seq<UserStake>) -> int
    decreases stakes.len(),
{
    if stakes.len() == 0 {
        0
    } else {
        total(stakes.drop_last()) + stakes.last().amount
    }
}

/// A token account's balance after the token program carried out `transfer`.
pub open spec fn balance_after(balance: nat, account: Address, transfer: Transfer) -> nat {
    if transfer.from == account && transfer.to == account {
        balance
    } else if transfer.to == account {
        (balance + transfer.amount) as nat
    } else if transfer.from == account {
        (balance - transfer.amount) as nat
    } else {
        balance
    }
}

/// Funds are conserved: the pool's total is the sum of all records and is
/// what the vault holds; the reward divisor is the fixed one; no user has two
/// records.
pub open spec fn conserved(w: World) -> bool {
    &&& w.pool.wf()
    &&& one_record_each(w.stakes)
    &&& w.pool.total_staked == total(w.stakes)
    &&& w.vault == w.pool.total_staked
}

/// The world right after the pool's creation: no records, an empty vault,
/// nothing minted.
pub open spec fn created(ctx: InitializePool, vault_key: Address) -> World {
    World { pool: pool_created(ctx), stakes: Seq::empty(), vault_key, vault: 0, minted: 0 }
}

/// No call in the sequence names the vault as the caller's own token account.
pub open spec fn none_pays_vault_from_vault(calls: Seq<Call>, vault_key: Address) -> bool {
    forall|i: int| 0 <= i < calls.len() ==> !pays_vault_from_vault(#[trigger] calls[i], vault_key)
}

/// The accounts of a deposit as the host loads them: the pool and the vault
/// as they are, and the caller's own record, if there is one.
pub open spec fn stake_accounts(w: World, accounts: Stake) -> Stake {
    Stake {
        pool: w.pool,
        vault: w.vault_key,
        user_stake: record_of(w.stakes, accounts.user),
        ..accounts
    }
}

/// The world after a deposit was requested.
pub open spec fn stake_step(w: World, accounts: Stake, amount: u64, receipt: Receipt) -> World {
    let ctx = stake_accounts(w, accounts);
    if stake_refusal(ctx, amount, receipt) is Some {
        w
    } else {
        let after = staked(ctx, amount);
        World {
            pool: after.pool,
            stakes: put(w.stakes, after.user_stake->0),
            vault: balance_after(w.vault, w.vault_key, stake_instruction(ctx, amount)),
            ..w
        }
    }
}

/// The world after a withdrawal was requested against the record of
/// `accounts.user_stake.user`. Where that record does not exist there is
/// nothing to run on.
pub open spec fn unstake_step(w: World, accounts: Unstake, amount: u64, receipt: Receipt) -> World {
    match record_of(w.stakes, accounts.user_stake.user) {
        None => w,
        Some(record) => {
            let ctx = Unstake { pool: w.pool, vault: w.vault_key, user_stake: record, ..accounts };
            if unstake_refusal(ctx, amount, receipt) is Some {
                w
            } else {
                let after = unstaked(ctx, amount);
                World {
                    pool: after.pool,
                    stakes: put(w.stakes, after.user_stake),
                    vault: balance_after(w.vault, w.vault_key, unstake_instruction(ctx, amount)),
                    ..w
                }
            }
        },
    }
}

/// A withdrawal against the record of `accounts.user_stake.user` goes
/// through: the record exists and nothing refuses the withdrawal.
pub open spec fn unstake_goes_through(
    w: World,
    accounts: Unstake,
    amount: u64,
    receipt: Receipt,
) -> bool {
    match record_of(w.stakes, accounts.user_stake.user) {
        None => false,
        Some(record) => unstake_refusal(
            Unstake { pool: w.pool, vault: w.vault_key, user_stake: record, ..accounts },
            amount,
            receipt,
        ) is None,
    }
}

/// The world after a claim was requested against the record of
/// `accounts.user_stake.user`.
pub open spec fn claim_step(w: World, accounts: ClaimRewards, receipt: Receipt) -> World {
    match record_of(w.stakes, accounts.user_stake.user) {
        None => w,
        Some(record) => {
            let ctx = ClaimRewards { pool: w.pool, user_stake: record, ..accounts };
            if claim_refusal(ctx, receipt) is Some {
                w
            } else {
                World { minted: (w.minted + claim_instruction(ctx).amount) as nat, ..w }
            }
        },
    }
}

/// The world after one call.
pub open spec fn step(w: World, call: Call) -> World {
    match call {
        Call::Stake(accounts, amount, receipt) => stake_step(w, accounts, amount, receipt),
        Call::Unstake(accounts, amount, receipt) => unstake_step(w, accounts, amount, receipt),
        Call::ClaimRewards(accounts, receipt) => claim_step(w, accounts, receipt),
    }
}

/// The world after a sequence of calls, the first call first.
pub open spec fn run(w: World, calls: Seq<Call>) -> World
    decreases calls.len(),
{
    if calls.len() == 0 {
        w
    } else {
        step(run(w, calls.drop_last()), calls.last())
    }
}

/// The authenticated caller of a call.
pub open spec fn caller_of(call: Call) -> Address {
    match call {
        Call::Stake(accounts, _, _) => accounts.user,
        Call::Unstake(accounts, _, _) => accounts.user,
        Call::ClaimRewards(accounts, _) => accounts.user,
    }
}

/// The call is made against a record whose owner is not the caller. A
/// deposit never is: its record is found by the caller's own identity.
pub open spec fn names_foreign_record(call: Call) -> bool {
    match call {
        Call::Stake(_, _, _) => false,
        Call::Unstake(accounts, _, _) => accounts.user_stake.user != accounts.user,
        Call::ClaimRewards(accounts, _) => accounts.user_stake.user != accounts.user,
    }
}

/// The call names the vault itself as the caller's token account, so that
/// its transfer would move tokens from the vault into the vault.
pub open spec fn pays_vault_from_vault(call: Call, vault_key: Address) -> bool {
    match call {
        Call::Stake(accounts, _, _) => accounts.user_token == vault_key,
        Call::Unstake(accounts, _, _) => accounts.user_token == vault_key,
        Call::ClaimRewards(_, _) => false,
    }
}

proof fn lemma_total_push(stakes: Seq<UserStake>, record: UserStake)
    ensures
        total(stakes.push(record)) == total(stakes) + record.amount,
{
    assert(stakes.push(record).drop_last() =~= stakes);
}

proof fn lemma_total_update(stakes: Seq<UserStake>, i: int, record: UserStake)
    requires
        0 <= i < stakes.len(),
    ensures
        total(stakes.update(i, record)) == total(stakes) - stakes[i].amount + record.amount,
    decreases stakes.len(),
{
    let after = stakes.update(i, record);
    if i == stakes.len() - 1 {
        assert(after.drop_last() =~= stakes.drop_last());
    } else {
        lemma_total_update(stakes.drop_last(), i, record);
        assert(after.drop_last() =~= stakes.drop_last().update(i, record));
    }
}

/// No record holds more than all records together.
pub proof fn lemma_record_within_total(stakes: Seq<UserStake>, i: int)
    requires
        0 <= i < stakes.len(),
    ensures
        0 <= stakes[i].amount <= total(stakes),
    decreases stakes.len(),
{
    lemma_total_nonnegative(stakes.drop_last());
    if i < stakes.len() - 1 {
        lemma_record_within_total(stakes.drop_last(), i);
    }
}

proof fn lemma_total_nonnegative(stakes: Seq<UserStake>)
    ensures
        0 <= total(stakes),
    decreases stakes.len(),
{
    if stakes.len() > 0 {
        lemma_total_nonnegative(stakes.drop_last());
    }
}

proof fn lemma_put_keeps_one_record_each(stakes: Seq<UserStake>, record: UserStake)
    requires
        one_record_each(stakes),
    ensures
        one_record_each(put(stakes, record)),
        put(stakes, record).len() >= stakes.len(),
{
    let after = put(stakes, record);
    if exists|i: int| holds(stakes, record.user, i) {
        let at = slot(stakes, record.user);
        assert(holds(stakes, record.user, at));
        assert forall|i: int, j: int| 0 <= i < j < after.len() implies after[i].user
            != after[j].user by {
            assert(after[i].user == stakes[i].user);
            assert(after[j].user == stakes[j].user);
        }
    } else {
        assert forall|i: int, j: int| 0 <= i < j < after.len() implies after[i].user
            != after[j].user by {
            if j == stakes.len() {
                assert(!holds(stakes, record.user, i));
            }
        }
    }
}

/// After a record was written back, every other user's record is what it
/// was.
pub proof fn lemma_put_leaves_others(stakes: Seq<UserStake>, record: UserStake, other: Address)
    requires
        one_record_each(stakes),
        other != record.user,
    ensures
        record_of(put(stakes, record), other) == record_of(stakes, other),
{
    let after = put(stakes, record);
    lemma_put_keeps_one_record_each(stakes, record);
    if exists|i: int| holds(stakes, record.user, i) {
        let at = slot(stakes, record.user);
        assert(holds(stakes, record.user, at));
        assert forall|i: int| holds(after, other, i) <==> holds(stakes, other, i) by {
            if 0 <= i < stakes.len() && i != at {
                assert(after[i] == stakes[i]);
            }
        }
    } else {
        assert forall|i: int| holds(after, other, i) <==> holds(stakes, other, i) by {
            if 0 <= i < stakes.len() {
                assert(after[i] == stakes[i]);
            }
        }
    }
    if exists|i: int| holds(stakes, other, i) {
        let before_at = slot(stakes, other);
        assert(holds(stakes, other, before_at));
        assert(holds(after, other, before_at));
        let after_at = slot(after, other);
        assert(holds(after, other, after_at));
        assert(after_at == before_at) by {
            if after_at < before_at {
                assert(after[after_at].user != after[before_at].user);
            } else if before_at < after_at {
                assert(after[before_at].user != after[after_at].user);
            }
        }
        assert(after[before_at] == stakes[before_at]);
    } else {
        assert(!exists|i: int| holds(after, other, i)) by {
            if exists|i: int| holds(after, other, i) {
                let i = choose|i: int| holds(after, other, i);
                assert(holds(stakes, other, i));
            }
        }
    }
}

/// Funds are conserved in a newly created pool.
pub proof fn lemma_created_is_conserved(ctx: InitializePool, vault_key: Address)
    ensures
        conserved(created(ctx, vault_key)),
{
}

/// A deposit keeps funds conserved, whether it goes through or not, unless
/// the caller names the vault as the account that pays.
pub proof fn lemma_stake_conserves(w: World, accounts: Stake, amount: u64, receipt: Receipt)
    requires
        conserved(w),
        accounts.user_token != w.vault_key,
    ensures
        conserved(stake_step(w, accounts, amount, receipt)),
        stake_step(w, accounts, amount, receipt).vault_key == w.vault_key,
{
    let ctx = stake_accounts(w, accounts);
    if stake_refusal(ctx, amount, receipt) is None {
        let record = staked(ctx, amount).user_stake->0;
        assert(record.user == accounts.user);
        lemma_put_keeps_one_record_each(w.stakes, record);
        if exists|i: int| holds(w.stakes, accounts.user, i) {
            let at = slot(w.stakes, accounts.user);
            assert(holds(w.stakes, accounts.user, at));
            lemma_total_update(w.stakes, at, record);
        } else {
            lemma_total_push(w.stakes, record);
        }
    }
}

/// A withdrawal keeps funds conserved, whether it goes through or not,
/// unless the caller names the vault as the account that receives.
pub proof fn lemma_unstake_conserves(w: World, accounts: Unstake, amount: u64, receipt: Receipt)
    requires
        conserved(w),
        accounts.user_token != w.vault_key,
    ensures
        conserved(unstake_step(w, accounts, amount, receipt)),
        unstake_step(w, accounts, amount, receipt).vault_key == w.vault_key,
{
    let owner = accounts.user_stake.user;
    if exists|i: int| holds(w.stakes, owner, i) {
        let at = slot(w.stakes, owner);
        assert(holds(w.stakes, owner, at));
        let ctx = Unstake {
            pool: w.pool,
            vault: w.vault_key,
            user_stake: w.stakes[at],
            ..accounts
        };
        if unstake_refusal(ctx, amount, receipt) is None {
            let record = unstaked(ctx, amount).user_stake;
            assert(record.user == owner);
            lemma_put_keeps_one_record_each(w.stakes, record);
            lemma_total_update(w.stakes, at, record);
            lemma_record_within_total(w.stakes, at);
        }
    }
}

/// A deposit that goes through, from a token account other than the vault,
/// raises the vault's balance and the pool's total by exactly the amount, so
/// that the two are equal afterwards as they were before.
pub proof fn lemma_stake_moves_amount(w: World, accounts: Stake, amount: u64)
    requires
        conserved(w),
        accounts.user_token != w.vault_key,
        stake_refusal(stake_accounts(w, accounts), amount, Receipt::Completed) is None,
    ensures
        ({
            let after = stake_step(w, accounts, amount, Receipt::Completed);
            &&& after.vault == w.vault + amount
            &&& after.pool.total_staked == w.pool.total_staked + amount
            &&& after.vault == after.pool.total_staked
        }),
{
    lemma_stake_conserves(w, accounts, amount, Receipt::Completed);
}

/// A withdrawal that goes through, into a token account other than the
/// vault, lowers the vault's balance and the pool's total by exactly the
/// amount, so that the two are equal afterwards as they were before.
pub proof fn lemma_unstake_moves_amount(w: World, accounts: Unstake, amount: u64)
    requires
        conserved(w),
        accounts.user_token != w.vault_key,
        unstake_goes_through(w, accounts, amount, Receipt::Completed),
    ensures
        ({
            let after = unstake_step(w, accounts, amount, Receipt::Completed);
            &&& after.vault == w.vault - amount
            &&& after.pool.total_staked == w.pool.total_staked - amount
            &&& after.vault == after.pool.total_staked
        }),
{
    lemma_unstake_conserves(w, accounts, amount, Receipt::Completed);
}

/// A claim changes neither the pool, nor any record, nor the vault.
pub proof fn lemma_claim_leaves_ledgers(w: World, accounts: ClaimRewards, receipt: Receipt)
    ensures
        claim_step(w, accounts, receipt).pool == w.pool,
        claim_step(w, accounts, receipt).stakes == w.stakes,
        claim_step(w, accounts, receipt).vault == w.vault,
        claim_step(w, accounts, receipt).vault_key == w.vault_key,
        claim_step(w, accounts, receipt).minted >= w.minted,
{
}

/// One call keeps funds conserved.
pub proof fn lemma_step_conserves(w: World, call: Call)
    requires
        conserved(w),
        !pays_vault_from_vault(call, w.vault_key),
    ensures
        conserved(step(w, call)),
        step(w, call).vault_key == w.vault_key,
{
    match call {
        Call::Stake(accounts, amount, receipt) => {
            lemma_stake_conserves(w, accounts, amount, receipt);
        },
        Call::Unstake(accounts, amount, receipt) => {
            lemma_unstake_conserves(w, accounts, amount, receipt);
        },
        Call::ClaimRewards(accounts, receipt) => {
            lemma_claim_leaves_ledgers(w, accounts, receipt);
        },
    }
}

/// Any sequence of calls keeps funds conserved.
pub proof fn lemma_run_conserves(w: World, calls: Seq<Call>)
    requires
        conserved(w),
        none_pays_vault_from_vault(calls, w.vault_key),
    ensures
        conserved(run(w, calls)),
        run(w, calls).vault_key == w.vault_key,
    decreases calls.len(),
{
    if calls.len() > 0 {
        let earlier = calls.drop_last();
        assert forall|i: int| 0 <= i < earlier.len() implies !pays_vault_from_vault(
            #[trigger] earlier[i],
            w.vault_key,
        ) by {
            assert(earlier[i] == calls[i]);
        }
        lemma_run_conserves(w, earlier);
        lemma_step_conserves(run(w, earlier), calls.last());
    }
}

/// Conservation. Start from a world in which funds are conserved and make
/// any calls in any order, none of which names the vault as the caller's own
/// token account. Then at every point the pool's total is the sum of all
/// users' staked amounts and is the vault's balance, and no record holds
/// more than the pool's total.
pub proof fn lemma_conserved_at_every_point(w: World, calls: Seq<Call>, k: int)
    requires
        conserved(w),
        none_pays_vault_from_vault(calls, w.vault_key),
        0 <= k <= calls.len(),
    ensures
        run(w, calls.take(k)).pool.total_staked == total(run(w, calls.take(k)).stakes),
        run(w, calls.take(k)).vault == run(w, calls.take(k)).pool.total_staked,
        forall|i: int|
            0 <= i < run(w, calls.take(k)).stakes.len() ==> run(w, calls.take(k)).stakes[i].amount
                <= run(w, calls.take(k)).pool.total_staked,
{
    let prefix = calls.take(k);
    assert forall|i: int| 0 <= i < prefix.len() implies !pays_vault_from_vault(
        #[trigger] prefix[i],
        w.vault_key,
    ) by {
        assert(prefix[i] == calls[i]);
    }
    lemma_run_conserves(w, prefix);
    let reached = run(w, prefix);
    assert forall|i: int| 0 <= i < reached.stakes.len() implies reached.stakes[i].amount
        <= reached.pool.total_staked by {
        lemma_record_within_total(reached.stakes, i);
    }
}

/// Ownership isolation. Whatever a caller asks for, and whichever record
/// they name, the record of every other user is afterwards what it was
/// before.
pub proof fn lemma_others_untouched(w: World, call: Call, other: Address)
    requires
        one_record_each(w.stakes),
        other != caller_of(call),
    ensures
        record_of(step(w, call).stakes, other) == record_of(w.stakes, other),
{
    match call {
        Call::Stake(accounts, amount, receipt) => {
            let ctx = stake_accounts(w, accounts);
            if stake_refusal(ctx, amount, receipt) is None {
                lemma_put_leaves_others(w.stakes, staked(ctx, amount).user_stake->0, other);
            }
        },
        Call::Unstake(accounts, amount, receipt) => {
            let owner = accounts.user_stake.user;
            if exists|i: int| holds(w.stakes, owner, i) {
                let record = w.stakes[slot(w.stakes, owner)];
                assert(holds(w.stakes, owner, slot(w.stakes, owner)));
                let ctx = Unstake {
                    pool: w.pool,
                    vault: w.vault_key,
                    user_stake: record,
                    ..accounts
                };
                if unstake_refusal(ctx, amount, receipt) is None {
                    lemma_put_leaves_others(w.stakes, unstaked(ctx, amount).user_stake, other);
                }
            }
        },
        Call::ClaimRewards(accounts, receipt) => {},
    }
}

/// A call against a record that is not the caller's own changes nothing at
/// all: no ledger, no balance, no reward.
pub proof fn lemma_foreign_record_changes_nothing(w: World, call: Call)
    requires
        names_foreign_record(call),
    ensures
        step(w, call) == w,
{
    match call {
        Call::Stake(_, _, _) => {},
        Call::Unstake(accounts, amount, receipt) => {
            let owner = accounts.user_stake.user;
            if exists|i: int| holds(w.stakes, owner, i) {
                assert(holds(w.stakes, owner, slot(w.stakes, owner)));
            }
        },
        Call::ClaimRewards(accounts, receipt) => {
            let owner = accounts.user_stake.user;
            if exists|i: int| holds(w.stakes, owner, i) {
                assert(holds(w.stakes, owner, slot(w.stakes, owner)));
            }
        },
    }
}

/// A record that was written back is the record of its owner.
pub proof fn lemma_put_is_read_back(stakes: Seq<UserStake>, record: UserStake)
    requires
        one_record_each(stakes),
    ensures
        record_of(put(stakes, record), record.user) == Some(record),
{
    let after = put(stakes, record);
    lemma_put_keeps_one_record_each(stakes, record);
    let at = if exists|i: int| holds(stakes, record.user, i) {
        slot(stakes, record.user)
    } else {
        stakes.len() as int
    };
    if exists|i: int| holds(stakes, record.user, i) {
        assert(holds(stakes, record.user, at));
    }
    assert(holds(after, record.user, at));
    let found = slot(after, record.user);
    assert(holds(after, record.user, found));
    if found < at {
        assert(after[found].user != after[at].user);
    } else if at < found {
        assert(after[at].user != after[found].user);
    }
}

/// Round trip. Where a deposit goes through and the same user then
/// withdraws the same amount into the token account that paid, the
/// withdrawal goes through whenever the token program carries out its
/// transfer, and the pool's total, the vault's balance, the user's staked
/// amount and the balance of the user's token account, `wallet` before the
/// deposit, are again what they were before the deposit.
pub proof fn lemma_round_trip(
    w: World,
    deposit: Stake,
    withdrawal: Unstake,
    amount: u64,
    wallet: nat,
)
    requires
        conserved(w),
        deposit.user_token != w.vault_key,
        withdrawal.user_token == deposit.user_token,
        withdrawal.user == deposit.user,
        withdrawal.user_stake.user == deposit.user,
        wallet >= amount,
        stake_refusal(stake_accounts(w, deposit), amount, Receipt::Completed) is None,
    ensures
        ({
            let paid = stake_instruction(stake_accounts(w, deposit), amount);
            let between = stake_step(w, deposit, amount, Receipt::Completed);
            let after = unstake_step(between, withdrawal, amount, Receipt::Completed);
            let returned = unstake_instruction(
                Unstake {
                    pool: between.pool,
                    vault: between.vault_key,
                    user_stake: record_of(between.stakes, deposit.user)->0,
                    ..withdrawal
                },
                amount,
            );
            &&& unstake_goes_through(between, withdrawal, amount, Receipt::Completed)
            &&& balance_after(
                balance_after(wallet, deposit.user_token, paid),
                deposit.user_token,
                returned,
            ) == wallet
            &&& record_of(between.stakes, deposit.user) is Some
            &&& record_of(between.stakes, deposit.user)->0.amount == stake_held(
                stake_accounts(w, deposit),
            ) + amount
            &&& after.pool == w.pool
            &&& after.vault == w.vault
            &&& record_of(after.stakes, deposit.user) is Some
            &&& record_of(after.stakes, deposit.user)->0.amount == stake_held(
                stake_accounts(w, deposit),
            )
        }),
{
    let ctx = stake_accounts(w, deposit);
    let written = staked(ctx, amount).user_stake->0;
    let between = stake_step(w, deposit, amount, Receipt::Completed);
    lemma_stake_conserves(w, deposit, amount, Receipt::Completed);
    lemma_put_is_read_back(w.stakes, written);
    assert(record_of(between.stakes, deposit.user) == Some(written));
    let back = Unstake {
        pool: between.pool,
        vault: between.vault_key,
        user_stake: written,
        ..withdrawal
    };
    assert(unstake_refusal(back, amount, Receipt::Completed) is None);
    let restored = unstaked(back, amount).user_stake;
    lemma_put_is_read_back(between.stakes, restored);
}

/// Double claim. Two claims in a row, with nothing staked or withdrawn in
/// between, each mint the full reward: together twice the tenth of the
/// staked amount, rounded down. No ledger changes, so the reward is not
/// paid out of anything.
pub proof fn lemma_double_claim(w: World, accounts: ClaimRewards)
    requires
        w.pool.wf(),
        accounts.user_stake.user == accounts.user,
        accounts.reward_mint == w.pool.reward_mint,
        record_of(w.stakes, accounts.user) is Some,
    ensures
        ({
            let held = record_of(w.stakes, accounts.user)->0.amount;
            let once = claim_step(w, accounts, Receipt::Completed);
            let twice = claim_step(once, accounts, Receipt::Completed);
            &&& once.minted == w.minted + held / 10
            &&& twice.minted == w.minted + 2 * (held / 10)
            &&& twice.pool == w.pool
            &&& twice.stakes == w.stakes
            &&& twice.vault == w.vault
        }),
{
    assert(holds(w.stakes, accounts.user, slot(w.stakes, accounts.user)));
}

} // verus!
