//! The token economy: accounts with a free balance and a staked amount,
//! transfers, stakes that lock for a year, penalties and rewards, each
//! recorded as a transaction. Rates that are fractions (staking yield, the
//! risk surcharge on fees) are applied outside this module, which takes the
//! amounts they produce.
use vstd::prelude::*;

use crate::clock::now_secs;
use crate::collections::StringMap;
use crate::execution::AtomicDecisionUnit;
use crate::state::StateStore;
use crate::text::{decimal, push_decimal, push_str, str_eq};

verus! {

/// An account.
#[derive(Debug)]
pub struct Account {
    pub id: String,
    pub balance: u64,
    pub staked_amount: u64,
    pub reputation_score: u64,
    pub last_activity: u64,
    /// Raises the fee the account pays.
    pub risk_score: u64,
}

impl Clone for Account {
    fn clone(&self) -> (r: Self)
        ensures
            r == *self,
    {
        Account {
            id: self.id.clone(),
            balance: self.balance,
            staked_amount: self.staked_amount,
            reputation_score: self.reputation_score,
            last_activity: self.last_activity,
            risk_score: self.risk_score,
        }
    }
}

/// What a transaction did.
#[derive(Debug, Clone, Copy, PartialEq, Eq, Structural)]
pub enum TransactionType {
    Transfer,
    Stake,
    Unstake,
    Penalty,
    Reward,
    Fee,
}

/// A recorded movement of funds.
#[derive(Debug)]
pub struct Transaction {
    pub id: String,
    pub from: String,
    pub to: String,
    pub amount: u64,
    pub fee: u64,
    pub timestamp: u64,
    pub transaction_type: TransactionType,
}

/// A transaction with its texts as character sequences.
pub struct TxView {
    pub id: Seq<char>,
    pub from: Seq<char>,
    pub to: Seq<char>,
    pub amount: u64,
    pub fee: u64,
    pub timestamp: u64,
    pub transaction_type: TransactionType,
}

impl View for Transaction {
    type V = TxView;

    open spec fn view(&self) -> TxView {
        TxView {
            id: self.id@,
            from: self.from@,
            to: self.to@,
            amount: self.amount,
            fee: self.fee,
            timestamp: self.timestamp,
            transaction_type: self.transaction_type,
        }
    }
}

/// Where a stake stands.
#[derive(Debug, Clone, Copy, PartialEq, Eq, Structural)]
pub enum StakeStatus {
    Active,
    Locked,
    Withdrawn,
    Slashed,
}

/// A stake of `amount` locked by `staker` from `start_time` for `duration`
/// seconds.
#[derive(Debug)]
pub struct StakeRecord {
    pub staker: String,
    pub amount: u64,
    pub start_time: u64,
    pub duration: u64,
    pub status: StakeStatus,
}

/// A stake with its staker as a character sequence.
pub struct StakeView {
    pub staker: Seq<char>,
    pub amount: u64,
    pub start_time: u64,
    pub duration: u64,
    pub status: StakeStatus,
}

impl View for StakeRecord {
    type V = StakeView;

    open spec fn view(&self) -> StakeView {
        StakeView {
            staker: self.staker@,
            amount: self.amount,
            start_time: self.start_time,
            duration: self.duration,
            status: self.status,
        }
    }
}

/// The views of a list of stakes.
pub open spec fn stakes_view(ss: Seq<StakeRecord>) -> Seq<StakeView> {
    ss.map_values(|s: StakeRecord| s@)
}

impl Clone for StakeRecord {
    fn clone(&self) -> (r: Self)
        ensures
            r == *self,
    {
        StakeRecord {
            staker: self.staker.clone(),
            amount: self.amount,
            start_time: self.start_time,
            duration: self.duration,
            status: self.status,
        }
    }
}

/// The integer parameters of the economy.
#[derive(Debug, Clone, Copy)]
pub struct EconomicParameters {
    /// Fee charged on a transfer, and the base of the execution fee.
    pub base_fee: u64,
    /// Smallest amount that can be staked, and the stake an account needs
    /// to execute decisions.
    pub stake_requirement: u64,
    /// Violation rate, in percent, that triggers slashing.
    pub slashing_threshold: u64,
    /// Reputation an account needs to execute decisions.
    pub min_reputation: u64,
}

/// The economic engine.
#[derive(Debug)]
pub struct EconomicEngine {
    pub accounts: StringMap<Account>,
    pub transactions: Vec<Transaction>,
    pub stakes: Vec<StakeRecord>,
    pub parameters: EconomicParameters,
    pub state_store: StateStore,
    pub total_supply: u64,
    pub circulation: u64,
}

/// Why an economic operation was refused.
#[derive(Debug, Clone, Copy, PartialEq, Eq, Structural)]
pub enum EconomicError {
    AccountNotFound,
    AccountExists,
    InsufficientFunds,
    InsufficientStakedFunds,
    InsufficientStake,
    StakeStillLocked,
    InsufficientFundsForPenalty,
    InvalidTransaction,
}

impl EconomicError {
    /// The error's message.
    pub fn to_string(&self) -> (r: String)
        ensures
            r@ == match self {
                EconomicError::AccountNotFound => "Account not found"@,
                EconomicError::AccountExists => "Account already exists"@,
                EconomicError::InsufficientFunds => "Insufficient funds"@,
                EconomicError::InsufficientStakedFunds => "Insufficient staked funds"@,
                EconomicError::InsufficientStake => "Insufficient stake"@,
                EconomicError::StakeStillLocked => "Stake still locked"@,
                EconomicError::InsufficientFundsForPenalty => "Insufficient funds for penalty"@,
                EconomicError::InvalidTransaction => "Invalid transaction"@,
            },
    {
        match self {
            EconomicError::AccountNotFound => String::from_str("Account not found"),
            EconomicError::AccountExists => String::from_str("Account already exists"),
            EconomicError::InsufficientFunds => String::from_str("Insufficient funds"),
            EconomicError::InsufficientStakedFunds => String::from_str("Insufficient staked funds"),
            EconomicError::InsufficientStake => String::from_str("Insufficient stake"),
            EconomicError::StakeStillLocked => String::from_str("Stake still locked"),
            EconomicError::InsufficientFundsForPenalty => String::from_str("Insufficient funds for penalty"),
            EconomicError::InvalidTransaction => String::from_str("Invalid transaction"),
        }
    }
}

/// What the economic operations read and change.
#[verifier::ext_equal]
pub struct EconView {
    pub accounts: Map<Seq<char>, Account>,
    pub transactions: Seq<TxView>,
    pub stakes: Seq<StakeView>,
    pub parameters: EconomicParameters,
}

/// The views of a list of transactions.
pub open spec fn txs_view(ts: Seq<Transaction>) -> Seq<TxView> {
    ts.map_values(|t: Transaction| t@)
}

impl View for EconomicEngine {
    type V = EconView;

    open spec fn view(&self) -> EconView {
        EconView {
            accounts: self.accounts@,
            transactions: txs_view(self.transactions@),
            stakes: stakes_view(self.stakes@),
            parameters: self.parameters,
        }
    }
}


// ---------------------------------------------------------------------------
// The model.
// ---------------------------------------------------------------------------

/// A new account: 1000 tokens, nothing staked, reputation 100, no risk.
pub open spec fn new_account(id: String, now: u64) -> Account {
    Account { id, balance: 1000, staked_amount: 0, reputation_score: 100, last_activity: now, risk_score: 0 }
}

/// The id of a transaction: `tag`, the account, `_` and the number of
/// transactions recorded before it.
pub open spec fn tx_id(tag: Seq<char>, account: Seq<char>, n: nat) -> Seq<char> {
    tag + account + "_"@ + decimal(n)
}

/// Opening account `id` at time `now`: refused if it exists.
pub open spec fn create_account_step(v: EconView, id: String, now: u64) -> (EconView, Result<(), EconomicError>) {
    if v.accounts.contains_key(id@) {
        (v, Err(EconomicError::AccountExists))
    } else {
        (EconView { accounts: v.accounts.insert(id@, new_account(id, now)), ..v }, Ok(()))
    }
}

/// The accounts after `amount` moves from `from` to `to` at time `now`: the
/// sender is debited and its activity time set, then the receiver is
/// credited (the same account is debited and credited back).
pub open spec fn transferred(m: Map<Seq<char>, Account>, from: Seq<char>, to: Seq<char>, amount: u64, now: u64) -> Map<Seq<char>, Account> {
    let s = m[from];
    let m1 = m.insert(from, Account { balance: (s.balance - amount) as u64, last_activity: now, ..s });
    let r = m1[to];
    m1.insert(to, Account { balance: (r.balance + amount) as u64, ..r })
}

/// Moving `amount` from `from` to `to` at time `now`: refused when either
/// account is missing or the sender has too little; otherwise the balances
/// move and a transfer carrying the base fee is recorded.
pub open spec fn transfer_step(v: EconView, from: Seq<char>, to: Seq<char>, amount: u64, now: u64) -> (EconView, Result<(), EconomicError>) {
    if !v.accounts.contains_key(from) || !v.accounts.contains_key(to) {
        (v, Err(EconomicError::AccountNotFound))
    } else if v.accounts[from].balance < amount {
        (v, Err(EconomicError::InsufficientFunds))
    } else {
        let t = TxView {
            id: "tx_"@ + from + "_to_"@ + to + "_"@ + decimal(v.transactions.len()),
            from,
            to,
            amount,
            fee: v.parameters.base_fee,
            timestamp: now,
            transaction_type: TransactionType::Transfer,
        };
        (EconView { accounts: transferred(v.accounts, from, to, amount, now), transactions: v.transactions.push(t), ..v }, Ok(()))
    }
}

/// Whether a transfer keeps the receiver's balance within 64 bits, where it
/// goes through (both accounts exist, differ, and the sender has the amount).
pub open spec fn transfer_fits(v: EconView, from: Seq<char>, to: Seq<char>, amount: u64) -> bool {
    v.accounts.contains_key(from) && v.accounts.contains_key(to) && from != to && v.accounts[from].balance >= amount
        ==> v.accounts[to].balance + amount <= u64::MAX
}

/// The length of the lock a stake gets: one year.
pub open spec fn stake_lock() -> u64 {
    31536000
}

/// Staking `amount` from account `id` at time `now`: refused for a missing
/// account, too little balance, or less than the stake requirement;
/// otherwise the amount moves from balance to stake, an active stake locked
/// for a year is recorded, and a transaction to the staking pool.
pub open spec fn stake_step(v: EconView, id: Seq<char>, amount: u64, now: u64) -> (EconView, Result<(), EconomicError>) {
    if !v.accounts.contains_key(id) {
        (v, Err(EconomicError::AccountNotFound))
    } else if v.accounts[id].balance < amount {
        (v, Err(EconomicError::InsufficientFunds))
    } else if amount < v.parameters.stake_requirement {
        (v, Err(EconomicError::InsufficientStake))
    } else {
        let a = v.accounts[id];
        let st = StakeView { staker: id, amount, start_time: now, duration: stake_lock(), status: StakeStatus::Active };
        let t = TxView {
            id: tx_id("stake_"@, id, v.transactions.len()),
            from: id,
            to: "staking_pool"@,
            amount,
            fee: 0,
            timestamp: now,
            transaction_type: TransactionType::Stake,
        };
        (
            EconView {
                accounts: v.accounts.insert(
                    id,
                    Account { balance: (a.balance - amount) as u64, staked_amount: (a.staked_amount + amount) as u64, ..a },
                ),
                stakes: v.stakes.push(st),
                transactions: v.transactions.push(t),
                ..v
            },
            Ok(()),
        )
    }
}

/// Whether a stake keeps the staked amount within 64 bits.
pub open spec fn stake_fits(v: EconView, id: Seq<char>, amount: u64) -> bool {
    v.accounts.contains_key(id) && v.accounts[id].balance >= amount && amount >= v.parameters.stake_requirement
        ==> v.accounts[id].staked_amount + amount <= u64::MAX
}

/// Whether stake `s` belongs to `id`, is active and its lock has run out at
/// time `now`.
pub open spec fn releasable(s: StakeView, id: Seq<char>, now: u64) -> bool {
    s.staker == id && s.status == StakeStatus::Active && now >= s.start_time + s.duration
}

/// Releasing up to `amount` of `id`'s unlocked stakes, given `done` already
/// released: stakes are taken whole, in order, while they fit; the first
/// that does not fit gives up the rest and the scan stops. The result is the
/// stakes after the scan and the amount released.
pub open spec fn release_scan(ss: Seq<StakeView>, id: Seq<char>, amount: u64, now: u64, done: nat) -> (Seq<StakeView>, nat)
    decreases ss.len(),
{
    if ss.len() == 0 {
        (ss, done)
    } else {
        let s = ss[0];
        if releasable(s, id, now) {
            if done + s.amount <= amount {
                let rest = release_scan(ss.drop_first(), id, amount, now, (done + s.amount) as nat);
                (seq![StakeView { status: StakeStatus::Withdrawn, ..s }] + rest.0, rest.1)
            } else {
                let left = (s.amount - (amount - done)) as u64;
                let s2 = StakeView {
                    amount: left,
                    status: if left == 0 { StakeStatus::Withdrawn } else { s.status },
                    ..s
                };
                (seq![s2] + ss.drop_first(), amount as nat)
            }
        } else {
            let rest = release_scan(ss.drop_first(), id, amount, now, done);
            (seq![s] + rest.0, rest.1)
        }
    }
}

/// Unstaking `amount` for account `id` at time `now`: refused for a missing
/// account or more than is staked. Unlocked stakes are then released (see
/// `release_scan`) — and stay released even when too little was unlocked, in
/// which case the answer is `StakeStillLocked` and the account is unchanged.
/// Otherwise the amount moves from stake to balance and a transaction from
/// the staking pool is recorded.
pub open spec fn unstake_step(v: EconView, id: Seq<char>, amount: u64, now: u64) -> (EconView, Result<(), EconomicError>) {
    if !v.accounts.contains_key(id) {
        (v, Err(EconomicError::AccountNotFound))
    } else if v.accounts[id].staked_amount < amount {
        (v, Err(EconomicError::InsufficientStakedFunds))
    } else {
        let scan = release_scan(v.stakes, id, amount, now, 0);
        if scan.1 < amount {
            (EconView { stakes: scan.0, ..v }, Err(EconomicError::StakeStillLocked))
        } else {
            let a = v.accounts[id];
            let t = TxView {
                id: tx_id("unstake_"@, id, v.transactions.len()),
                from: "staking_pool"@,
                to: id,
                amount,
                fee: 0,
                timestamp: now,
                transaction_type: TransactionType::Unstake,
            };
            (
                EconView {
                    accounts: v.accounts.insert(
                        id,
                        Account { staked_amount: (a.staked_amount - amount) as u64, balance: (a.balance + amount) as u64, ..a },
                    ),
                    stakes: scan.0,
                    transactions: v.transactions.push(t),
                    ..v
                },
                Ok(()),
            )
        }
    }
}

/// Whether an unstake at time `now` keeps the balance within 64 bits, where
/// it goes through (the account exists, has the amount staked, and enough of
/// its stakes are unlocked).
pub open spec fn unstake_fits(v: EconView, id: Seq<char>, amount: u64, now: u64) -> bool {
    v.accounts.contains_key(id) && v.accounts[id].staked_amount >= amount
        && release_scan(v.stakes, id, amount, now, 0).1 >= amount
        ==> v.accounts[id].balance + amount <= u64::MAX
}

/// The position of the first active stake of `id` holding at least `need`.
pub open spec fn slash_index(ss: Seq<StakeView>, id: Seq<char>, need: u64) -> Option<int>
    decreases ss.len(),
{
    if ss.len() == 0 {
        None
    } else if ss[0].staker == id && ss[0].status == StakeStatus::Active && ss[0].amount >= need {
        Some(0)
    } else {
        match slash_index(ss.drop_first(), id, need) {
            Some(i) => Some(i + 1),
            None => None,
        }
    }
}

proof fn lemma_slash_index(ss: Seq<StakeView>, id: Seq<char>, need: u64)
    ensures
        slash_index(ss, id, need) matches Some(i) ==> 0 <= i < ss.len() && ss[i].amount >= need
            && ss[i].staker == id && ss[i].status == StakeStatus::Active,
    decreases ss.len(),
{
    if ss.len() > 0 {
        lemma_slash_index(ss.drop_first(), id, need);
    }
}

/// Penalising account `id` by `penalty` at time `now`: taken from the
/// balance; what the balance cannot cover comes out of the stake (and the
/// first active stake of the account large enough is cut by it and marked
/// slashed), or the penalty is refused when the stake cannot cover it
/// either. The reputation drops by 10 (not below 0) and a transaction to the
/// penalty pool is recorded.
pub open spec fn penalty_step(v: EconView, id: Seq<char>, penalty: u64, now: u64) -> (EconView, Result<(), EconomicError>) {
    if !v.accounts.contains_key(id) {
        (v, Err(EconomicError::AccountNotFound))
    } else {
        let a = v.accounts[id];
        let rem = penalty - a.balance;
        if a.balance < penalty && a.staked_amount < rem {
            (v, Err(EconomicError::InsufficientFundsForPenalty))
        } else {
            let rep = if a.reputation_score >= 10 { (a.reputation_score - 10) as u64 } else { 0 };
            let a2 = if a.balance >= penalty {
                Account { balance: (a.balance - penalty) as u64, reputation_score: rep, ..a }
            } else {
                Account { balance: 0, staked_amount: (a.staked_amount - rem) as u64, reputation_score: rep, ..a }
            };
            let stakes = if a.balance >= penalty {
                v.stakes
            } else {
                match slash_index(v.stakes, id, rem as u64) {
                    Some(i) => v.stakes.update(
                        i,
                        StakeView { amount: (v.stakes[i].amount - rem) as u64, status: StakeStatus::Slashed, ..v.stakes[i] },
                    ),
                    None => v.stakes,
                }
            };
            let t = TxView {
                id: tx_id("penalty_"@, id, v.transactions.len()),
                from: id,
                to: "penalty_pool"@,
                amount: penalty,
                fee: 0,
                timestamp: now,
                transaction_type: TransactionType::Penalty,
            };
            (EconView { accounts: v.accounts.insert(id, a2), stakes, transactions: v.transactions.push(t), ..v }, Ok(()))
        }
    }
}

/// Rewarding account `id` with `reward` at time `now`: the balance grows by
/// the reward, the reputation by 1 up to 1000, and a transaction from the
/// reward pool is recorded.
pub open spec fn reward_step(v: EconView, id: Seq<char>, reward: u64, now: u64) -> (EconView, Result<(), EconomicError>) {
    if !v.accounts.contains_key(id) {
        (v, Err(EconomicError::AccountNotFound))
    } else {
        let a = v.accounts[id];
        let rep = if a.reputation_score + 1 > 1000 { 1000 } else { (a.reputation_score + 1) as u64 };
        let t = TxView {
            id: tx_id("reward_"@, id, v.transactions.len()),
            from: "reward_pool"@,
            to: id,
            amount: reward,
            fee: 0,
            timestamp: now,
            transaction_type: TransactionType::Reward,
        };
        (
            EconView {
                accounts: v.accounts.insert(id, Account { balance: (a.balance + reward) as u64, reputation_score: rep, ..a }),
                transactions: v.transactions.push(t),
                ..v
            },
            Ok(()),
        )
    }
}

/// Whether a reward keeps the balance within 64 bits.
pub open spec fn reward_fits(v: EconView, id: Seq<char>, reward: u64) -> bool {
    v.accounts.contains_key(id) ==> v.accounts[id].balance + reward <= u64::MAX
}

/// Paying `items` in order at time `now`, skipping zero amounts and stopping
/// at the first refusal.
pub open spec fn rewards_run(v: EconView, items: Seq<(Seq<char>, u64)>, now: u64) -> (EconView, Result<(), EconomicError>)
    decreases items.len(),
{
    if items.len() == 0 {
        (v, Ok(()))
    } else if items[0].1 > 0 {
        let s = reward_step(v, items[0].0, items[0].1, now);
        if s.1 is Err {
            s
        } else {
            rewards_run(s.0, items.drop_first(), now)
        }
    } else {
        rewards_run(v, items.drop_first(), now)
    }
}

/// A list of rewards with the stakers taken by their views.
pub open spec fn reward_items(rewards: Seq<(String, u64)>) -> Seq<(Seq<char>, u64)> {
    rewards.map_values(|x: (String, u64)| (x.0@, x.1))
}

/// Whether paying `items` keeps every balance within 64 bits.
pub open spec fn rewards_fit(v: EconView, items: Seq<(Seq<char>, u64)>, now: u64) -> bool
    decreases items.len(),
{
    if items.len() == 0 {
        true
    } else if items[0].1 > 0 {
        &&& reward_fits(v, items[0].0, items[0].1)
        &&& rewards_fit(reward_step(v, items[0].0, items[0].1, now).0, items.drop_first(), now)
    } else {
        rewards_fit(v, items.drop_first(), now)
    }
}

/// The amount in the active stakes of `id`.
pub open spec fn active_stake_total(ss: Seq<StakeView>, id: Seq<char>) -> nat
    decreases ss.len(),
{
    if ss.len() == 0 {
        0
    } else {
        active_stake_total(ss.drop_last(), id) + if ss.last().staker == id && ss.last().status == StakeStatus::Active {
            ss.last().amount as nat
        } else {
            0
        }
    }
}

/// Whether an account may execute a decision that costs `fee`: enough
/// reputation, enough stake, and a balance that covers the fee.
pub open spec fn may_execute(a: Account, p: EconomicParameters, fee: u64) -> bool {
    a.reputation_score >= p.min_reputation && a.staked_amount >= p.stake_requirement && a.balance >= fee
}

/// The sum of the balances of the accounts named in `keys`.
pub open spec fn balance_sum(m: Map<Seq<char>, Account>, keys: Seq<Seq<char>>) -> int
    decreases keys.len(),
{
    if keys.len() == 0 {
        0
    } else {
        balance_sum(m, keys.drop_last()) + m[keys.last()].balance
    }
}

proof fn lemma_balance_sum_frame(m: Map<Seq<char>, Account>, n: Map<Seq<char>, Account>, keys: Seq<Seq<char>>, from: Seq<char>, to: Seq<char>, amount: int)
    requires
        keys.no_duplicates(),
        from != to,
        forall|k: Seq<char>| k != from && k != to ==> #[trigger] n[k].balance == m[k].balance,
        n[from].balance == m[from].balance - amount,
        n[to].balance == m[to].balance + amount,
    ensures
        balance_sum(n, keys) == balance_sum(m, keys) - (if keys.contains(from) { amount } else { 0 }) + (if keys.contains(
            to,
        ) { amount } else { 0 }),
    decreases keys.len(),
{
    if keys.len() > 0 {
        let init = keys.drop_last();
        assert(init.no_duplicates()) by {
            assert forall|i: int, j: int| 0 <= i < init.len() && 0 <= j < init.len() && i != j implies init[i] != init[j] by {
                assert(init[i] == keys[i] && init[j] == keys[j]);
            }
        }
        lemma_balance_sum_frame(m, n, init, from, to, amount);
        assert(keys =~= init.push(keys.last()));
        assert forall|k: Seq<char>| keys.contains(k) <==> (init.contains(k) || k == keys.last()) by {
            if keys.contains(k) {
                let i = choose|i: int| 0 <= i < keys.len() && keys[i] == k;
                if i < init.len() {
                    assert(init[i] == k);
                }
            }
            if init.contains(k) {
                let i = choose|i: int| 0 <= i < init.len() && init[i] == k;
                assert(keys[i] == k);
            }
        }
        assert(!init.contains(keys.last())) by {
            if init.contains(keys.last()) {
                let i = choose|i: int| 0 <= i < init.len() && init[i] == keys.last();
                assert(keys[i] == keys[keys.len() - 1]);
            }
        }
    }
}

/// A transfer between two different accounts conserves funds: over any
/// list of distinct account ids that names both, the sum of the balances is
/// the same before and after.
pub proof fn lemma_transfer_conserves_funds(v: EconView, from: Seq<char>, to: Seq<char>, amount: u64, now: u64, keys: Seq<Seq<char>>)
    requires
        keys.no_duplicates(),
        keys.contains(from),
        keys.contains(to),
        from != to,
        transfer_fits(v, from, to, amount),
    ensures
        balance_sum(transfer_step(v, from, to, amount, now).0.accounts, keys) == balance_sum(v.accounts, keys),
{
    let r = transfer_step(v, from, to, amount, now);
    if r.1 is Ok {
        lemma_balance_sum_frame(v.accounts, r.0.accounts, keys, from, to, amount as int);
    }
}

/// Staking and unstaking never change what an account holds in all: its
/// balance plus its staked amount is the same before and after.
pub proof fn lemma_stake_keeps_holdings(v: EconView, id: Seq<char>, amount: u64, now: u64)
    requires
        stake_fits(v, id, amount),
        unstake_fits(v, id, amount, now),
    ensures
        stake_step(v, id, amount, now).0.accounts.contains_key(id) == v.accounts.contains_key(id),
        v.accounts.contains_key(id) ==> stake_step(v, id, amount, now).0.accounts[id].balance
            + stake_step(v, id, amount, now).0.accounts[id].staked_amount
            == v.accounts[id].balance + v.accounts[id].staked_amount,
        v.accounts.contains_key(id) ==> unstake_step(v, id, amount, now).0.accounts[id].balance
            + unstake_step(v, id, amount, now).0.accounts[id].staked_amount
            == v.accounts[id].balance + v.accounts[id].staked_amount,
{
}


// ---------------------------------------------------------------------------
// The engine.
// ---------------------------------------------------------------------------

/// The id of a transaction (see `tx_id`).
fn tx_id_string(tag: &str, account: &str, n: usize) -> (r: String)
    ensures
        r@ == tx_id(tag@, account@, n as nat),
{
    let mut id = String::from_str(tag);
    push_str(&mut id, account);
    push_str(&mut id, "_");
    push_decimal(&mut id, n as u64);
    id
}

/// The position of the first active stake of `id` holding at least `need`.
fn find_slashable(ss: &Vec<StakeRecord>, id: &str, need: u64) -> (r: Option<usize>)
    ensures
        match r {
            Some(i) => slash_index(stakes_view(ss@), id@, need) == Some(i as int) && i < ss@.len(),
            None => slash_index(stakes_view(ss@), id@, need) is None,
        },
{
    let ghost sv = stakes_view(ss@);
    let mut i: usize = 0;
    assert(sv.skip(0) =~= sv);
    while i < ss.len()
        invariant
            i <= ss@.len(),
            sv == stakes_view(ss@),
            slash_index(sv, id@, need) == match slash_index(sv.skip(i as int), id@, need) {
                Some(j) => Some(j + i),
                None => None::<int>,
            },
        decreases ss@.len() - i,
    {
        assert(sv.skip(i as int).drop_first() =~= sv.skip(i + 1));
        assert(sv.skip(i as int)[0] == ss@[i as int]@);
        if str_eq(ss[i].staker.as_str(), id) && ss[i].status == StakeStatus::Active && ss[i].amount >= need {
            return Some(i);
        }
        i = i + 1;
    }
    None
}

impl EconomicEngine {
    /// An engine with no accounts, transactions or stakes; a base fee of
    /// 100, a stake requirement of 500, a 50% slashing threshold, a minimum
    /// reputation of 10; a supply of 10^9 tokens of which 5 * 10^8 circulate.
    pub fn new(state_store: StateStore) -> (e: Self)
        ensures
            e@.accounts == Map::<Seq<char>, Account>::empty(),
            e@.transactions == Seq::<TxView>::empty(),
            e@.stakes == Seq::<StakeView>::empty(),
            e.parameters == (EconomicParameters { base_fee: 100, stake_requirement: 500, slashing_threshold: 50, min_reputation: 10 }),
            e.state_store == state_store,
            e.total_supply == 1_000_000_000,
            e.circulation == 500_000_000,
    {
        let e = EconomicEngine {
            accounts: StringMap::new(),
            transactions: Vec::new(),
            stakes: Vec::new(),
            parameters: EconomicParameters { base_fee: 100, stake_requirement: 500, slashing_threshold: 50, min_reputation: 10 },
            state_store,
            total_supply: 1_000_000_000,
            circulation: 500_000_000,
        };
        assert(e@.transactions =~= Seq::<TxView>::empty());
        assert(e@.stakes =~= Seq::<StakeView>::empty());
        e
    }

    fn push_tx(&mut self, id: String, from: String, to: String, amount: u64, fee: u64, now: u64, transaction_type: TransactionType)
        ensures
            final(self)@ == (EconView {
                transactions: old(self)@.transactions.push(
                    TxView { id: id@, from: from@, to: to@, amount, fee, timestamp: now, transaction_type },
                ),
                ..old(self)@
            }),
            final(self).state_store == old(self).state_store,
            final(self).total_supply == old(self).total_supply,
            final(self).circulation == old(self).circulation,
    {
        let t = Transaction { id, from, to, amount, fee, timestamp: now, transaction_type };
        let ghost tv = t@;
        let ghost before = txs_view(self.transactions@);
        self.transactions.push(t);
        assert(txs_view(self.transactions@) =~= before.push(tv));
        assert(self@ =~= EconView { transactions: before.push(tv), ..old(self)@ });
    }

    /// Opens account `account_id` at time `now` (see `create_account_step`).
    pub fn create_account_at(&mut self, account_id: String, now: u64) -> (r: Result<(), EconomicError>)
        ensures
            final(self)@ == create_account_step(old(self)@, account_id, now).0,
            r == create_account_step(old(self)@, account_id, now).1,
            final(self).state_store == old(self).state_store,
            final(self).total_supply == old(self).total_supply,
            final(self).circulation == old(self).circulation,
    {
        if self.accounts.contains_key(account_id.as_str()) {
            return Err(EconomicError::AccountExists);
        }
        let key = account_id.clone();
        let account = Account {
            id: account_id,
            balance: 1000,
            staked_amount: 0,
            reputation_score: 100,
            last_activity: now,
            risk_score: 0,
        };
        self.accounts.insert(key, account);
        assert(self@ =~= create_account_step(old(self)@, account_id, now).0);
        Ok(())
    }

    /// Opens account `account_id` now (see `create_account_step`).
    pub fn create_account(&mut self, account_id: String) -> (r: Result<(), EconomicError>)
        ensures
            exists|t: u64| #[trigger] create_account_step(old(self)@, account_id, t) == (final(self)@, r),
            final(self).state_store == old(self).state_store,
            final(self).total_supply == old(self).total_supply,
            final(self).circulation == old(self).circulation,
    {
        let t = now_secs();
        let ghost id = account_id;
        let r = self.create_account_at(account_id, t);
        assert(create_account_step(old(self)@, id, t) == (self@, r));
        r
    }

    /// Moves `amount` from `from` to `to` at time `now` (see `transfer_step`).
    pub fn transfer_at(&mut self, from: &str, to: &str, amount: u64, now: u64) -> (r: Result<(), EconomicError>)
        requires
            transfer_fits(old(self)@, from@, to@, amount),
        ensures
            final(self)@ == transfer_step(old(self)@, from@, to@, amount, now).0,
            r == transfer_step(old(self)@, from@, to@, amount, now).1,
            final(self).state_store == old(self).state_store,
            final(self).total_supply == old(self).total_supply,
            final(self).circulation == old(self).circulation,
    {
        if !self.accounts.contains_key(from) {
            return Err(EconomicError::AccountNotFound);
        }
        if !self.accounts.contains_key(to) {
            return Err(EconomicError::AccountNotFound);
        }
        let mut sender = match self.accounts.get(from) {
            Some(a) => a.clone(),
            None => {
                return Err(EconomicError::AccountNotFound);
            },
        };
        if sender.balance < amount {
            return Err(EconomicError::InsufficientFunds);
        }
        sender.balance = sender.balance - amount;
        sender.last_activity = now;
        self.accounts.insert(String::from_str(from), sender);
        let mut receiver = match self.accounts.get(to) {
            Some(a) => a.clone(),
            None => {
                return Err(EconomicError::AccountNotFound);
            },
        };
        receiver.balance = receiver.balance + amount;
        self.accounts.insert(String::from_str(to), receiver);
        let n = self.transactions.len();
        let mut id = String::from_str("tx_");
        push_str(&mut id, from);
        push_str(&mut id, "_to_");
        push_str(&mut id, to);
        push_str(&mut id, "_");
        push_decimal(&mut id, n as u64);
        let fee = self.parameters.base_fee;
        self.push_tx(id, String::from_str(from), String::from_str(to), amount, fee, now, TransactionType::Transfer);
        assert(self@ =~= transfer_step(old(self)@, from@, to@, amount, now).0);
        Ok(())
    }

    /// Moves `amount` from `from` to `to` now (see `transfer_step`).
    pub fn transfer(&mut self, from: &str, to: &str, amount: u64) -> (r: Result<(), EconomicError>)
        requires
            transfer_fits(old(self)@, from@, to@, amount),
        ensures
            exists|t: u64| #[trigger] transfer_step(old(self)@, from@, to@, amount, t) == (final(self)@, r),
            final(self).state_store == old(self).state_store,
            final(self).total_supply == old(self).total_supply,
            final(self).circulation == old(self).circulation,
    {
        let t = now_secs();
        let r = self.transfer_at(from, to, amount, t);
        assert(transfer_step(old(self)@, from@, to@, amount, t) == (self@, r));
        r
    }

    /// Stakes `amount` from `account_id` at time `now` (see `stake_step`).
    pub fn stake_at(&mut self, account_id: &str, amount: u64, now: u64) -> (r: Result<(), EconomicError>)
        requires
            stake_fits(old(self)@, account_id@, amount),
        ensures
            final(self)@ == stake_step(old(self)@, account_id@, amount, now).0,
            r == stake_step(old(self)@, account_id@, amount, now).1,
            final(self).state_store == old(self).state_store,
            final(self).total_supply == old(self).total_supply,
            final(self).circulation == old(self).circulation,
    {
        let mut account = match self.accounts.get(account_id) {
            Some(a) => a.clone(),
            None => {
                return Err(EconomicError::AccountNotFound);
            },
        };
        if account.balance < amount {
            return Err(EconomicError::InsufficientFunds);
        }
        if amount < self.parameters.stake_requirement {
            return Err(EconomicError::InsufficientStake);
        }
        account.balance = account.balance - amount;
        account.staked_amount = account.staked_amount + amount;
        self.accounts.insert(String::from_str(account_id), account);
        let record = StakeRecord {
            staker: String::from_str(account_id),
            amount,
            start_time: now,
            duration: 365 * 24 * 3600,
            status: StakeStatus::Active,
        };
        let ghost sv = record@;
        let ghost before = stakes_view(self.stakes@);
        self.stakes.push(record);
        assert(stakes_view(self.stakes@) =~= before.push(sv));
        let id = tx_id_string("stake_", account_id, self.transactions.len());
        self.push_tx(id, String::from_str(account_id), String::from_str("staking_pool"), amount, 0, now, TransactionType::Stake);
        assert(self@ =~= stake_step(old(self)@, account_id@, amount, now).0);
        Ok(())
    }

    /// Stakes `amount` from `account_id` now (see `stake_step`).
    pub fn stake(&mut self, account_id: &str, amount: u64) -> (r: Result<(), EconomicError>)
        requires
            stake_fits(old(self)@, account_id@, amount),
        ensures
            exists|t: u64| #[trigger] stake_step(old(self)@, account_id@, amount, t) == (final(self)@, r),
            final(self).state_store == old(self).state_store,
            final(self).total_supply == old(self).total_supply,
            final(self).circulation == old(self).circulation,
    {
        let t = now_secs();
        let r = self.stake_at(account_id, amount, t);
        assert(stake_step(old(self)@, account_id@, amount, t) == (self@, r));
        r
    }

    /// Releases up to `amount` of the unlocked stakes of `account_id` at time
    /// `now` (see `release_scan`); the answer is the amount released.
    fn release_stakes(&mut self, account_id: &str, amount: u64, now: u64) -> (released: u64)
        ensures
            stakes_view(final(self).stakes@) == release_scan(stakes_view(old(self).stakes@), account_id@, amount, now, 0).0,
            released == release_scan(stakes_view(old(self).stakes@), account_id@, amount, now, 0).1,
            final(self).accounts == old(self).accounts,
            final(self).transactions == old(self).transactions,
            final(self).parameters == old(self).parameters,
            final(self).state_store == old(self).state_store,
            final(self).total_supply == old(self).total_supply,
            final(self).circulation == old(self).circulation,
    {
        let ghost start = stakes_view(self.stakes@);
        let mut unstaked: u64 = 0;
        let mut stopped = false;
        let mut i: usize = 0;
        assert(start.skip(0) =~= start);
        assert(stakes_view(self.stakes@).take(0) =~= Seq::<StakeView>::empty());
        while i < self.stakes.len() && !stopped
            invariant
                i <= self.stakes@.len(),
                self.stakes@.len() == start.len(),
                unstaked <= amount,
                !stopped ==> stakes_view(self.stakes@).skip(i as int) == start.skip(i as int),
                !stopped ==> release_scan(start, account_id@, amount, now, 0) == (
                    stakes_view(self.stakes@).take(i as int) + release_scan(start.skip(i as int), account_id@, amount, now, unstaked as nat).0,
                    release_scan(start.skip(i as int), account_id@, amount, now, unstaked as nat).1,
                ),
                stopped ==> release_scan(start, account_id@, amount, now, 0) == (stakes_view(self.stakes@), unstaked as nat),
                self.accounts == old(self).accounts,
                self.transactions == old(self).transactions,
                self.parameters == old(self).parameters,
                self.state_store == old(self).state_store,
                self.total_supply == old(self).total_supply,
                self.circulation == old(self).circulation,
            decreases self.stakes@.len() - i, if stopped { 0int } else { 1int },
        {
            let ghost cur = stakes_view(self.stakes@);
            let ghost rest = start.skip(i as int);
            assert(rest[0] == cur[i as int]);
            assert(rest.drop_first() =~= start.skip(i + 1));
            let matches_id = str_eq(self.stakes[i].staker.as_str(), account_id);
            let unlocked = now >= self.stakes[i].start_time && now - self.stakes[i].start_time >= self.stakes[i].duration;
            if matches_id && self.stakes[i].status == StakeStatus::Active && unlocked {
                let mut s = self.stakes[i].clone();
                if s.amount <= amount - unstaked {
                    unstaked = unstaked + s.amount;
                    s.status = StakeStatus::Withdrawn;
                    let ghost sv = s@;
                    self.stakes.set(i, s);
                    assert(stakes_view(self.stakes@) =~= cur.update(i as int, sv));
                    assert(stakes_view(self.stakes@).take(i + 1) =~= cur.take(i as int).push(sv));
                    assert(stakes_view(self.stakes@).skip(i + 1) =~= start.skip(i + 1));
                    assert(seq![sv] + release_scan(start.skip(i + 1), account_id@, amount, now, unstaked as nat).0
                        =~= release_scan(rest, account_id@, amount, now, (unstaked - sv.amount) as nat).0);
                    assert(cur.take(i as int).push(sv) + release_scan(start.skip(i + 1), account_id@, amount, now, unstaked as nat).0
                        =~= cur.take(i as int) + (seq![sv] + release_scan(start.skip(i + 1), account_id@, amount, now, unstaked as nat).0));
                    i = i + 1;
                } else {
                    let remaining = amount - unstaked;
                    s.amount = s.amount - remaining;
                    unstaked = unstaked + remaining;
                    if s.amount == 0 {
                        s.status = StakeStatus::Withdrawn;
                    }
                    let ghost sv = s@;
                    self.stakes.set(i, s);
                    assert(stakes_view(self.stakes@) =~= cur.update(i as int, sv));
                    assert(stakes_view(self.stakes@) =~= cur.take(i as int) + (seq![sv] + rest.drop_first()));
                    stopped = true;
                }
            } else {
                assert(stakes_view(self.stakes@).take(i + 1) =~= cur.take(i as int).push(cur[i as int]));
                assert(cur.take(i as int).push(cur[i as int]) + release_scan(start.skip(i + 1), account_id@, amount, now, unstaked as nat).0
                    =~= cur.take(i as int) + (seq![cur[i as int]] + release_scan(start.skip(i + 1), account_id@, amount, now, unstaked as nat).0));
                i = i + 1;
            }
        }
        if !stopped {
            assert(stakes_view(self.stakes@).take(i as int) =~= stakes_view(self.stakes@));
            assert(start.skip(i as int) =~= Seq::<StakeView>::empty());
        }
        unstaked
    }

    /// Unstakes `amount` for `account_id` at time `now` (see `unstake_step`).
    pub fn unstake_at(&mut self, account_id: &str, amount: u64, now: u64) -> (r: Result<(), EconomicError>)
        requires
            unstake_fits(old(self)@, account_id@, amount, now),
        ensures
            final(self)@ == unstake_step(old(self)@, account_id@, amount, now).0,
            r == unstake_step(old(self)@, account_id@, amount, now).1,
            final(self).state_store == old(self).state_store,
            final(self).total_supply == old(self).total_supply,
            final(self).circulation == old(self).circulation,
    {
        let mut account = match self.accounts.get(account_id) {
            Some(a) => a.clone(),
            None => {
                return Err(EconomicError::AccountNotFound);
            },
        };
        if account.staked_amount < amount {
            return Err(EconomicError::InsufficientStakedFunds);
        }
        let unstaked = self.release_stakes(account_id, amount, now);
        if unstaked < amount {
            assert(self@ =~= unstake_step(old(self)@, account_id@, amount, now).0);
            return Err(EconomicError::StakeStillLocked);
        }
        account.staked_amount = account.staked_amount - amount;
        account.balance = account.balance + amount;
        self.accounts.insert(String::from_str(account_id), account);
        let id = tx_id_string("unstake_", account_id, self.transactions.len());
        self.push_tx(id, String::from_str("staking_pool"), String::from_str(account_id), amount, 0, now, TransactionType::Unstake);
        assert(self@ =~= unstake_step(old(self)@, account_id@, amount, now).0);
        Ok(())
    }

    /// Unstakes `amount` for `account_id` now (see `unstake_step`).
    pub fn unstake(&mut self, account_id: &str, amount: u64) -> (r: Result<(), EconomicError>)
        requires
            forall|t: u64| #[trigger] unstake_fits(old(self)@, account_id@, amount, t),
        ensures
            exists|t: u64| #[trigger] unstake_step(old(self)@, account_id@, amount, t) == (final(self)@, r),
            final(self).state_store == old(self).state_store,
            final(self).total_supply == old(self).total_supply,
            final(self).circulation == old(self).circulation,
    {
        let t = now_secs();
        let r = self.unstake_at(account_id, amount, t);
        assert(unstake_step(old(self)@, account_id@, amount, t) == (self@, r));
        r
    }

    /// Penalises `account_id` by `penalty_amount` at time `now` (see
    /// `penalty_step`).
    pub fn apply_penalty_at(&mut self, account_id: &str, penalty_amount: u64, now: u64) -> (r: Result<(), EconomicError>)
        ensures
            final(self)@ == penalty_step(old(self)@, account_id@, penalty_amount, now).0,
            r == penalty_step(old(self)@, account_id@, penalty_amount, now).1,
            final(self).state_store == old(self).state_store,
            final(self).total_supply == old(self).total_supply,
            final(self).circulation == old(self).circulation,
    {
        let mut account = match self.accounts.get(account_id) {
            Some(a) => a.clone(),
            None => {
                return Err(EconomicError::AccountNotFound);
            },
        };
        if account.balance >= penalty_amount {
            account.balance = account.balance - penalty_amount;
        } else {
            let remaining_penalty = penalty_amount - account.balance;
            if account.staked_amount >= remaining_penalty {
                account.balance = 0;
                account.staked_amount = account.staked_amount - remaining_penalty;
                match find_slashable(&self.stakes, account_id, remaining_penalty) {
                    Some(i) => {
                        let ghost cur = stakes_view(self.stakes@);
                        proof {
                            lemma_slash_index(cur, account_id@, remaining_penalty);
                        }
                        let mut s = self.stakes[i].clone();
                        s.amount = s.amount - remaining_penalty;
                        s.status = StakeStatus::Slashed;
                        let ghost sv = s@;
                        self.stakes.set(i, s);
                        assert(stakes_view(self.stakes@) =~= cur.update(i as int, sv));
                    },
                    None => {},
                }
            } else {
                return Err(EconomicError::InsufficientFundsForPenalty);
            }
        }
        account.reputation_score = if account.reputation_score >= 10 {
            account.reputation_score - 10
        } else {
            0
        };
        self.accounts.insert(String::from_str(account_id), account);
        let id = tx_id_string("penalty_", account_id, self.transactions.len());
        self.push_tx(id, String::from_str(account_id), String::from_str("penalty_pool"), penalty_amount, 0, now, TransactionType::Penalty);
        assert(self@ =~= penalty_step(old(self)@, account_id@, penalty_amount, now).0);
        Ok(())
    }

    /// Penalises `account_id` by `penalty_amount` now (see `penalty_step`).
    pub fn apply_penalty(&mut self, account_id: &str, penalty_amount: u64) -> (r: Result<(), EconomicError>)
        ensures
            exists|t: u64| #[trigger] penalty_step(old(self)@, account_id@, penalty_amount, t) == (final(self)@, r),
            final(self).state_store == old(self).state_store,
            final(self).total_supply == old(self).total_supply,
            final(self).circulation == old(self).circulation,
    {
        let t = now_secs();
        let r = self.apply_penalty_at(account_id, penalty_amount, t);
        assert(penalty_step(old(self)@, account_id@, penalty_amount, t) == (self@, r));
        r
    }

    /// Rewards `account_id` with `reward_amount` at time `now` (see
    /// `reward_step`).
    pub fn distribute_reward_at(&mut self, account_id: &str, reward_amount: u64, now: u64) -> (r: Result<(), EconomicError>)
        requires
            reward_fits(old(self)@, account_id@, reward_amount),
        ensures
            final(self)@ == reward_step(old(self)@, account_id@, reward_amount, now).0,
            r == reward_step(old(self)@, account_id@, reward_amount, now).1,
            final(self).state_store == old(self).state_store,
            final(self).total_supply == old(self).total_supply,
            final(self).circulation == old(self).circulation,
    {
        let mut account = match self.accounts.get(account_id) {
            Some(a) => a.clone(),
            None => {
                return Err(EconomicError::AccountNotFound);
            },
        };
        account.balance = account.balance + reward_amount;
        account.reputation_score = if account.reputation_score >= 1000 {
            1000
        } else {
            account.reputation_score + 1
        };
        self.accounts.insert(String::from_str(account_id), account);
        let id = tx_id_string("reward_", account_id, self.transactions.len());
        self.push_tx(id, String::from_str("reward_pool"), String::from_str(account_id), reward_amount, 0, now, TransactionType::Reward);
        assert(self@ =~= reward_step(old(self)@, account_id@, reward_amount, now).0);
        Ok(())
    }

    /// Rewards `account_id` with `reward_amount` now (see `reward_step`).
    pub fn distribute_reward(&mut self, account_id: &str, reward_amount: u64) -> (r: Result<(), EconomicError>)
        requires
            reward_fits(old(self)@, account_id@, reward_amount),
        ensures
            exists|t: u64| #[trigger] reward_step(old(self)@, account_id@, reward_amount, t) == (final(self)@, r),
            final(self).state_store == old(self).state_store,
            final(self).total_supply == old(self).total_supply,
            final(self).circulation == old(self).circulation,
    {
        let t = now_secs();
        let r = self.distribute_reward_at(account_id, reward_amount, t);
        assert(reward_step(old(self)@, account_id@, reward_amount, t) == (self@, r));
        r
    }

    /// Pays the staking rewards `rewards` (staker, amount) at time `now`, in
    /// order, skipping zero amounts and stopping at the first refusal (see
    /// `rewards_run`).
    pub fn pay_staking_rewards_at(&mut self, rewards: &Vec<(String, u64)>, now: u64) -> (r: Result<(), EconomicError>)
        requires
            rewards_fit(old(self)@, reward_items(rewards@), now),
        ensures
            final(self)@ == rewards_run(old(self)@, reward_items(rewards@), now).0,
            r == rewards_run(old(self)@, reward_items(rewards@), now).1,
            final(self).state_store == old(self).state_store,
            final(self).total_supply == old(self).total_supply,
            final(self).circulation == old(self).circulation,
    {
        let ghost items = reward_items(rewards@);
        let mut k: usize = 0;
        assert(items.skip(0) =~= items);
        while k < rewards.len()
            invariant
                k <= rewards@.len(),
                items == reward_items(rewards@),
                rewards_run(old(self)@, items, now) == rewards_run(self@, items.skip(k as int), now),
                rewards_fit(self@, items.skip(k as int), now),
                self.state_store == old(self).state_store,
                self.total_supply == old(self).total_supply,
                self.circulation == old(self).circulation,
            decreases rewards@.len() - k,
        {
            let ghost rest = items.skip(k as int);
            assert(rest[0] == items[k as int]);
            assert(rest.drop_first() =~= items.skip(k + 1));
            let amount = rewards[k].1;
            if amount > 0 {
                let r = self.distribute_reward_at(rewards[k].0.as_str(), amount, now);
                if r.is_err() {
                    return r;
                }
            }
            k = k + 1;
        }
        Ok(())
    }

    /// Pays the staking rewards `rewards` now (see `pay_staking_rewards_at`).
    pub fn pay_staking_rewards(&mut self, rewards: &Vec<(String, u64)>) -> (r: Result<(), EconomicError>)
        requires
            forall|t: u64| #[trigger] rewards_fit(old(self)@, reward_items(rewards@), t),
        ensures
            exists|t: u64| #[trigger] rewards_run(old(self)@, reward_items(rewards@), t)
                == (final(self)@, r),
            final(self).state_store == old(self).state_store,
            final(self).total_supply == old(self).total_supply,
            final(self).circulation == old(self).circulation,
    {
        let t = now_secs();
        assert(rewards_fit(old(self)@, reward_items(rewards@), t));
        let r = self.pay_staking_rewards_at(rewards, t);
        assert(rewards_run(old(self)@, reward_items(rewards@), t) == (self@, r));
        r
    }

    /// Whether the account that answers for `adu` may execute it at a cost
    /// of `fee`: refused when there is no such account; otherwise see
    /// `may_execute`.
    pub fn validate_economic_constraints(&self, adu: &AtomicDecisionUnit, fee: u64) -> (r: Result<bool, EconomicError>)
        ensures
            !self@.accounts.contains_key(adu.accountability_anchor@) ==> r == Err::<bool, EconomicError>(EconomicError::AccountNotFound),
            self@.accounts.contains_key(adu.accountability_anchor@) ==> r == Ok::<bool, EconomicError>(
                may_execute(self@.accounts[adu.accountability_anchor@], self.parameters, fee),
            ),
    {
        let account = match self.accounts.get(adu.accountability_anchor.as_str()) {
            Some(a) => a,
            None => {
                return Err(EconomicError::AccountNotFound);
            },
        };
        if account.reputation_score < self.parameters.min_reputation {
            return Ok(false);
        }
        if account.staked_amount < self.parameters.stake_requirement {
            return Ok(false);
        }
        if account.balance < fee {
            return Ok(false);
        }
        Ok(true)
    }

    /// The account `account_id`, if it exists.
    pub fn get_account(&self, account_id: &str) -> (r: Option<&Account>)
        ensures
            match r {
                Some(a) => self@.accounts.contains_key(account_id@) && *a == self@.accounts[account_id@],
                None => !self@.accounts.contains_key(account_id@),
            },
    {
        self.accounts.get(account_id)
    }

    /// The amount in the active stakes of `account_id`.
    pub fn get_total_staked(&self, account_id: &str) -> (r: u64)
        requires
            active_stake_total(self@.stakes, account_id@) <= u64::MAX,
        ensures
            r == active_stake_total(self@.stakes, account_id@),
    {
        let ghost sv = stakes_view(self.stakes@);
        let mut total: u64 = 0;
        let mut i: usize = 0;
        while i < self.stakes.len()
            invariant
                i <= self.stakes@.len(),
                sv == stakes_view(self.stakes@),
                total == active_stake_total(sv.take(i as int), account_id@),
                active_stake_total(sv, account_id@) <= u64::MAX,
            decreases self.stakes@.len() - i,
        {
            assert(sv.take(i + 1).drop_last() =~= sv.take(i as int));
            proof {
                lemma_active_stake_total_prefix(sv, account_id@, i + 1);
            }
            if str_eq(self.stakes[i].staker.as_str(), account_id) && self.stakes[i].status == StakeStatus::Active {
                total = total + self.stakes[i].amount;
            }
            i = i + 1;
        }
        assert(sv.take(i as int) =~= sv);
        total
    }

    /// The balance plus the staked amount of `account_id`, or 0 if there is no
    /// such account.
    pub fn get_total_balance(&self, account_id: &str) -> (r: u64)
        requires
            self@.accounts.contains_key(account_id@) ==> self@.accounts[account_id@].balance
                + self@.accounts[account_id@].staked_amount <= u64::MAX,
        ensures
            r == if self@.accounts.contains_key(account_id@) {
                self@.accounts[account_id@].balance + self@.accounts[account_id@].staked_amount
            } else {
                0
            },
    {
        match self.accounts.get(account_id) {
            Some(a) => a.balance + a.staked_amount,
            None => 0,
        }
    }
}

proof fn lemma_active_stake_total_prefix(ss: Seq<StakeView>, id: Seq<char>, i: int)
    requires
        0 <= i <= ss.len(),
    ensures
        active_stake_total(ss.take(i), id) <= active_stake_total(ss, id),
    decreases ss.len() - i,
{
    if i < ss.len() {
        lemma_active_stake_total_prefix(ss, id, i + 1);
        assert(ss.take(i + 1).drop_last() =~= ss.take(i));
    } else {
        assert(ss.take(i) =~= ss);
    }
}

} // verus!
