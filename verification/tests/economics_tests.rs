use civitasos::economics::{EconomicEngine, EconomicError, StakeStatus, TransactionType};
use civitasos::execution::{AtomicDecisionUnit, OpCode};
use civitasos::state::StateStore;

#[test]
fn test_economic_engine() {
    let state_store = StateStore::new();
    let mut econ = EconomicEngine::new(state_store);

    let result = econ.create_account("account1".to_string());
    assert!(result.is_ok());

    let account = econ.get_account("account1").unwrap();
    assert_eq!(account.balance, 1000);
    assert_eq!(account.reputation_score, 100);

    econ.create_account("account2".to_string()).unwrap();
    let transfer_result = econ.transfer("account1", "account2", 100);
    assert!(transfer_result.is_ok());

    let acc1 = econ.get_account("account1").unwrap();
    let acc2 = econ.get_account("account2").unwrap();
    assert_eq!(acc1.balance, 900);
    assert_eq!(acc2.balance, 1100);

    let stake_result = econ.stake("account1", 500);
    assert!(stake_result.is_ok());

    let acc1_after_stake = econ.get_account("account1").unwrap();
    assert_eq!(acc1_after_stake.balance, 400);
    assert_eq!(acc1_after_stake.staked_amount, 500);

    assert_eq!(econ.get_total_staked("account1"), 500);
    assert_eq!(econ.get_total_balance("account1"), 900);
}

#[test]
fn test_penalty_and_reward() {
    let state_store = StateStore::new();
    let mut econ = EconomicEngine::new(state_store);

    econ.create_account("account1".to_string()).unwrap();
    let initial_balance = econ.get_account("account1").unwrap().balance;

    let penalty_result = econ.apply_penalty("account1", 50);
    assert!(penalty_result.is_ok());

    let after_penalty = econ.get_account("account1").unwrap();
    assert_eq!(after_penalty.balance, initial_balance - 50);
    assert_eq!(after_penalty.reputation_score, 90);

    let reward_result = econ.distribute_reward("account1", 100);
    assert!(reward_result.is_ok());

    let after_reward = econ.get_account("account1").unwrap();
    assert_eq!(after_reward.balance, initial_balance - 50 + 100);
    assert_eq!(after_reward.reputation_score, 91);
}

#[test]
fn economics_transfer_conserves_and_records() {
    let mut econ = EconomicEngine::new(StateStore::new());
    econ.create_account_at("a".to_string(), 1).unwrap();
    econ.create_account_at("b".to_string(), 1).unwrap();
    econ.transfer_at("a", "b", 250, 9).unwrap();
    let total = econ.get_account("a").unwrap().balance + econ.get_account("b").unwrap().balance;
    assert_eq!(total, 2000);
    assert_eq!(econ.get_account("a").unwrap().last_activity, 9);
    let tx = &econ.transactions[0];
    assert_eq!(tx.id, "tx_a_to_b_0");
    assert_eq!(tx.fee, 100);
    assert_eq!(tx.transaction_type, TransactionType::Transfer);
    assert_eq!(econ.transfer_at("a", "zz", 1, 9), Err(EconomicError::AccountNotFound));
    assert_eq!(econ.transfer_at("a", "b", 5000, 9), Err(EconomicError::InsufficientFunds));
    assert_eq!(econ.create_account_at("a".to_string(), 2), Err(EconomicError::AccountExists));
    econ.transfer_at("a", "a", 10, 10).unwrap();
    assert_eq!(econ.get_account("a").unwrap().balance, 750);
}

#[test]
fn economics_stake_lock_and_unstake() {
    let mut econ = EconomicEngine::new(StateStore::new());
    econ.create_account_at("a".to_string(), 0).unwrap();
    assert_eq!(econ.stake_at("a", 100, 0), Err(EconomicError::InsufficientStake));
    assert_eq!(econ.stake_at("a", 2000, 0), Err(EconomicError::InsufficientFunds));
    econ.stake_at("a", 600, 0).unwrap();
    assert_eq!(econ.transactions[0].id, "stake_a_0");
    assert_eq!(econ.unstake_at("a", 700, 10), Err(EconomicError::InsufficientStakedFunds));
    assert_eq!(econ.unstake_at("a", 600, 10), Err(EconomicError::StakeStillLocked));
    assert_eq!(econ.get_account("a").unwrap().staked_amount, 600);
    econ.unstake_at("a", 200, 31536000).unwrap();
    assert_eq!(econ.stakes[0].amount, 400);
    assert_eq!(econ.stakes[0].status, StakeStatus::Active);
    assert_eq!(econ.get_account("a").unwrap().balance, 600);
    assert_eq!(econ.get_account("a").unwrap().staked_amount, 400);
    econ.unstake_at("a", 400, 31536000).unwrap();
    assert_eq!(econ.stakes[0].status, StakeStatus::Withdrawn);
    assert_eq!(econ.get_total_staked("a"), 0);
}

#[test]
fn economics_penalty_reaches_into_stake() {
    let mut econ = EconomicEngine::new(StateStore::new());
    econ.create_account_at("a".to_string(), 0).unwrap();
    econ.stake_at("a", 800, 0).unwrap();
    econ.apply_penalty_at("a", 500, 1).unwrap();
    let a = econ.get_account("a").unwrap();
    assert_eq!(a.balance, 0);
    assert_eq!(a.staked_amount, 500);
    assert_eq!(econ.stakes[0].amount, 500);
    assert_eq!(econ.stakes[0].status, StakeStatus::Slashed);
    assert_eq!(econ.apply_penalty_at("a", 600, 1), Err(EconomicError::InsufficientFundsForPenalty));
    assert_eq!(econ.apply_penalty_at("x", 1, 1), Err(EconomicError::AccountNotFound));
    assert_eq!(EconomicError::StakeStillLocked.to_string(), "Stake still locked");
}

#[test]
fn economics_rewards_and_constraints() {
    let mut econ = EconomicEngine::new(StateStore::new());
    econ.create_account_at("a".to_string(), 0).unwrap();
    econ.pay_staking_rewards_at(&vec![("a".to_string(), 0), ("a".to_string(), 5)], 3).unwrap();
    assert_eq!(econ.get_account("a").unwrap().balance, 1005);
    assert_eq!(econ.transactions.len(), 1);
    assert_eq!(econ.transactions[0].id, "reward_a_0");
    let r = econ.pay_staking_rewards_at(&vec![("a".to_string(), 1), ("b".to_string(), 1), ("a".to_string(), 1)], 3);
    assert_eq!(r, Err(EconomicError::AccountNotFound));
    assert_eq!(econ.get_account("a").unwrap().balance, 1006);
    let adu = AtomicDecisionUnit {
        input_state_hash: "hash".to_string(),
        rule_id: "rule1".to_string(),
        execution_trace: vec![OpCode::ADD(0, 1, 2)],
        output_proof: "proof".to_string(),
        accountability_anchor: "a".to_string(),
        risk_stake: 100,
    };
    assert_eq!(econ.validate_economic_constraints(&adu, 110), Ok(false));
    econ.stake_at("a", 500, 0).unwrap();
    assert_eq!(econ.validate_economic_constraints(&adu, 110), Ok(true));
    assert_eq!(econ.validate_economic_constraints(&adu, 600), Ok(false));
}
