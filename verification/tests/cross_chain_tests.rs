use civitasos::cross_chain::{
    CrossChainBridge, CrossChainBridgeType, CrossChainError, CrossChainGovernance, CrossChainMessage, CrossChainProposal,
    CrossChainProposalType, CrossChainStatus, CrossChainTransaction, CrossChainTxType, CrossChainValidator, LightClientProof,
};
use civitasos::state::StateStore;
use std::time::{SystemTime, UNIX_EPOCH};

fn now() -> u64 {
    SystemTime::now().duration_since(UNIX_EPOCH).unwrap().as_secs()
}

fn message() -> CrossChainMessage {
    CrossChainMessage {
        id: "".to_string(),
        source_chain: "ethereum".to_string(),
        destination_chain: "civitasos".to_string(),
        sender: "user1".to_string(),
        recipient: "user2".to_string(),
        payload: "transfer_data".to_string(),
        nonce: 1,
        timestamp: 0,
        signatures: vec!["sig1".to_string(), "sig2".to_string()],
        status: CrossChainStatus::Pending,
        relayer: Some("relayer1".to_string()),
    }
}

fn validator(id: &str, key: &str, chain: &str) -> CrossChainValidator {
    CrossChainValidator {
        id: id.to_string(),
        public_key: key.to_string(),
        stake: 1000,
        reputation: 100,
        supported_chains: vec![chain.to_string(), "civitasos".to_string()],
        last_active: now(),
    }
}

#[test]
fn test_cross_chain_bridge() {
    let state_store = StateStore::new();
    let mut bridge = CrossChainBridge::new(CrossChainBridgeType::LockAndMint, state_store);
    bridge.add_validator(validator("validator1", "pubkey1", "ethereum"));
    bridge.add_validator(validator("validator2", "pubkey2", "bitcoin"));

    let message_id = bridge.send_message(message()).unwrap();
    assert!(!message_id.is_empty());

    let verification_result = bridge.verify_message(&message_id);
    assert!(verification_result.is_ok());

    assert_eq!(bridge.get_pending_message_count(), 0);
    assert_eq!(bridge.get_processed_message_count(), 1);

    let tx = CrossChainTransaction {
        message_id: message_id.clone(),
        transaction_type: CrossChainTxType::Transfer,
        amount: 1000,
        asset: "ETH".to_string(),
        fees: 10,
        gas_limit: 21000,
        execution_proof: Some("proof_data".to_string()),
    };
    let execution_result = bridge.execute_transaction(tx);
    assert!(execution_result.is_ok());
}

#[test]
fn test_cross_chain_governance() {
    let mut gov = CrossChainGovernance::new("bridge1".to_string());
    let proposal = CrossChainProposal {
        id: "".to_string(),
        title: "Add Support for NEW Token".to_string(),
        description: "Add support for NEW token on cross-chain bridge".to_string(),
        proposal_type: CrossChainProposalType::AddSupportedAsset("NEW".to_string()),
        proposer: "validator1".to_string(),
        created_at: 0,
        voting_deadline: 0,
        executed: false,
        passed: false,
        votes_for: 0,
        votes_against: 0,
        total_stake_voted: 0,
    };

    let proposal_id = gov.create_proposal(proposal, 1500).unwrap();
    assert!(!proposal_id.is_empty());

    let vote_result = gov.vote_on_proposal(&proposal_id, "validator1".to_string(), true, 1000);
    assert!(vote_result.is_ok());

    let result = gov.compute_proposal_result(&proposal_id).unwrap();
    println!("Proposal result: {}", result);
}

#[test]
fn cross_chain_message_id_is_digest_and_checks_fields() {
    let mut bridge = CrossChainBridge::new(CrossChainBridgeType::BurnAndMint, StateStore::new());
    let id = bridge.send_message_at(message(), 77).unwrap();
    assert_eq!(id.len(), 64);
    let stored = bridge.pending_messages.get(&id).unwrap();
    assert_eq!(stored.timestamp, 77);
    assert_eq!(stored.id, id);
    let again = bridge.send_message_at(message(), 88).unwrap();
    assert_eq!(again, id);
    let mut m = message();
    m.sender = "".to_string();
    assert_eq!(bridge.send_message_at(m, 1), Err(CrossChainError::InvalidSender));
    let mut m = message();
    m.source_chain = "".to_string();
    m.recipient = "".to_string();
    assert_eq!(bridge.send_message_at(m, 1), Err(CrossChainError::InvalidSourceChain));
    assert_eq!(bridge.verify_message(&id), Err(CrossChainError::InsufficientValidators));
    assert_eq!(bridge.verify_message("nope"), Err(CrossChainError::MessageNotFound));
    let tx = CrossChainTransaction {
        message_id: id.clone(),
        transaction_type: CrossChainTxType::Swap,
        amount: 1,
        asset: "CIV".to_string(),
        fees: 0,
        gas_limit: 1,
        execution_proof: None,
    };
    assert!(matches!(bridge.execute_transaction(tx), Err(CrossChainError::MessageNotFound)));
}

#[test]
fn cross_chain_execution_result_and_proofs() {
    let mut bridge = CrossChainBridge::new(CrossChainBridgeType::OracleBased, StateStore::new());
    bridge.add_validator(validator("v1", "k1", "a"));
    bridge.add_validator(validator("v2", "k2", "b"));
    let id = bridge.send_message_at(message(), 5).unwrap();
    bridge.verify_message(&id).unwrap();
    let tx = CrossChainTransaction {
        message_id: id.clone(),
        transaction_type: CrossChainTxType::DataSync,
        amount: 0,
        asset: "CIV".to_string(),
        fees: 0,
        gas_limit: 1,
        execution_proof: None,
    };
    let res = bridge.execute_transaction(tx).unwrap();
    assert_eq!(res.trace_hash, format!("cross_chain_{}", id));
    assert_eq!(res.gas_used, 1000);
    assert!(res.success);
    assert_eq!(bridge.processed_messages.get(&id).unwrap().status, CrossChainStatus::Executed);
    let tx2 = CrossChainTransaction {
        message_id: id.clone(),
        transaction_type: CrossChainTxType::DataSync,
        amount: 0,
        asset: "CIV".to_string(),
        fees: 0,
        gas_limit: 1,
        execution_proof: None,
    };
    assert!(matches!(bridge.execute_transaction(tx2), Err(CrossChainError::MessageNotVerified)));
    let proof = LightClientProof {
        block_header: "h".to_string(),
        merkle_proof: vec![],
        target_hash: "t".to_string(),
        validator_signatures: vec!["a".to_string(), "b".to_string()],
        quorum_size: 2,
        verified: true,
    };
    assert_eq!(bridge.verify_light_client_proof(&proof), Ok(true));
    let short = LightClientProof { quorum_size: 3, ..proof };
    assert_eq!(bridge.verify_light_client_proof(&short), Ok(false));
    assert_eq!(CrossChainError::InvalidProof.to_string(), "Invalid proof");
}

#[test]
fn cross_chain_governance_numbers_and_thresholds() {
    let mut gov = CrossChainGovernance::new("b".to_string());
    let mk = || CrossChainProposal {
        id: "x".to_string(),
        title: "t".to_string(),
        description: "d".to_string(),
        proposal_type: CrossChainProposalType::UpdateSecurityThreshold(3),
        proposer: "p".to_string(),
        created_at: 0,
        voting_deadline: 0,
        executed: true,
        passed: true,
        votes_for: 9,
        votes_against: 9,
        total_stake_voted: 9,
    };
    assert!(matches!(gov.create_proposal_at(mk(), 999, 10), Err(CrossChainError::FeeCalculationError)));
    let id = gov.create_proposal_at(mk(), 1000, 10).unwrap();
    assert_eq!(id, "crosschain_proposal_1");
    assert_eq!(gov.proposals[0].votes_for, 0);
    assert!(!gov.proposals[0].executed);
    assert_eq!(gov.proposals[0].voting_deadline, 10 + 604800);
    assert_eq!(gov.compute_proposal_result(&id), Ok(false));
    gov.vote_on_proposal(&id, "v".to_string(), true, 67).unwrap();
    gov.vote_on_proposal(&id, "w".to_string(), false, 33).unwrap();
    assert_eq!(gov.compute_proposal_result(&id), Ok(true));
    gov.vote_on_proposal(&id, "w".to_string(), false, 1).unwrap();
    assert_eq!(gov.compute_proposal_result(&id), Ok(false));
    assert_eq!(*gov.voting_power.get("w").unwrap(), 34);
    assert!(matches!(gov.vote_on_proposal("none", "v".to_string(), true, 1), Err(CrossChainError::MessageNotFound)));
}
