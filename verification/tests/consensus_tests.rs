use civitasos::advanced_consensus::{ConsensusTransaction, PBFTConsensusEngine, Vote as PbftVote, VoteType};
use civitasos::consensus::{ConsensusEngine, ConsensusProposal, ProposalStatus, ProposalType, Validator, Vote};
use civitasos::execution::{AtomicDecisionUnit, ExecutionResult, StateChange};
use civitasos::state::StateStore;
use civitasos::StringMap;
use std::time::{SystemTime, UNIX_EPOCH};

fn now() -> u64 {
    SystemTime::now().duration_since(UNIX_EPOCH).unwrap().as_secs()
}

#[test]
fn test_pbft_consensus_engine() {
    let state_store = StateStore::new();
    let mut pbft = PBFTConsensusEngine::new(state_store, "replica1".to_string());

    pbft.add_validator(Validator {
        id: "validator1".to_string(),
        public_key: "pubkey1".to_string(),
        stake: 1000,
        reputation: 100,
    });
    pbft.add_validator(Validator {
        id: "validator2".to_string(),
        public_key: "pubkey2".to_string(),
        stake: 1000,
        reputation: 100,
    });
    pbft.add_validator(Validator {
        id: "validator3".to_string(),
        public_key: "pubkey3".to_string(),
        stake: 1000,
        reputation: 100,
    });

    let result = pbft.start_round();
    assert!(result.is_ok());
    assert!(pbft.rounds.contains_key(&0));
    assert_eq!(pbft.get_current_height(), 0);

    pbft.pending_transactions.push(ConsensusTransaction {
        id: "tx1".to_string(),
        from: "user1".to_string(),
        to: "user2".to_string(),
        data: "transfer".to_string(),
        signature: "sig1".to_string(),
        timestamp: now(),
        gas_limit: 21000,
        gas_price: 1,
    });

    let block_hash = "test_block_hash".to_string();
    let vote_result = pbft.vote(0, block_hash, VoteType::Prevote);
    assert!(vote_result.is_ok());

    if let Some(round) = pbft.rounds.get(&0) {
        assert_eq!(round.votes.len(), 1);
    }
}

fn pbft_vote(validator: &str) -> PbftVote {
    PbftVote {
        validator_id: validator.to_string(),
        round: 0,
        height: 0,
        block_hash: "hash".to_string(),
        vote_type: VoteType::Precommit,
        signature: "sig".to_string(),
        timestamp: 0,
    }
}

#[test]
fn test_majority_check() {
    let state_store = StateStore::new();
    let mut pbft = PBFTConsensusEngine::new(state_store, "replica1".to_string());
    for i in 1..=3 {
        pbft.add_validator(Validator {
            id: format!("validator{}", i),
            public_key: format!("pubkey{}", i),
            stake: 1000,
            reputation: 100,
        });
    }

    let mut votes = StringMap::new();
    votes.insert("validator1".to_string(), pbft_vote("validator1"));
    votes.insert("validator2".to_string(), pbft_vote("validator2"));

    let majority = pbft.has_majority(&votes);
    assert!(!majority);

    votes.insert("validator3".to_string(), pbft_vote("validator3"));
    let majority = pbft.has_majority(&votes);
    assert!(majority);
}

#[test]
fn test_consensus_engine() {
    let state_store = StateStore::new();
    let mut consensus = ConsensusEngine::new(state_store);

    consensus.add_validator(Validator {
        id: "validator1".to_string(),
        public_key: "pubkey1".to_string(),
        stake: 100,
        reputation: 100,
    });
    consensus.add_validator(Validator {
        id: "validator2".to_string(),
        public_key: "pubkey2".to_string(),
        stake: 100,
        reputation: 100,
    });

    let proposal = ConsensusProposal {
        id: "proposal1".to_string(),
        proposal_type: ProposalType::StateUpdate("update_data".to_string()),
        content: "test content".to_string(),
        proposer: "validator1".to_string(),
        votes: Vec::new(),
        created_at: now(),
        expires_at: now() + 1000,
    };

    let proposal_id = consensus.create_proposal(proposal).unwrap();
    assert_eq!(proposal_id, "proposal1");

    let vote = Vote {
        validator_id: "validator1".to_string(),
        proposal_hash: "proposal1".to_string(),
        vote: true,
        signature: "sig1".to_string(),
    };

    let vote_result = consensus.vote(vote).unwrap();
    assert!(vote_result);

    let status = consensus.check_proposal_status("proposal1");
    println!("Proposal status: {:?}", status);
}

#[test]
fn test_execution_validation() {
    let state_store = StateStore::new();
    let consensus = ConsensusEngine::new(state_store);

    let result = ExecutionResult {
        state_diffs: vec![StateChange {
            key: "test_key".to_string(),
            old_value: None,
            new_value: Some("test_value".to_string()),
        }],
        trace_hash: "test_hash".to_string(),
        gas_used: 10,
        success: true,
    };

    let adu = AtomicDecisionUnit {
        input_state_hash: "input_hash".to_string(),
        rule_id: "rule1".to_string(),
        execution_trace: vec![],
        output_proof: "proof".to_string(),
        accountability_anchor: "anchor1".to_string(),
        risk_stake: 100,
    };

    let validation_result = consensus.validate_execution_result(&adu, &result);
    assert!(validation_result.is_ok());
}

#[test]
fn consensus_votes_from_half_the_stake_approve() {
    let mut consensus = ConsensusEngine::new(StateStore::new());
    consensus.add_validator(Validator { id: "a".to_string(), public_key: "k".to_string(), stake: 100, reputation: 1 });
    consensus.add_validator(Validator { id: "b".to_string(), public_key: "k".to_string(), stake: 100, reputation: 1 });
    let proposal = ConsensusProposal {
        id: "p".to_string(),
        proposal_type: ProposalType::RuleChange("r".to_string()),
        content: "c".to_string(),
        proposer: "a".to_string(),
        votes: Vec::new(),
        created_at: now(),
        expires_at: now() + 1000,
    };
    consensus.create_proposal(proposal).unwrap();
    for id in ["a", "b"] {
        let v = Vote { validator_id: id.to_string(), proposal_hash: "p".to_string(), vote: true, signature: "s".to_string() };
        assert!(consensus.vote(v).unwrap());
    }
    assert_eq!(consensus.check_proposal_status("p"), ProposalStatus::Approved);
    assert_eq!(consensus.check_proposal_status("missing"), ProposalStatus::NotFound);
}

fn pbft_tx(id: &str) -> ConsensusTransaction {
    ConsensusTransaction {
        id: id.to_string(),
        from: "user1".to_string(),
        to: "user2".to_string(),
        data: "transfer".to_string(),
        signature: "sig".to_string(),
        timestamp: 1,
        gas_limit: 21000,
        gas_price: 1,
    }
}

#[test]
fn pbft_proposer_replica_builds_block_from_pending() {
    let mut pbft = PBFTConsensusEngine::new(StateStore::new(), "validator1".to_string());
    for i in 1..=3 {
        pbft.add_validator(Validator {
            id: format!("validator{}", i),
            public_key: format!("pubkey{}", i),
            stake: 1000,
            reputation: 100,
        });
    }
    pbft.pending_transactions.push(pbft_tx("tx1"));
    pbft.pending_transactions.push(pbft_tx("tx2"));
    assert!(pbft.start_round_at(7).is_ok());
    let round = pbft.rounds.get(&0).unwrap();
    assert_eq!(round.proposer, "validator1");
    assert_eq!(round.phase, civitasos::advanced_consensus::ConsensusPhase::Prevote);
    let block = round.proposed_block.as_ref().unwrap();
    assert_eq!(block.transactions.len(), 2);
    assert_eq!(block.transactions[0].id, "tx1");
    assert_eq!(block.prev_hash, "genesis");
    assert_eq!(block.height, 0);
    assert!(pbft.pending_transactions.is_empty());
}

#[test]
fn pbft_other_replica_waits_and_keeps_pending() {
    let mut pbft = PBFTConsensusEngine::new(StateStore::new(), "replica1".to_string());
    for i in 1..=3 {
        pbft.add_validator(Validator {
            id: format!("validator{}", i),
            public_key: format!("pubkey{}", i),
            stake: 1000,
            reputation: 100,
        });
    }
    pbft.pending_transactions.push(pbft_tx("tx1"));
    assert!(pbft.start_round().is_ok());
    let round = pbft.rounds.get(&0).unwrap();
    assert_eq!(round.proposer, "validator1");
    assert!(round.proposed_block.is_none());
    assert_eq!(round.phase, civitasos::advanced_consensus::ConsensusPhase::Propose);
    assert_eq!(pbft.pending_transactions.len(), 1);
    assert!(pbft.committed_blocks.is_empty());
}

#[test]
fn pbft_vote_records_round_height_and_voter() {
    let mut pbft = PBFTConsensusEngine::new(StateStore::new(), "replica1".to_string());
    pbft.add_validator(Validator {
        id: "validator1".to_string(),
        public_key: "pubkey1".to_string(),
        stake: 1000,
        reputation: 100,
    });
    assert!(pbft.start_round().is_ok());
    assert!(pbft.vote_at(0, "test_block_hash".to_string(), VoteType::Prevote, 9).is_ok());
    let round = pbft.rounds.get(&0).unwrap();
    assert_eq!(round.votes.len(), 1);
    let v = round.votes.get("replica1").unwrap();
    assert_eq!(v.validator_id, "replica1");
    assert_eq!(v.block_hash, "test_block_hash");
    assert_eq!(v.round, 0);
    assert_eq!(v.height, 0);
    assert_eq!(v.vote_type, VoteType::Prevote);
    assert_eq!(v.timestamp, 9);
    assert_eq!(v.signature.len(), 64);
    // A second vote of the same replica replaces the first.
    assert!(pbft.vote(0, "other".to_string(), VoteType::Precommit).is_ok());
    let round = pbft.rounds.get(&0).unwrap();
    assert_eq!(round.votes.len(), 1);
    assert_eq!(round.votes.get("replica1").unwrap().block_hash, "other");
    // A round that was never opened is refused.
    assert!(pbft.vote(5, "x".to_string(), VoteType::Prevote).is_err());
    assert!(!pbft.rounds.contains_key(&5));
}

fn pbft_block(prev: &str, sig: &str) -> civitasos::advanced_consensus::Block {
    civitasos::advanced_consensus::Block {
        height: 0,
        prev_hash: prev.to_string(),
        state_root: String::new(),
        transactions: Vec::new(),
        proposer: "validator1".to_string(),
        signature: sig.to_string(),
        timestamp: 0,
        validators: Vec::new(),
    }
}

#[test]
fn pbft_height_counts_committed_blocks() {
    let mut pbft = PBFTConsensusEngine::new(StateStore::new(), "validator1".to_string());
    pbft.add_validator(Validator {
        id: "validator1".to_string(),
        public_key: "pubkey1".to_string(),
        stake: 1000,
        reputation: 100,
    });
    assert_eq!(pbft.get_current_height(), pbft.get_block_count() as u64);
    assert!(pbft.start_round().is_ok());
    assert!(pbft.vote(0, "h".to_string(), VoteType::Prevote).is_ok());
    assert!(pbft.commit_block(pbft_block("genesis", "s1")).is_ok());
    assert_eq!(pbft.get_current_height(), 1);
    assert_eq!(pbft.get_block_count(), 1);
    // A block that does not link to the last one is refused; nothing moves.
    assert!(pbft.commit_block(pbft_block("wrong", "s2")).is_err());
    assert_eq!(pbft.get_current_height(), 1);
    assert_eq!(pbft.get_block_count(), 1);
    assert!(pbft.commit_block(pbft_block("s1", "s2")).is_ok());
    assert_eq!(pbft.get_current_height(), pbft.get_block_count() as u64);
    assert_eq!(pbft.get_current_height(), 2);
}
