use civitasos::cross_chain::{CrossChainBridge, CrossChainBridgeType};
use civitasos::governance_policy::GovernancePolicyEngine;
use civitasos::{
    AuditEventType, AuditSeverity, ConsensusEngine, EconomicEngine, ExecutionEngine, GovernanceEngine,
    GovernanceProposal, GovernanceProposalType, OpCode, SecurityAuditor, StateStore, Validator,
};

fn now() -> u64 {
    std::time::SystemTime::now().duration_since(std::time::UNIX_EPOCH).unwrap().as_secs()
}

#[test]
fn test_security_auditor() {
    let mut auditor = SecurityAuditor::new(1000);
    auditor.log_event(
        AuditEventType::ExecutionStarted,
        AuditSeverity::Info,
        "test_node".to_string(),
        "Execution started".to_string(),
    );
    let audits = auditor.get_recent_audits(10);
    assert_eq!(audits.len(), 1);
    assert_eq!(audits[0].actor, "test_node");
}

#[test]
fn test_basic_deployment_verification() {
    // Execution engine.
    {
        let mut engine = ExecutionEngine::new(1000000);
        engine.context.registers[1] = 100;
        engine.context.registers[2] = 50;
        let program = vec![OpCode::ADD(0, 1, 2), OpCode::RETURN];
        let _result = engine.execute_program(program).unwrap();
        assert_eq!(engine.context.registers[0], 150);
    }
    // State management.
    {
        let mut state_store = StateStore::new();
        let key = "test_user_balance";
        let value = "100";
        state_store.put(key.to_string(), value.to_string());
        match state_store.get(key) {
            Some(entry) => assert_eq!(entry.value, value),
            None => panic!("State update failed"),
        }
    }
    // Consensus.
    {
        let mut consensus_engine = ConsensusEngine::new(StateStore::new());
        consensus_engine.add_validator(Validator {
            id: "test_validator".to_string(),
            public_key: "test_pubkey".to_string(),
            stake: 1000,
            reputation: 100,
        });
        assert_eq!(consensus_engine.validators.len(), 1);
    }
    // Governance.
    {
        let mut consensus_engine = ConsensusEngine::new(StateStore::new());
        consensus_engine.add_validator(Validator {
            id: "test_validator".to_string(),
            public_key: "test_pubkey".to_string(),
            stake: 2000,
            reputation: 100,
        });
        let mut governance_engine = GovernanceEngine::new(consensus_engine);
        let proposal_id_result = governance_engine.create_proposal(
            GovernanceProposal {
                id: "".to_string(),
                title: "Test Proposal".to_string(),
                description: "This is a test proposal".to_string(),
                proposal_type: GovernanceProposalType::ParameterChange("test_param=test_value".to_string()),
                proposer: "test_validator".to_string(),
                created_at: now(),
                voting_deadline: now() + 3600,
                executed: false,
                passed: false,
                votes_for: 0,
                votes_against: 0,
                total_stake_voted: 0,
                minimum_stake_threshold: 1000,
                quorum_met: false,
                approval_percentage: 0,
                proposer_stake: 2000,
            },
            2000,
        );
        assert!(proposal_id_result.is_ok());
        assert!(!proposal_id_result.unwrap().is_empty());
    }
    // Economic model.
    {
        let mut economic_engine = EconomicEngine::new(StateStore::new());
        let initial_accounts = economic_engine.accounts.len();
        economic_engine.create_account("test_account".to_string()).unwrap();
        assert!(economic_engine.accounts.len() > initial_accounts);
    }
    // Cross-chain bridge and policy engine.
    {
        let _bridge = CrossChainBridge::new(CrossChainBridgeType::LockAndMint, StateStore::new());
        let _policy_engine = GovernancePolicyEngine::new();
    }
}
