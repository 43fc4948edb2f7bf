//! CivitasOS: a deterministic execution engine with a versioned state store,
//! stake-weighted consensus (simple and PBFT-style), on-chain governance and
//! policies, the civilization layer's voting rules, a token economy, an
//! atomic transaction layer, a cross-chain bridge, peer-to-peer message
//! handling and node discovery, and monitoring.
pub mod text;
pub mod bytes;
pub mod hashing;
pub mod clock;
pub mod collections;
pub mod execution;
pub mod state;
pub mod consensus;
pub mod advanced_consensus;
pub mod governance;
pub mod governance_policy;
pub mod economics;
pub mod cross_chain;
pub mod network;
pub mod monitoring;
pub mod atomic;
pub mod civilization;

pub use collections::StringMap;
pub use consensus::{ConsensusEngine, ConsensusError, ConsensusProposal, ProposalStatus, ProposalType, Validator};
pub use economics::{
    Account, EconomicEngine, EconomicError, EconomicParameters, StakeRecord, StakeStatus, Transaction, TransactionType,
};
pub use execution::{
    AtomicDecisionUnit, ExecutionContext, ExecutionEngine, ExecutionError, ExecutionResult, OpCode, StateChange,
};
pub use governance::{
    ConstitutionalRule, GovernanceEngine, GovernanceError, GovernanceProposal, GovernanceProposalType, ProposalOutcome,
};
pub use governance_policy::{
    GovernancePolicy, GovernancePolicyEngine, PolicyChangeRecord, PolicyError, PolicyType, ProposalComplianceReport,
    RiskLevel,
};
pub use monitoring::health::{
    ConsensusHealthCheck, ExecutionHealthCheck, GovernanceHealthCheck, HealthCheckResult, StateHealthCheck,
};
pub use monitoring::{
    AuditEntry, AuditEventType, AuditSeverity, HealthReport, HealthStatus, SecurityAction, SecurityAuditor,
    SecurityCondition, SecurityRule,
};
pub use network::message::{
    BroadcastManager, MessageHandler, MessagePriority, MessageStats, MessageType, NodeDescriptor, QueuedMessage,
};
pub use network::node::{NodeManager, NodeStatistics, NodeStatus};
pub use network::{DiscoveryRequest, DiscoveryResponse, NetworkConfig, NetworkMessage, NodeInfo};
pub use state::{MerkleNode, StateError, StateProof, StateStore, StateValidator, StateValue, VersionedState};

pub use advanced_consensus::{
    Block, ConsensusError as AdvancedConsensusError, ConsensusPhase, ConsensusRound, ConsensusTransaction,
    PBFTConsensusEngine, Vote, VoteType,
};
pub use cross_chain::{
    CrossChainBridge, CrossChainBridgeType, CrossChainError, CrossChainMessage, CrossChainStatus, CrossChainTransaction,
    CrossChainTxType, CrossChainValidator,
};
