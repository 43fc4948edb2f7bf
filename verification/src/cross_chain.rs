//! A bridge to other chains: messages are sent, verified once enough
//! validators stand behind the bridge, and carried out as transactions; and
//! the governance of the bridge itself. The fee a message would be charged
//! depends on a fractional rate and is computed outside this module.
use vstd::prelude::*;

use crate::clock::now_secs;
use crate::collections::StringMap;
use crate::execution::ExecutionResult;
use crate::hashing::{push_str_bytes, sha256_hex, sha256_hex_text};
use crate::state::StateStore;
use crate::text::{decimal, push_decimal, push_str, str_eq};

verus! {

/// How the bridge moves assets.
#[derive(Debug, Clone, Copy, PartialEq, Eq, Structural)]
pub enum CrossChainBridgeType {
    LockAndMint,
    BurnAndMint,
    LiquidityPool,
    OracleBased,
    StateChannel,
}

/// Where a message stands.
#[derive(Debug, Clone, Copy, PartialEq, Eq, Structural)]
pub enum CrossChainStatus {
    Pending,
    Verified,
    Executed,
    Failed,
    Reverted,
}

/// A message from one chain to another.
#[derive(Debug)]
pub struct CrossChainMessage {
    pub id: String,
    pub source_chain: String,
    pub destination_chain: String,
    pub sender: String,
    pub recipient: String,
    pub payload: String,
    pub nonce: u64,
    pub timestamp: u64,
    pub signatures: Vec<String>,
    pub status: CrossChainStatus,
    pub relayer: Option<String>,
}

/// What a cross-chain transaction does.
#[derive(Debug, Clone, Copy, PartialEq, Eq, Structural)]
pub enum CrossChainTxType {
    Transfer,
    Swap,
    Deposit,
    Withdraw,
    ContractCall,
    DataSync,
}

/// A transaction carried out for a verified message.
#[derive(Debug)]
pub struct CrossChainTransaction {
    pub message_id: String,
    pub transaction_type: CrossChainTxType,
    pub amount: u64,
    pub asset: String,
    pub fees: u64,
    pub gas_limit: u64,
    pub execution_proof: Option<String>,
}

/// A validator of the bridge.
#[derive(Debug)]
pub struct CrossChainValidator {
    pub id: String,
    pub public_key: String,
    pub stake: u64,
    pub reputation: u64,
    pub supported_chains: Vec<String>,
    pub last_active: u64,
}

/// A proof from a light client of another chain.
#[derive(Debug)]
pub struct LightClientProof {
    pub block_header: String,
    pub merkle_proof: Vec<String>,
    pub target_hash: String,
    pub validator_signatures: Vec<String>,
    pub quorum_size: u64,
    pub verified: bool,
}

/// The integer part of the fee schedule.
#[derive(Debug, Clone, Copy, PartialEq, Eq, Structural)]
pub struct FeeStructure {
    pub base_fee: u64,
    pub min_fee: u64,
    pub max_fee: u64,
    pub dynamic_adjustment: bool,
}

/// The bridge.
#[derive(Debug)]
pub struct CrossChainBridge {
    pub bridge_type: CrossChainBridgeType,
    pub supported_assets: Vec<String>,
    pub validators: Vec<CrossChainValidator>,
    pub pending_messages: StringMap<CrossChainMessage>,
    pub processed_messages: StringMap<CrossChainMessage>,
    pub state_store: StateStore,
    pub fee_structure: FeeStructure,
    /// Validators needed before a message can be verified.
    pub security_threshold: u64,
    pub relayers: Vec<String>,
}

/// Why a bridge operation was refused.
#[derive(Debug, Clone, Copy, PartialEq, Eq, Structural)]
pub enum CrossChainError {
    InvalidSourceChain,
    InvalidDestinationChain,
    InvalidSender,
    InvalidRecipient,
    UnsupportedChain,
    MessageNotFound,
    MessageNotVerified,
    InsufficientValidators,
    InvalidProof,
    ExecutionFailed,
    FeeCalculationError,
}

impl CrossChainError {
    /// The error's message.
    pub fn to_string(&self) -> (r: String)
        ensures
            r@ == match self {
                CrossChainError::InvalidSourceChain => "Invalid source chain"@,
                CrossChainError::InvalidDestinationChain => "Invalid destination chain"@,
                CrossChainError::InvalidSender => "Invalid sender"@,
                CrossChainError::InvalidRecipient => "Invalid recipient"@,
                CrossChainError::UnsupportedChain => "Unsupported chain"@,
                CrossChainError::MessageNotFound => "Message not found"@,
                CrossChainError::MessageNotVerified => "Message not verified"@,
                CrossChainError::InsufficientValidators => "Insufficient validators"@,
                CrossChainError::InvalidProof => "Invalid proof"@,
                CrossChainError::ExecutionFailed => "Execution failed"@,
                CrossChainError::FeeCalculationError => "Fee calculation error"@,
            },
    {
        match self {
            CrossChainError::InvalidSourceChain => String::from_str("Invalid source chain"),
            CrossChainError::InvalidDestinationChain => String::from_str("Invalid destination chain"),
            CrossChainError::InvalidSender => String::from_str("Invalid sender"),
            CrossChainError::InvalidRecipient => String::from_str("Invalid recipient"),
            CrossChainError::UnsupportedChain => String::from_str("Unsupported chain"),
            CrossChainError::MessageNotFound => String::from_str("Message not found"),
            CrossChainError::MessageNotVerified => String::from_str("Message not verified"),
            CrossChainError::InsufficientValidators => String::from_str("Insufficient validators"),
            CrossChainError::InvalidProof => String::from_str("Invalid proof"),
            CrossChainError::ExecutionFailed => String::from_str("Execution failed"),
            CrossChainError::FeeCalculationError => String::from_str("Fee calculation error"),
        }
    }
}

// ---------------------------------------------------------------------------
// The model of the bridge.
// ---------------------------------------------------------------------------

/// The first problem with a message's fields, if any: an empty source
/// chain, destination chain, sender or recipient, in that order. Every
/// destination chain is supported.
pub open spec fn message_problem(m: CrossChainMessage) -> Option<CrossChainError> {
    if m.source_chain@.len() == 0 {
        Some(CrossChainError::InvalidSourceChain)
    } else if m.destination_chain@.len() == 0 {
        Some(CrossChainError::InvalidDestinationChain)
    } else if m.sender@.len() == 0 {
        Some(CrossChainError::InvalidSender)
    } else if m.recipient@.len() == 0 {
        Some(CrossChainError::InvalidRecipient)
    } else {
        None
    }
}

/// The id of a message: the hexadecimal SHA-256 digest of its source chain,
/// destination chain, sender, nonce and timestamp written one after the
/// other.
pub open spec fn message_id_text(m: CrossChainMessage) -> Seq<char> {
    sha256_hex_text(
        vstd::utf8::encode_utf8(
            m.source_chain@ + m.destination_chain@ + m.sender@ + decimal(m.nonce as nat) + decimal(m.timestamp as nat),
        ),
    )
}

/// The message as it is queued: with its id, pending, dated `now`.
pub open spec fn queued(m: CrossChainMessage, stored: CrossChainMessage, now: u64) -> bool {
    &&& stored.id@ == message_id_text(m)
    &&& stored == CrossChainMessage { id: stored.id, status: CrossChainStatus::Pending, timestamp: now, ..m }
}

fn message_id(message: &CrossChainMessage) -> (id: String)
    ensures
        id@ == message_id_text(*message),
{
    let mut data = String::new();
    push_str(&mut data, message.source_chain.as_str());
    push_str(&mut data, message.destination_chain.as_str());
    push_str(&mut data, message.sender.as_str());
    push_decimal(&mut data, message.nonce);
    push_decimal(&mut data, message.timestamp);
    let mut bytes: Vec<u8> = Vec::new();
    push_str_bytes(&mut bytes, data.as_str());
    assert(bytes@ =~= vstd::utf8::encode_utf8(data@));
    assert(data@ =~= message.source_chain@ + message.destination_chain@ + message.sender@ + decimal(message.nonce as nat)
        + decimal(message.timestamp as nat));
    sha256_hex(bytes.as_slice())
}

impl CrossChainBridge {
    /// A bridge of type `bridge_type` that supports the CIV asset, with no
    /// validators, messages or relayers; a base fee of 100 within 50..=10000
    /// with dynamic adjustment; and a security threshold of 2 validators.
    pub fn new(bridge_type: CrossChainBridgeType, state_store: StateStore) -> (b: Self)
        ensures
            b.bridge_type == bridge_type,
            b.supported_assets@.len() == 1,
            b.supported_assets@[0]@ == "CIV"@,
            b.validators@.len() == 0,
            b.pending_messages@ == Map::<Seq<char>, CrossChainMessage>::empty(),
            b.processed_messages@ == Map::<Seq<char>, CrossChainMessage>::empty(),
            b.state_store == state_store,
            b.fee_structure == (FeeStructure { base_fee: 100, min_fee: 50, max_fee: 10000, dynamic_adjustment: true }),
            b.security_threshold == 2,
            b.relayers@.len() == 0,
    {
        let mut supported_assets: Vec<String> = Vec::new();
        supported_assets.push(String::from_str("CIV"));
        CrossChainBridge {
            bridge_type,
            supported_assets,
            validators: Vec::new(),
            pending_messages: StringMap::new(),
            processed_messages: StringMap::new(),
            state_store,
            fee_structure: FeeStructure { base_fee: 100, min_fee: 50, max_fee: 10000, dynamic_adjustment: true },
            security_threshold: 2,
            relayers: Vec::new(),
        }
    }

    /// Adds a validator at the end of the list.
    pub fn add_validator(&mut self, validator: CrossChainValidator)
        ensures
            final(self).validators@ == old(self).validators@.push(validator),
            final(self).pending_messages == old(self).pending_messages,
            final(self).processed_messages == old(self).processed_messages,
            final(self).security_threshold == old(self).security_threshold,
            final(self).relayers == old(self).relayers,
    {
        self.validators.push(validator);
    }

    /// Adds a relayer at the end of the list.
    pub fn add_relayer(&mut self, relayer_id: String)
        ensures
            final(self).relayers@ == old(self).relayers@.push(relayer_id),
            final(self).validators == old(self).validators,
            final(self).pending_messages == old(self).pending_messages,
            final(self).processed_messages == old(self).processed_messages,
    {
        self.relayers.push(relayer_id);
    }

    /// Checks a message's fields (see `message_problem`).
    fn validate_message(&self, message: &CrossChainMessage) -> (r: Result<(), CrossChainError>)
        ensures
            match message_problem(*message) {
                Some(e) => r == Err::<(), CrossChainError>(e),
                None => r is Ok,
            },
    {
        if message.source_chain.as_str().unicode_len() == 0 {
            return Err(CrossChainError::InvalidSourceChain);
        }
        if message.destination_chain.as_str().unicode_len() == 0 {
            return Err(CrossChainError::InvalidDestinationChain);
        }
        if message.sender.as_str().unicode_len() == 0 {
            return Err(CrossChainError::InvalidSender);
        }
        if message.recipient.as_str().unicode_len() == 0 {
            return Err(CrossChainError::InvalidRecipient);
        }
        if !self.is_chain_supported(message.destination_chain.as_str()) {
            return Err(CrossChainError::UnsupportedChain);
        }
        Ok(())
    }

    /// Whether a chain is supported: every chain is.
    fn is_chain_supported(&self, _chain_id: &str) -> (r: bool)
        ensures
            r,
    {
        true
    }

    /// Sends `message` at time `now`: a message with a problem is refused
    /// (see `message_problem`); otherwise it is queued under its id, pending
    /// and dated `now` (the id is taken before the date is set; see
    /// `message_id_text`), replacing a message queued under the same id, and
    /// the id is the answer.
    pub fn send_message_at(&mut self, message: CrossChainMessage, now: u64) -> (r: Result<String, CrossChainError>)
        ensures
            final(self).validators == old(self).validators,
            final(self).processed_messages == old(self).processed_messages,
            final(self).security_threshold == old(self).security_threshold,
            match message_problem(message) {
                Some(e) => r == Err::<String, CrossChainError>(e) && final(self).pending_messages == old(self).pending_messages,
                None => r matches Ok(id) && id@ == message_id_text(message)
                    && final(self).pending_messages@.contains_key(id@)
                    && queued(message, final(self).pending_messages@[id@], now)
                    && final(self).pending_messages@ == old(self).pending_messages@.insert(
                        id@,
                        final(self).pending_messages@[id@],
                    ),
            },
    {
        self.validate_message(&message)?;
        let ghost original = message;
        let id = message_id(&message);
        let mut m = message;
        m.id = id.clone();
        m.status = CrossChainStatus::Pending;
        m.timestamp = now;
        let key = id.clone();
        self.pending_messages.insert(key, m);
        Ok(id)
    }

    /// Sends `message` now (see `send_message_at`).
    pub fn send_message(&mut self, message: CrossChainMessage) -> (r: Result<String, CrossChainError>)
        ensures
            final(self).validators == old(self).validators,
            final(self).processed_messages == old(self).processed_messages,
            match message_problem(message) {
                Some(e) => r == Err::<String, CrossChainError>(e) && final(self).pending_messages == old(self).pending_messages,
                None => r matches Ok(id) && id@ == message_id_text(message)
                    && final(self).pending_messages@.contains_key(id@)
                    && (exists|t: u64| #[trigger] queued(message, final(self).pending_messages@[id@], t))
                    && final(self).pending_messages@ == old(self).pending_messages@.insert(
                        id@,
                        final(self).pending_messages@[id@],
                    ),
            },
    {
        let t = now_secs();
        self.send_message_at(message, t)
    }

    /// Verifies the pending message `message_id`: refused when there is no
    /// such message or fewer validators than the security threshold;
    /// otherwise it is marked verified and moves to the processed messages.
    pub fn verify_message(&mut self, message_id: &str) -> (r: Result<bool, CrossChainError>)
        ensures
            final(self).validators == old(self).validators,
            final(self).security_threshold == old(self).security_threshold,
            !old(self).pending_messages@.contains_key(message_id@) ==> r == Err::<bool, CrossChainError>(CrossChainError::MessageNotFound)
                && final(self).pending_messages@ == old(self).pending_messages@
                && final(self).processed_messages@ == old(self).processed_messages@,
            old(self).pending_messages@.contains_key(message_id@) && old(self).validators@.len() < old(self).security_threshold
                ==> r == Err::<bool, CrossChainError>(CrossChainError::InsufficientValidators)
                && final(self).pending_messages@ == old(self).pending_messages@
                && final(self).processed_messages@ == old(self).processed_messages@,
            old(self).pending_messages@.contains_key(message_id@) && old(self).validators@.len() >= old(self).security_threshold
                ==> r == Ok::<bool, CrossChainError>(true)
                && final(self).pending_messages@ == old(self).pending_messages@.remove(message_id@)
                && final(self).processed_messages@ == old(self).processed_messages@.insert(
                    message_id@,
                    CrossChainMessage {
                        status: CrossChainStatus::Verified,
                        ..old(self).pending_messages@[message_id@]
                    },
                ),
    {
        if !self.pending_messages.contains_key(message_id) {
            return Err(CrossChainError::MessageNotFound);
        }
        if (self.validators.len() as u64) < self.security_threshold {
            return Err(CrossChainError::InsufficientValidators);
        }
        match self.pending_messages.remove(message_id) {
            Some(mut msg) => {
                msg.status = CrossChainStatus::Verified;
                self.processed_messages.insert(String::from_str(message_id), msg);
            },
            None => {},
        }
        Ok(true)
    }

    /// Carries out `tx` for its processed message: refused when there is no
    /// such message or it is not verified; otherwise the message is marked
    /// executed and the result is a success using 1000 gas, with no state
    /// changes and the trace hash "cross_chain_" followed by the message id.
    pub fn execute_transaction(&mut self, tx: CrossChainTransaction) -> (r: Result<ExecutionResult, CrossChainError>)
        ensures
            final(self).validators == old(self).validators,
            final(self).pending_messages == old(self).pending_messages,
            !old(self).processed_messages@.contains_key(tx.message_id@) ==> r == Err::<ExecutionResult, CrossChainError>(
                CrossChainError::MessageNotFound,
            ) && final(self).processed_messages@ == old(self).processed_messages@,
            old(self).processed_messages@.contains_key(tx.message_id@) && old(self).processed_messages@[tx.message_id@].status
                != CrossChainStatus::Verified ==> r == Err::<ExecutionResult, CrossChainError>(CrossChainError::MessageNotVerified)
                && final(self).processed_messages@ == old(self).processed_messages@,
            old(self).processed_messages@.contains_key(tx.message_id@) && old(self).processed_messages@[tx.message_id@].status
                == CrossChainStatus::Verified ==> {
                &&& final(self).processed_messages@ == old(self).processed_messages@.insert(
                    tx.message_id@,
                    CrossChainMessage { status: CrossChainStatus::Executed, ..old(self).processed_messages@[tx.message_id@] },
                )
                &&& r matches Ok(res) && res.state_diffs@.len() == 0 && res.trace_hash@ == "cross_chain_"@ + tx.message_id@
                    && res.gas_used == 1000 && res.success
            },
    {
        let status = match self.processed_messages.get(tx.message_id.as_str()) {
            Some(m) => m.status,
            None => {
                return Err(CrossChainError::MessageNotFound);
            },
        };
        if status != CrossChainStatus::Verified {
            return Err(CrossChainError::MessageNotVerified);
        }
        match self.processed_messages.remove(tx.message_id.as_str()) {
            Some(mut msg) => {
                msg.status = CrossChainStatus::Executed;
                self.processed_messages.insert(tx.message_id.clone(), msg);
            },
            None => {},
        }
        let mut trace_hash = String::from_str("cross_chain_");
        push_str(&mut trace_hash, tx.message_id.as_str());
        Ok(ExecutionResult { state_diffs: Vec::new(), trace_hash, gas_used: 1000, success: true })
    }

    /// Whether `proof` is accepted: it must carry at least `quorum_size`
    /// validator signatures and be marked verified.
    pub fn verify_light_client_proof(&self, proof: &LightClientProof) -> (r: Result<bool, CrossChainError>)
        ensures
            r == Ok::<bool, CrossChainError>(proof.validator_signatures@.len() >= proof.quorum_size && proof.verified),
    {
        if (proof.validator_signatures.len() as u64) < proof.quorum_size {
            return Ok(false);
        }
        Ok(proof.verified)
    }

    /// The number of pending messages.
    pub fn get_pending_message_count(&self) -> (n: usize)
        ensures
            n == self.pending_messages@.dom().len(),
    {
        self.pending_messages.len()
    }

    /// The number of processed messages.
    pub fn get_processed_message_count(&self) -> (n: usize)
        ensures
            n == self.processed_messages@.dom().len(),
    {
        self.processed_messages.len()
    }

    /// The number of validators.
    pub fn get_validator_count(&self) -> (n: usize)
        ensures
            n == self.validators@.len(),
    {
        self.validators.len()
    }
}


// ---------------------------------------------------------------------------
// Governance of the bridge.
// ---------------------------------------------------------------------------

/// What a bridge proposal asks for.
#[derive(Debug)]
pub enum CrossChainProposalType {
    AddSupportedAsset(String),
    RemoveSupportedAsset(String),
    ChangeFeeStructure(FeeStructure),
    UpdateSecurityThreshold(u64),
    AddRelayer(String),
    RemoveRelayer(String),
    BridgeUpgrade(String),
}

/// A proposal about the bridge and its tally.
#[derive(Debug)]
pub struct CrossChainProposal {
    pub id: String,
    pub title: String,
    pub description: String,
    pub proposal_type: CrossChainProposalType,
    pub proposer: String,
    pub created_at: u64,
    pub voting_deadline: u64,
    pub executed: bool,
    pub passed: bool,
    pub votes_for: u64,
    pub votes_against: u64,
    pub total_stake_voted: u64,
}

/// The governance of a bridge.
#[derive(Debug)]
pub struct CrossChainGovernance {
    pub bridge_id: String,
    pub proposals: Vec<CrossChainProposal>,
    pub voting_power: StringMap<u64>,
    pub min_stake_for_proposal: u64,
    pub voting_period: u64,
    /// Share of the stake voted, in percent, that must be in favour.
    pub approval_threshold: u64,
}

/// The position of the first bridge proposal with this id, if any.
pub open spec fn cc_index(ps: Seq<CrossChainProposal>, id: Seq<char>) -> Option<int>
    decreases ps.len(),
{
    if ps.len() == 0 {
        None
    } else if ps[0].id@ == id {
        Some(0)
    } else {
        match cc_index(ps.drop_first(), id) {
            Some(i) => Some(i + 1),
            None => None,
        }
    }
}

proof fn lemma_cc_index(ps: Seq<CrossChainProposal>, id: Seq<char>)
    ensures
        cc_index(ps, id) matches Some(i) ==> 0 <= i < ps.len() && ps[i].id@ == id,
    decreases ps.len(),
{
    if ps.len() > 0 {
        lemma_cc_index(ps.drop_first(), id);
    }
}

fn find_cc_proposal(ps: &Vec<CrossChainProposal>, id: &str) -> (r: Option<usize>)
    ensures
        match r {
            Some(i) => cc_index(ps@, id@) == Some(i as int) && i < ps@.len(),
            None => cc_index(ps@, id@) is None,
        },
{
    let mut i: usize = 0;
    assert(ps@.skip(0) =~= ps@);
    while i < ps.len()
        invariant
            i <= ps@.len(),
            cc_index(ps@, id@) == match cc_index(ps@.skip(i as int), id@) {
                Some(j) => Some(j + i),
                None => None::<int>,
            },
        decreases ps@.len() - i,
    {
        assert(ps@.skip(i as int).drop_first() =~= ps@.skip(i + 1));
        assert(ps@.skip(i as int)[0] == ps@[i as int]);
        if str_eq(ps[i].id.as_str(), id) {
            return Some(i);
        }
        i = i + 1;
    }
    None
}

/// The id of the `n`-th bridge proposal.
pub open spec fn cc_proposal_id(n: nat) -> Seq<char> {
    "crosschain_proposal_"@ + decimal(n)
}

/// A bridge proposal as it is stored: numbered, dated `now`, with a
/// deadline one voting period later, not executed or passed, and no votes.
pub open spec fn cc_submitted(p: CrossChainProposal, stored: CrossChainProposal, n: nat, now: u64, period: u64) -> bool {
    &&& stored.id@ == cc_proposal_id(n)
    &&& stored == CrossChainProposal {
        id: stored.id,
        created_at: now,
        voting_deadline: (now + period) as u64,
        executed: false,
        passed: false,
        votes_for: 0,
        votes_against: 0,
        total_stake_voted: 0,
        ..p
    }
}

/// Whether a vote of `stake` on the bridge proposal `id` keeps every count
/// within 64 bits.
pub open spec fn cc_vote_fits(g: CrossChainGovernance, id: Seq<char>, voter: Seq<char>, vote_for: bool, stake: u64) -> bool {
    match cc_index(g.proposals@, id) {
        Some(i) => {
            let p = g.proposals@[i];
            &&& (if vote_for { p.votes_for + stake <= u64::MAX } else { p.votes_against + stake <= u64::MAX })
            &&& p.total_stake_voted + stake <= u64::MAX
            &&& (g.voting_power@.contains_key(voter) ==> g.voting_power@[voter] + stake <= u64::MAX)
        },
        None => true,
    }
}

impl CrossChainGovernance {
    /// The governance of bridge `bridge_id`: no proposals or votes, a minimum
    /// proposer stake of 1000, a seven-day voting period and a 67% approval
    /// threshold.
    pub fn new(bridge_id: String) -> (g: Self)
        ensures
            g.bridge_id == bridge_id,
            g.proposals@.len() == 0,
            g.voting_power@ == Map::<Seq<char>, u64>::empty(),
            g.min_stake_for_proposal == 1000,
            g.voting_period == 604800,
            g.approval_threshold == 67,
    {
        CrossChainGovernance {
            bridge_id,
            proposals: Vec::new(),
            voting_power: StringMap::new(),
            min_stake_for_proposal: 1000,
            voting_period: 7 * 24 * 3600,
            approval_threshold: 67,
        }
    }

    /// Submits `proposal` with `proposer_stake` at time `now`: refused (as a
    /// fee error) for less than the minimum stake; otherwise it is numbered
    /// after the proposals already there and appended (see `cc_submitted`).
    pub fn create_proposal_at(&mut self, proposal: CrossChainProposal, proposer_stake: u64, now: u64) -> (r: Result<String, CrossChainError>)
        requires
            old(self).proposals@.len() < u64::MAX,
            proposer_stake >= old(self).min_stake_for_proposal ==> now + old(self).voting_period <= u64::MAX,
        ensures
            final(self).voting_power == old(self).voting_power,
            final(self).min_stake_for_proposal == old(self).min_stake_for_proposal,
            final(self).voting_period == old(self).voting_period,
            final(self).approval_threshold == old(self).approval_threshold,
            proposer_stake < old(self).min_stake_for_proposal ==> r == Err::<String, CrossChainError>(
                CrossChainError::FeeCalculationError,
            ) && final(self).proposals@ == old(self).proposals@,
            proposer_stake >= old(self).min_stake_for_proposal ==> {
                &&& r matches Ok(id) && id@ == cc_proposal_id(old(self).proposals@.len() + 1)
                &&& final(self).proposals@.len() == old(self).proposals@.len() + 1
                &&& final(self).proposals@.drop_last() == old(self).proposals@
                &&& cc_submitted(proposal, final(self).proposals@.last(), old(self).proposals@.len() + 1, now, old(self).voting_period)
            },
    {
        if proposer_stake < self.min_stake_for_proposal {
            return Err(CrossChainError::FeeCalculationError);
        }
        let n: u64 = self.proposals.len() as u64 + 1;
        let mut id = String::from_str("crosschain_proposal_");
        push_decimal(&mut id, n);
        let mut p = proposal;
        p.id = id.clone();
        p.created_at = now;
        p.voting_deadline = now + self.voting_period;
        p.executed = false;
        p.passed = false;
        p.votes_for = 0;
        p.votes_against = 0;
        p.total_stake_voted = 0;
        self.proposals.push(p);
        assert(self.proposals@.drop_last() =~= old(self).proposals@);
        Ok(id)
    }

    /// Submits `proposal` with `proposer_stake` now (see
    /// `create_proposal_at`). Where the deadline would not fit in 64 bits
    /// the proposal is refused (as a fee error) and nothing changes.
    pub fn create_proposal(&mut self, proposal: CrossChainProposal, proposer_stake: u64) -> (r: Result<String, CrossChainError>)
        requires
            old(self).proposals@.len() < u64::MAX,
        ensures
            final(self).voting_power == old(self).voting_power,
            proposer_stake < old(self).min_stake_for_proposal ==> r == Err::<String, CrossChainError>(
                CrossChainError::FeeCalculationError,
            ) && final(self).proposals@ == old(self).proposals@,
            proposer_stake >= old(self).min_stake_for_proposal ==> {
                ||| r == Err::<String, CrossChainError>(CrossChainError::FeeCalculationError) && final(self).proposals@ == old(self).proposals@
                ||| {
                    &&& r matches Ok(id) && id@ == cc_proposal_id(old(self).proposals@.len() + 1)
                    &&& final(self).proposals@.len() == old(self).proposals@.len() + 1
                    &&& final(self).proposals@.drop_last() == old(self).proposals@
                    &&& exists|t: u64| #[trigger] cc_submitted(proposal, final(self).proposals@.last(), old(self).proposals@.len() + 1, t, old(self).voting_period)
                }
            },
    {
        let t = now_secs();
        if t > u64::MAX - self.voting_period {
            return Err(CrossChainError::FeeCalculationError);
        }
        self.create_proposal_at(proposal, proposer_stake, t)
    }

    /// Casts `stake` for or against the bridge proposal `proposal_id` on
    /// behalf of `voter`: refused (as a missing message) for an unknown
    /// proposal; otherwise the stake is added to the tally and to the
    /// voter's cast stake. The deadline is not checked.
    pub fn vote_on_proposal(&mut self, proposal_id: &str, voter: String, vote_for: bool, stake: u64) -> (r: Result<(), CrossChainError>)
        requires
            cc_vote_fits(*old(self), proposal_id@, voter@, vote_for, stake),
        ensures
            match cc_index(old(self).proposals@, proposal_id@) {
                None => r == Err::<(), CrossChainError>(CrossChainError::MessageNotFound)
                    && final(self).proposals@ == old(self).proposals@
                    && final(self).voting_power@ == old(self).voting_power@,
                Some(i) => {
                    let p = old(self).proposals@[i];
                    &&& r is Ok
                    &&& final(self).proposals@ == old(self).proposals@.update(
                        i,
                        if vote_for {
                            CrossChainProposal {
                                votes_for: (p.votes_for + stake) as u64,
                                total_stake_voted: (p.total_stake_voted + stake) as u64,
                                ..p
                            }
                        } else {
                            CrossChainProposal {
                                votes_against: (p.votes_against + stake) as u64,
                                total_stake_voted: (p.total_stake_voted + stake) as u64,
                                ..p
                            }
                        },
                    )
                    &&& final(self).voting_power@ == old(self).voting_power@.insert(
                        voter@,
                        (if old(self).voting_power@.contains_key(voter@) { old(self).voting_power@[voter@] } else { 0 } + stake) as u64,
                    )
                },
            },
    {
        let i = match find_cc_proposal(&self.proposals, proposal_id) {
            Some(i) => i,
            None => {
                return Err(CrossChainError::MessageNotFound);
            },
        };
        let ghost before = self.proposals@;
        let mut p = self.proposals.remove(i);
        if vote_for {
            p.votes_for = p.votes_for + stake;
        } else {
            p.votes_against = p.votes_against + stake;
        }
        p.total_stake_voted = p.total_stake_voted + stake;
        self.proposals.insert(i, p);
        assert(self.proposals@ =~= before.update(i as int, self.proposals@[i as int]));
        let power: u64 = match self.voting_power.get(voter.as_str()) {
            Some(v) => *v,
            None => 0,
        };
        self.voting_power.insert(voter, power + stake);
        Ok(())
    }

    /// Whether the bridge proposal `proposal_id` has passed: refused (as a
    /// missing message) for an unknown proposal; with no stake voted it has
    /// not; otherwise the share of the stake voted that is in favour, in
    /// whole percent, must reach the approval threshold.
    pub fn compute_proposal_result(&self, proposal_id: &str) -> (r: Result<bool, CrossChainError>)
        requires
            cc_index(self.proposals@, proposal_id@) matches Some(i) ==> self.proposals@[i].votes_for * 100 <= u64::MAX,
        ensures
            match cc_index(self.proposals@, proposal_id@) {
                None => r == Err::<bool, CrossChainError>(CrossChainError::MessageNotFound),
                Some(i) => {
                    let p = self.proposals@[i];
                    r == Ok::<bool, CrossChainError>(
                        p.total_stake_voted > 0 && (p.votes_for * 100) / (p.total_stake_voted as int) >= self.approval_threshold,
                    )
                },
            },
    {
        let i = match find_cc_proposal(&self.proposals, proposal_id) {
            Some(i) => i,
            None => {
                return Err(CrossChainError::MessageNotFound);
            },
        };
        let p = &self.proposals[i];
        if p.total_stake_voted == 0 {
            return Ok(false);
        }
        let approval_ratio = (p.votes_for * 100) / p.total_stake_voted;
        Ok(approval_ratio >= self.approval_threshold)
    }
}

} // verus!
