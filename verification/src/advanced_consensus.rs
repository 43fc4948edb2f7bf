//! A PBFT-style consensus engine: rounds with a rotating proposer, blocks of
//! pending transactions chained by signature, votes per round, and a two-thirds
//! majority rule.
use std::collections::HashMap;
use vstd::prelude::*;

use crate::clock::now_secs;
use crate::collections::StringMap;
use crate::consensus::{clone_validators, is_validator, lemma_stake_of_validator, stake_of, Validator};
use crate::hashing::{push_str_bytes, sha256_hex, sha256_hex_text};
use crate::state::StateStore;
use crate::text::{debug_string, debug_text, decimal, push_decimal, push_str, str_eq};

verus! {

/// Families of consensus protocols.
#[derive(Debug, Clone, Copy, PartialEq, Eq, Structural)]
pub enum AdvancedConsensusType {
    PBFT,
    Tendermint,
    HotStuff,
    Optimistic,
    Rollup,
}

/// The phase a round is in.
#[derive(Debug, Clone, Copy, PartialEq, Eq, Structural)]
pub enum ConsensusPhase {
    Propose,
    Prevote,
    Precommit,
    Commit,
}

/// The kind of a vote.
#[derive(Debug, Clone, Copy, PartialEq, Eq, Structural)]
pub enum VoteType {
    Prevote,
    Precommit,
    Commit,
}

/// A transaction waiting to go into a block.
#[derive(Debug)]
pub struct ConsensusTransaction {
    pub id: String,
    pub from: String,
    pub to: String,
    pub data: String,
    pub signature: String,
    pub timestamp: u64,
    pub gas_limit: u64,
    pub gas_price: u64,
}

impl Clone for ConsensusTransaction {
    fn clone(&self) -> (r: Self)
        ensures
            r == *self,
    {
        ConsensusTransaction {
            id: self.id.clone(),
            from: self.from.clone(),
            to: self.to.clone(),
            data: self.data.clone(),
            signature: self.signature.clone(),
            timestamp: self.timestamp,
            gas_limit: self.gas_limit,
            gas_price: self.gas_price,
        }
    }
}

/// A block: its height, the signature of the block before it, the state root,
/// its transactions, and its own signature.
#[derive(Debug)]
pub struct Block {
    pub height: u64,
    pub prev_hash: String,
    pub state_root: String,
    pub transactions: Vec<ConsensusTransaction>,
    pub proposer: String,
    pub signature: String,
    pub timestamp: u64,
    pub validators: Vec<Validator>,
}

/// A vote in a round.
#[derive(Debug)]
pub struct Vote {
    pub validator_id: String,
    pub round: u64,
    pub height: u64,
    pub block_hash: String,
    pub vote_type: VoteType,
    pub signature: String,
    pub timestamp: u64,
}

impl Clone for Vote {
    fn clone(&self) -> (r: Self)
        ensures
            r == *self,
    {
        Vote {
            validator_id: self.validator_id.clone(),
            round: self.round,
            height: self.height,
            block_hash: self.block_hash.clone(),
            vote_type: self.vote_type,
            signature: self.signature.clone(),
            timestamp: self.timestamp,
        }
    }
}

/// One round: who proposes, the block proposed (if any), and the votes cast,
/// at most one per validator id.
#[derive(Debug)]
pub struct ConsensusRound {
    pub round_number: u64,
    pub height: u64,
    pub proposer: String,
    pub proposed_block: Option<Block>,
    pub votes: StringMap<Vote>,
    pub state_root: String,
    pub timestamp: u64,
    pub phase: ConsensusPhase,
}

/// The engine.
#[derive(Debug)]
pub struct PBFTConsensusEngine {
    pub validators: Vec<Validator>,
    pub current_round: u64,
    pub current_height: u64,
    pub state_store: StateStore,
    pub rounds: HashMap<u64, ConsensusRound>,
    pub pending_transactions: Vec<ConsensusTransaction>,
    pub committed_blocks: Vec<Block>,
    pub view_change_timeout: u64,
    pub replica_id: String,
}

/// Why a consensus step failed.
#[derive(Debug, Clone, Copy, PartialEq, Eq, Structural)]
pub enum ConsensusError {
    RoundNotFound,
    InvalidBlock,
    InvalidVote,
    InsufficientVotes,
    Timeout,
}

impl ConsensusError {
    /// The error's message.
    pub fn to_string(&self) -> (r: String)
        ensures
            r@ == match self {
                ConsensusError::RoundNotFound => "Round not found"@,
                ConsensusError::InvalidBlock => "Invalid block"@,
                ConsensusError::InvalidVote => "Invalid vote"@,
                ConsensusError::InsufficientVotes => "Insufficient votes"@,
                ConsensusError::Timeout => "Consensus timeout"@,
            },
    {
        match self {
            ConsensusError::RoundNotFound => String::from_str("Round not found"),
            ConsensusError::InvalidBlock => String::from_str("Invalid block"),
            ConsensusError::InvalidVote => String::from_str("Invalid vote"),
            ConsensusError::InsufficientVotes => String::from_str("Insufficient votes"),
            ConsensusError::Timeout => String::from_str("Consensus timeout"),
        }
    }
}

// ---------------------------------------------------------------------------
// The model.
// ---------------------------------------------------------------------------

/// Whether `votes` is more than two thirds of `n` validators (PBFT's 2f+1).
pub open spec fn is_majority(votes: nat, n: nat) -> bool {
    votes > (2 * n) / 3
}

/// Votes form a majority exactly when they are more than two thirds of the
/// validators: three times the votes exceed twice the validators. So with 4
/// validators 3 votes suffice, and with 3 validators all 3 are needed.
pub proof fn lemma_majority_is_more_than_two_thirds(votes: nat, n: nat)
    ensures
        is_majority(votes, n) <==> 3 * votes > 2 * n,
{
    let q = (2 * n) / 3;
    let r = (2 * n) % 3;
    assert(2 * n == 3 * q + r && 0 <= r < 3);
    if votes > q {
        assert(3 * votes >= 3 * q + 3) by (nonlinear_arith)
            requires
                votes >= q + 1;
    } else {
        assert(3 * votes <= 3 * q) by (nonlinear_arith)
            requires
                votes <= q;
    }
}

/// The proposer of a round: validators take turns in list order; with no
/// validators the replica proposes itself.
pub open spec fn proposer_for(vs: Seq<Validator>, round: u64, replica: Seq<char>) -> Seq<char> {
    if vs.len() == 0 {
        replica
    } else {
        vs[((round as usize) as int) % (vs.len() as int)].id@
    }
}

/// The most transactions a block takes.
pub open spec fn max_block_transactions() -> nat {
    10
}

/// How many pending transactions a new block takes.
pub open spec fn block_take(pending: nat) -> nat {
    if pending < max_block_transactions() { pending } else { max_block_transactions() }
}

/// The hash a new block links to: the last committed block's signature, or
/// `genesis` before any block was committed.
pub open spec fn prev_hash_for(committed: Seq<Block>) -> Seq<char> {
    if committed.len() == 0 { "genesis"@ } else { committed.last().signature@ }
}

/// A block's signature: the hexadecimal SHA-256 of its height in decimal,
/// the state root and the previous hash.
pub open spec fn block_signature(height: u64, state_root: Seq<char>, prev: Seq<char>) -> Seq<char> {
    sha256_hex_text(vstd::utf8::encode_utf8(decimal(height as nat) + state_root + prev))
}

/// A vote's signature: the hexadecimal SHA-256 of the round and height in
/// decimal followed by the voter's id in `Debug` form.
pub open spec fn vote_signature(round: u64, height: u64, validator: Seq<char>) -> Seq<char> {
    sha256_hex_text(vstd::utf8::encode_utf8(decimal(round as nat) + decimal(height as nat) + debug_text(validator)))
}

/// The block the engine creates at time `now`, described field by field.
pub open spec fn is_new_block(b: Block, e: PBFTConsensusEngine, now: u64) -> bool {
    let prev = prev_hash_for(e.committed_blocks@);
    let root = e.state_store@.current_root;
    &&& b.height == e.current_height
    &&& b.prev_hash@ == prev
    &&& b.state_root@ == root
    &&& b.transactions@ == e.pending_transactions@.take(block_take(e.pending_transactions@.len()) as int)
    &&& b.proposer@ == e.replica_id@
    &&& b.signature@ == block_signature(e.current_height, root, prev)
    &&& b.timestamp == now
    &&& b.validators@ == e.validators@
}

/// The round the engine opens, before any block is proposed in it.
pub open spec fn is_new_round(r: ConsensusRound, e: PBFTConsensusEngine, now: u64) -> bool {
    &&& r.round_number == e.current_round
    &&& r.height == e.current_height
    &&& r.proposer@ == proposer_for(e.validators@, e.current_round, e.replica_id@)
    &&& r.votes@ == Map::<Seq<char>, Vote>::empty()
    &&& r.state_root@ == e.state_store@.current_root
    &&& r.timestamp == now
}

/// Whether a block may follow the committed chain: before any commit, any
/// block may; afterwards its previous hash must be the last block's signature.
pub open spec fn block_links(committed: Seq<Block>, b: Block) -> bool {
    committed.len() == 0 || b.prev_hash@ == committed.last().signature@
}

fn sign_data(data: &str) -> (s: String)
    ensures
        s@ == sha256_hex_text(vstd::utf8::encode_utf8(data@)),
{
    let mut bytes: Vec<u8> = Vec::new();
    push_str_bytes(&mut bytes, data);
    assert(bytes@ =~= vstd::utf8::encode_utf8(data@));
    sha256_hex(bytes.as_slice())
}

/// Whether opening the round `current_round` at time `now` can turn `before`
/// into `after` with answer `r` (see `start_round_at`).
pub open spec fn round_started(before: PBFTConsensusEngine, after: PBFTConsensusEngine, r: Result<(), ConsensusError>, now: u64) -> bool {
    &&& r is Ok
    &&& after.rounds@.dom() == before.rounds@.dom().insert(before.current_round)
    &&& forall|k: u64| k != before.current_round && #[trigger] before.rounds@.contains_key(k) ==>
        after.rounds@[k] == before.rounds@[k]
    &&& is_new_round(after.rounds@[before.current_round], before, now)
    &&& proposer_for(before.validators@, before.current_round, before.replica_id@) == before.replica_id@ ==> {
        &&& after.rounds@[before.current_round].proposed_block matches Some(b)
            && is_new_block(b, before, now)
        &&& after.rounds@[before.current_round].phase == ConsensusPhase::Prevote
        &&& after.pending_transactions@ == before.pending_transactions@.skip(
            block_take(before.pending_transactions@.len()) as int)
    }
    &&& proposer_for(before.validators@, before.current_round, before.replica_id@) != before.replica_id@ ==> {
        &&& after.rounds@[before.current_round].proposed_block is None
        &&& after.rounds@[before.current_round].phase == ConsensusPhase::Propose
        &&& after.pending_transactions == before.pending_transactions
    }
    &&& after.validators == before.validators
    &&& after.current_round == before.current_round
    &&& after.current_height == before.current_height
    &&& after.replica_id == before.replica_id
    &&& after.committed_blocks == before.committed_blocks
    &&& after.state_store == before.state_store
}

/// Whether this replica's vote in round `round_num` at time `now` can turn
/// `before` into `after` with answer `r` (see `vote_at`).
pub open spec fn voted(
    before: PBFTConsensusEngine,
    after: PBFTConsensusEngine,
    round_num: u64,
    block_hash: Seq<char>,
    vote_type: VoteType,
    r: Result<(), ConsensusError>,
    now: u64,
) -> bool {
    &&& !before.rounds@.contains_key(round_num) ==> r == Err::<(), ConsensusError>(ConsensusError::RoundNotFound)
        && after.rounds == before.rounds
    &&& before.rounds@.contains_key(round_num) ==> {
        let o = before.rounds@[round_num];
        let n = after.rounds@[round_num];
        &&& r is Ok
        &&& after.rounds@.dom() == before.rounds@.dom()
        &&& forall|k: u64| k != round_num && #[trigger] before.rounds@.contains_key(k) ==>
            after.rounds@[k] == before.rounds@[k]
        &&& n == ConsensusRound { votes: n.votes, ..o }
        &&& n.votes@.dom() == o.votes@.dom().insert(before.replica_id@)
        &&& forall|k: Seq<char>| k != before.replica_id@ && #[trigger] o.votes@.contains_key(k) ==>
            n.votes@[k] == o.votes@[k]
        &&& {
            let v = n.votes@[before.replica_id@];
            &&& v.validator_id@ == before.replica_id@
            &&& v.round == round_num
            &&& v.height == before.current_height
            &&& v.block_hash@ == block_hash
            &&& v.vote_type == vote_type
            &&& v.signature@ == vote_signature(round_num, before.current_height, before.replica_id@)
            &&& v.timestamp == now
        }
    }
    &&& after.validators == before.validators
    &&& after.current_round == before.current_round
    &&& after.current_height == before.current_height
    &&& after.replica_id == before.replica_id
    &&& after.pending_transactions == before.pending_transactions
    &&& after.committed_blocks == before.committed_blocks
    &&& after.state_store == before.state_store
}

/// Whether committing `block` can turn `before` into `after` with answer `r`
/// (see `commit_block`).
pub open spec fn block_committed(before: PBFTConsensusEngine, after: PBFTConsensusEngine, block: Block, r: Result<(), ConsensusError>) -> bool {
    &&& block_links(before.committed_blocks@, block) ==> {
        &&& r is Ok
        &&& after.committed_blocks@ == before.committed_blocks@.push(block)
        &&& after.current_height == before.current_height + 1
        &&& after.current_round == before.current_round + 1
        &&& after.state_store@.entries == before.state_store@.entries
        &&& after.state_store@.versions == before.state_store@.versions.push(
            crate::state::root_of(before.state_store@.entries))
    }
    &&& !block_links(before.committed_blocks@, block) ==> {
        &&& r == Err::<(), ConsensusError>(ConsensusError::InvalidBlock)
        &&& after == before
    }
    &&& after.validators == before.validators
    &&& after.rounds == before.rounds
    &&& after.replica_id == before.replica_id
    &&& after.pending_transactions == before.pending_transactions
}

impl PBFTConsensusEngine {
    /// An engine for replica `replica_id`, at round 0 and height 0, with no
    /// validators, rounds, pending transactions or blocks, and a 30-second
    /// view-change timeout.
    pub fn new(state_store: StateStore, replica_id: String) -> (e: Self)
        ensures
            e.validators@ == Seq::<Validator>::empty(),
            e.current_round == 0,
            e.current_height == 0,
            e.state_store@ == state_store@,
            e.rounds@ == Map::<u64, ConsensusRound>::empty(),
            e.pending_transactions@ == Seq::<ConsensusTransaction>::empty(),
            e.committed_blocks@ == Seq::<Block>::empty(),
            e.view_change_timeout == 30,
            e.replica_id@ == replica_id@,
            height_counts_blocks(e),
    {
        PBFTConsensusEngine {
            validators: Vec::new(),
            current_round: 0,
            current_height: 0,
            state_store,
            rounds: HashMap::new(),
            pending_transactions: Vec::new(),
            committed_blocks: Vec::new(),
            view_change_timeout: 30,
            replica_id,
        }
    }

    /// Adds a validator at the end of the list.
    pub fn add_validator(&mut self, validator: Validator)
        ensures
            final(self).validators@ == old(self).validators@.push(validator),
            final(self).rounds == old(self).rounds,
            final(self).current_round == old(self).current_round,
            final(self).current_height == old(self).current_height,
            final(self).replica_id == old(self).replica_id,
            final(self).pending_transactions == old(self).pending_transactions,
            final(self).committed_blocks == old(self).committed_blocks,
            final(self).state_store == old(self).state_store,
            height_counts_blocks(*old(self)) ==> height_counts_blocks(*final(self)),
    {
        self.validators.push(validator);
    }

    /// The proposer of `round`.
    fn select_proposer(&self, round: u64) -> (p: String)
        ensures
            p@ == proposer_for(self.validators@, round, self.replica_id@),
    {
        if self.validators.len() == 0 {
            return self.replica_id.clone();
        }
        let index = (round as usize) % self.validators.len();
        self.validators[index].id.clone()
    }

    /// Creates a block at time `now` from up to ten pending transactions,
    /// which leave the pending list.
    fn create_block(&mut self, now: u64) -> (r: Result<Block, ConsensusError>)
        ensures
            r matches Ok(b) && is_new_block(b, *old(self), now),
            final(self).pending_transactions@ == old(self).pending_transactions@.skip(
                block_take(old(self).pending_transactions@.len()) as int),
            final(self).validators == old(self).validators,
            final(self).rounds == old(self).rounds,
            final(self).current_round == old(self).current_round,
            final(self).current_height == old(self).current_height,
            final(self).replica_id == old(self).replica_id,
            final(self).committed_blocks == old(self).committed_blocks,
            final(self).state_store == old(self).state_store,
    {
        let prev_hash = if self.committed_blocks.len() == 0 {
            String::from_str("genesis")
        } else {
            self.committed_blocks[self.committed_blocks.len() - 1].signature.clone()
        };
        let max_transactions: usize = 10;
        let take = if max_transactions < self.pending_transactions.len() {
            max_transactions
        } else {
            self.pending_transactions.len()
        };
        let mut transactions = self.pending_transactions.split_off(take);
        std::mem::swap(&mut transactions, &mut self.pending_transactions);
        let state_root = String::from_str(self.state_store.get_root_hash());
        let mut data = String::new();
        push_decimal(&mut data, self.current_height);
        push_str(&mut data, state_root.as_str());
        push_str(&mut data, prev_hash.as_str());
        assert(data@ =~= decimal(self.current_height as nat) + state_root@ + prev_hash@);
        let signature = sign_data(data.as_str());
        let block = Block {
            height: self.current_height,
            prev_hash,
            state_root,
            transactions,
            proposer: self.replica_id.clone(),
            signature,
            timestamp: now,
            validators: clone_validators(&self.validators),
        };
        proof {
            reveal_strlit("genesis");
        }
        Ok(block)
    }

    /// Proposes a block for round `round_num` at time `now`: a block is
    /// created (taking pending transactions); if the round exists and has no
    /// block yet, the block becomes its proposal and the round moves to
    /// prevote.
    fn propose_block(&mut self, round_num: u64, now: u64) -> (r: Result<(), ConsensusError>)
        ensures
            r is Ok,
            final(self).pending_transactions@ == old(self).pending_transactions@.skip(
                block_take(old(self).pending_transactions@.len()) as int),
            final(self).rounds@.dom() == old(self).rounds@.dom(),
            forall|k: u64| k != round_num && #[trigger] old(self).rounds@.contains_key(k) ==>
                final(self).rounds@[k] == old(self).rounds@[k],
            old(self).rounds@.contains_key(round_num) ==> {
                let o = old(self).rounds@[round_num];
                let n = final(self).rounds@[round_num];
                if o.proposed_block is None {
                    &&& n.proposed_block matches Some(b) && is_new_block(b, *old(self), now)
                    &&& n.phase == ConsensusPhase::Prevote
                    &&& n == ConsensusRound { proposed_block: n.proposed_block, phase: ConsensusPhase::Prevote, ..o }
                } else {
                    n == o
                }
            },
            final(self).validators == old(self).validators,
            final(self).current_round == old(self).current_round,
            final(self).current_height == old(self).current_height,
            final(self).replica_id == old(self).replica_id,
            final(self).committed_blocks == old(self).committed_blocks,
            final(self).state_store == old(self).state_store,
    {
        let block = self.create_block(now)?;
        let ghost mid = self.rounds@;
        if self.rounds.contains_key(&round_num) {
            let round_opt = self.rounds.remove(&round_num);
            match round_opt {
                Some(mut round) => {
                    if round.proposed_block.is_none() {
                        round.proposed_block = Some(block);
                        round.phase = ConsensusPhase::Prevote;
                    }
                    self.rounds.insert(round_num, round);
                    assert(self.rounds@ =~= mid.insert(round_num, self.rounds@[round_num]));
                    assert(self.rounds@.dom() =~= old(self).rounds@.dom());
                },
                None => {},
            }
        }
        Ok(())
    }

    /// Opens the round `current_round` at time `now`: its proposer is chosen
    /// by rotation, and it records the current height and state root. If this
    /// replica is the proposer, it proposes a block at once.
    pub fn start_round_at(&mut self, now: u64) -> (r: Result<(), ConsensusError>)
        ensures
            round_started(*old(self), *final(self), r, now),
            height_counts_blocks(*old(self)) ==> height_counts_blocks(*final(self)),
    {
        let proposer = self.select_proposer(self.current_round);
        let round = ConsensusRound {
            round_number: self.current_round,
            height: self.current_height,
            proposer: proposer.clone(),
            proposed_block: None,
            votes: StringMap::new(),
            state_root: String::from_str(self.state_store.get_root_hash()),
            timestamp: now,
            phase: ConsensusPhase::Propose,
        };
        let ghost before = self.rounds@;
        self.rounds.insert(self.current_round, round);
        assert(self.rounds@.dom() =~= before.dom().insert(self.current_round));
        let ghost inserted = self.rounds@;
        if str_eq(proposer.as_str(), self.replica_id.as_str()) {
            let cr = self.current_round;
            self.propose_block(cr, now)?;
            assert forall|k: u64| k != cr && #[trigger] before.contains_key(k) implies
                self.rounds@[k] == before[k] by {
                assert(inserted.contains_key(k));
            }
        }
        Ok(())
    }

    /// Opens the round `current_round` at the current time (see
    /// `start_round_at`).
    pub fn start_round(&mut self) -> (r: Result<(), ConsensusError>)
        ensures
            exists|t: u64| #[trigger] round_started(*old(self), *final(self), r, t),
            height_counts_blocks(*old(self)) ==> height_counts_blocks(*final(self)),
    {
        let t = now_secs();
        let r = self.start_round_at(t);
        assert(round_started(*old(self), *self, r, t));
        r
    }

    /// Casts this replica's vote in round `round_num` at time `now`. The vote
    /// carries the current height and a signature over the round, the height
    /// and the replica's id; it replaces any earlier vote of this replica in
    /// that round. A round that was never opened is refused.
    pub fn vote_at(&mut self, round_num: u64, block_hash: String, vote_type: VoteType, now: u64) -> (r: Result<(), ConsensusError>)
        ensures
            voted(*old(self), *final(self), round_num, block_hash@, vote_type, r, now),
            height_counts_blocks(*old(self)) ==> height_counts_blocks(*final(self)),
    {
        let validator_id = self.replica_id.clone();
        let current_height = self.current_height;
        let mut data = String::new();
        push_decimal(&mut data, round_num);
        push_decimal(&mut data, current_height);
        let quoted = debug_string(validator_id.as_str());
        push_str(&mut data, quoted.as_str());
        assert(data@ =~= decimal(round_num as nat) + decimal(current_height as nat) + debug_text(validator_id@));
        let signature = sign_data(data.as_str());
        let vote = Vote {
            validator_id: validator_id.clone(),
            round: round_num,
            height: current_height,
            block_hash,
            vote_type,
            signature,
            timestamp: now,
        };
        let ghost before = self.rounds@;
        if self.rounds.contains_key(&round_num) {
            let round_opt = self.rounds.remove(&round_num);
            match round_opt {
                Some(mut round) => {
                    round.votes.insert(validator_id, vote);
                    self.rounds.insert(round_num, round);
                    assert(self.rounds@.dom() =~= before.dom());
                    Ok(())
                },
                None => Err(ConsensusError::RoundNotFound),
            }
        } else {
            Err(ConsensusError::RoundNotFound)
        }
    }

    /// Casts this replica's vote in round `round_num` at the current time
    /// (see `vote_at`).
    pub fn vote(&mut self, round_num: u64, block_hash: String, vote_type: VoteType) -> (r: Result<(), ConsensusError>)
        ensures
            exists|t: u64| #[trigger] voted(*old(self), *final(self), round_num, block_hash@, vote_type, r, t),
            height_counts_blocks(*old(self)) ==> height_counts_blocks(*final(self)),
    {
        let t = now_secs();
        let ghost bh = block_hash@;
        let r = self.vote_at(round_num, block_hash, vote_type, t);
        assert(voted(*old(self), *self, round_num, bh, vote_type, r, t));
        r
    }

    /// Whether the vote comes from a known validator (signatures are not
    /// checked).
    pub fn validate_vote(&self, vote: &Vote) -> (r: Result<bool, ConsensusError>)
        ensures
            r == Ok::<bool, ConsensusError>(is_validator(self.validators@, vote.validator_id@)),
    {
        proof {
            lemma_stake_of_validator(self.validators@, vote.validator_id@);
        }
        let mut i: usize = 0;
        assert(self.validators@.skip(0) =~= self.validators@);
        while i < self.validators.len()
            invariant
                i <= self.validators@.len(),
                stake_of(self.validators@, vote.validator_id@) == stake_of(self.validators@.skip(i as int), vote.validator_id@),
            decreases self.validators@.len() - i,
        {
            assert(self.validators@.skip(i as int).drop_first() =~= self.validators@.skip(i + 1));
            if str_eq(self.validators[i].id.as_str(), vote.validator_id.as_str()) {
                return Ok(true);
            }
            i = i + 1;
        }
        Ok(false)
    }

    /// Whether the votes (one per validator id) are more than two thirds of
    /// the validators.
    pub fn has_majority(&self, votes: &StringMap<Vote>) -> (r: bool)
        ensures
            r == is_majority(votes.keys().len(), self.validators@.len()),
    {
        let total_validators = self.validators.len() as u128;
        let vote_count = votes.len() as u128;
        vote_count > (2 * total_validators) / 3
    }

    /// Whether `block` links to the committed chain.
    fn validate_block(&self, block: &Block) -> (r: Result<bool, ConsensusError>)
        ensures
            r == Ok::<bool, ConsensusError>(block_links(self.committed_blocks@, *block)),
    {
        if self.committed_blocks.len() > 0 {
            let last_block = &self.committed_blocks[self.committed_blocks.len() - 1];
            if !str_eq(block.prev_hash.as_str(), last_block.signature.as_str()) {
                return Ok(false);
            }
        }
        Ok(true)
    }

    /// Commits `block` if it links to the chain: the state root is
    /// recomputed, the block is appended, and height and round advance by one.
    /// A block that does not link is refused and nothing changes.
    pub fn commit_block(&mut self, block: Block) -> (r: Result<(), ConsensusError>)
        requires
            old(self).current_height < u64::MAX,
            old(self).current_round < u64::MAX,
        ensures
            block_committed(*old(self), *final(self), block, r),
            height_counts_blocks(*old(self)) ==> height_counts_blocks(*final(self)),
    {
        let valid = self.validate_block(&block);
        match valid {
            Ok(true) => {},
            _ => {
                return Err(ConsensusError::InvalidBlock);
            },
        }
        self.state_store.update_root_hash_public();
        self.committed_blocks.push(block);
        self.current_height = self.current_height + 1;
        self.current_round = self.current_round + 1;
        Ok(())
    }

    /// The current height.
    pub fn get_current_height(&self) -> (h: u64)
        ensures
            h == self.current_height,
    {
        self.current_height
    }

    /// The number of committed blocks.
    pub fn get_block_count(&self) -> (n: usize)
        ensures
            n == self.committed_blocks@.len(),
    {
        self.committed_blocks.len()
    }
}

/// A block committed after another links to it: the chain of committed
/// blocks stays linked by signatures.
pub proof fn lemma_commit_keeps_chain_linked(committed: Seq<Block>, b: Block)
    requires
        block_links(committed, b),
        committed.len() > 0,
    ensures
        committed.push(b).last().prev_hash@ == committed.last().signature@,
{
}

/// The height equals the number of committed blocks (as in a new engine,
/// where both are zero).
pub open spec fn height_counts_blocks(e: PBFTConsensusEngine) -> bool {
    e.current_height == e.committed_blocks@.len()
}

/// Committing a block keeps the height equal to the number of committed
/// blocks, whether the block is taken or refused.
pub proof fn lemma_commit_keeps_height_counting_blocks(
    before: PBFTConsensusEngine,
    after: PBFTConsensusEngine,
    block: Block,
    r: Result<(), ConsensusError>,
)
    requires
        height_counts_blocks(before),
        block_committed(before, after, block, r),
    ensures
        height_counts_blocks(after),
{
}

/// Opening a round, or voting in one, at any time keeps the height equal to
/// the number of committed blocks.
pub proof fn lemma_rounds_and_votes_keep_height_counting_blocks(
    before: PBFTConsensusEngine,
    after: PBFTConsensusEngine,
    round_num: u64,
    block_hash: Seq<char>,
    vote_type: VoteType,
    r: Result<(), ConsensusError>,
    now: u64,
)
    requires
        height_counts_blocks(before),
        round_started(before, after, r, now) || voted(before, after, round_num, block_hash, vote_type, r, now),
    ensures
        height_counts_blocks(after),
{
}

} // verus!
