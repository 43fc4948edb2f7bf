//! The atomic layer: atomic data units (ADUs) identified by the SHA-256 of
//! their serialized form, transactions of units within a gas limit, their
//! all-or-nothing execution, accountability anchors and atomicity proofs.
//! Times are nanoseconds since the Unix epoch. How a unit, a transaction or a
//! proof is serialized is up to the caller, who passes the serializer in.
use vstd::prelude::*;

use crate::clock::now_nanos;
use crate::collections::StringMap;
use crate::hashing::{sha256_hex, sha256_hex_text};
use crate::text::{clone_strings, str_eq};

verus! {

// ---------------------------------------------------------------------------
// Types.
// ---------------------------------------------------------------------------

/// What an atomic data unit does.
#[derive(Debug)]
pub enum OperationType {
    Transfer { from: String, to: String, amount: u64 },
    StateUpdate { key: String, old_value: Vec<u8>, new_value: Vec<u8> },
    ContractExecution { contract_id: String, method: String, args: Vec<u8> },
    GovernanceAction { proposal_id: String, action: String },
    Custom { operation: String, params: Vec<u8> },
}

/// Whether two operations are the same, byte buffers compared by content.
pub open spec fn same_op(a: OperationType, b: OperationType) -> bool {
    match (a, b) {
        (OperationType::Transfer { from: f1, to: t1, amount: a1 }, OperationType::Transfer { from: f2, to: t2, amount: a2 }) =>
            f1 == f2 && t1 == t2 && a1 == a2,
        (
            OperationType::StateUpdate { key: k1, old_value: o1, new_value: n1 },
            OperationType::StateUpdate { key: k2, old_value: o2, new_value: n2 },
        ) => k1 == k2 && o1@ == o2@ && n1@ == n2@,
        (
            OperationType::ContractExecution { contract_id: c1, method: m1, args: a1 },
            OperationType::ContractExecution { contract_id: c2, method: m2, args: a2 },
        ) => c1 == c2 && m1 == m2 && a1@ == a2@,
        (
            OperationType::GovernanceAction { proposal_id: p1, action: a1 },
            OperationType::GovernanceAction { proposal_id: p2, action: a2 },
        ) => p1 == p2 && a1 == a2,
        (OperationType::Custom { operation: o1, params: p1 }, OperationType::Custom { operation: o2, params: p2 }) =>
            o1 == o2 && p1@ == p2@,
        _ => false,
    }
}

fn clone_bytes(v: &Vec<u8>) -> (r: Vec<u8>)
    ensures
        r@ == v@,
{
    let r = v.clone();
    assert(r@ =~= v@);
    r
}

impl Clone for OperationType {
    fn clone(&self) -> (r: Self)
        ensures
            same_op(r, *self),
    {
        match self {
            OperationType::Transfer { from, to, amount } => OperationType::Transfer {
                from: from.clone(),
                to: to.clone(),
                amount: *amount,
            },
            OperationType::StateUpdate { key, old_value, new_value } => OperationType::StateUpdate {
                key: key.clone(),
                old_value: clone_bytes(old_value),
                new_value: clone_bytes(new_value),
            },
            OperationType::ContractExecution { contract_id, method, args } => OperationType::ContractExecution {
                contract_id: contract_id.clone(),
                method: method.clone(),
                args: clone_bytes(args),
            },
            OperationType::GovernanceAction { proposal_id, action } => OperationType::GovernanceAction {
                proposal_id: proposal_id.clone(),
                action: action.clone(),
            },
            OperationType::Custom { operation, params } => OperationType::Custom {
                operation: operation.clone(),
                params: clone_bytes(params),
            },
        }
    }
}

/// A party's signature.
#[derive(Debug)]
pub struct Signature {
    pub public_key: String,
    pub signature: String,
    pub signed_at: i128,
}

impl Clone for Signature {
    fn clone(&self) -> (r: Self)
        ensures
            r == *self,
    {
        Signature { public_key: self.public_key.clone(), signature: self.signature.clone(), signed_at: self.signed_at }
    }
}

fn clone_signatures(v: &Vec<Signature>) -> (r: Vec<Signature>)
    ensures
        r@ == v@,
{
    let mut r: Vec<Signature> = Vec::new();
    let mut i: usize = 0;
    while i < v.len()
        invariant
            i <= v@.len(),
            r@ == v@.take(i as int),
        decreases v@.len() - i,
    {
        r.push(v[i].clone());
        assert(r@ =~= v@.take(i + 1));
        i = i + 1;
    }
    assert(r@ =~= v@);
    r
}

/// An atomic data unit.
#[derive(Debug)]
pub struct AtomicDataUnit {
    pub id: String,
    /// The SHA-256, in hexadecimal, of the unit serialized with an empty hash.
    pub hash: String,
    pub operation_type: OperationType,
    pub content: Vec<u8>,
    pub created_at: i128,
    pub signatures: Vec<Signature>,
    /// Ids of earlier units, for ordering.
    pub prev_refs: Vec<String>,
    pub metadata: StringMap<String>,
}

/// Whether `b` is `a` in every field but the hash, buffers and maps compared
/// by content.
pub open spec fn same_but_hash(a: AtomicDataUnit, b: AtomicDataUnit) -> bool {
    &&& a.id == b.id
    &&& same_op(a.operation_type, b.operation_type)
    &&& a.content@ == b.content@
    &&& a.created_at == b.created_at
    &&& a.signatures@ == b.signatures@
    &&& a.prev_refs@ == b.prev_refs@
    &&& a.metadata@ == b.metadata@
}

/// Whether two units say the same.
pub open spec fn same_adu(a: AtomicDataUnit, b: AtomicDataUnit) -> bool {
    same_but_hash(a, b) && a.hash == b.hash
}

impl Clone for AtomicDataUnit {
    fn clone(&self) -> (r: Self)
        ensures
            same_adu(r, *self),
    {
        AtomicDataUnit {
            id: self.id.clone(),
            hash: self.hash.clone(),
            operation_type: self.operation_type.clone(),
            content: clone_bytes(&self.content),
            created_at: self.created_at,
            signatures: clone_signatures(&self.signatures),
            prev_refs: clone_strings(&self.prev_refs),
            metadata: self.metadata.clone(),
        }
    }
}

/// What an accountability anchor links.
#[derive(Debug, Clone, Copy, PartialEq, Eq, Structural)]
pub enum AnchorType {
    TransactionBatch,
    LogicalOperation,
    TemporalLink,
    AgentAssociation,
    ResourceAssociation,
}

/// Links related units.
#[derive(Debug)]
pub struct AccountabilityAnchor {
    pub id: String,
    pub adu_ids: Vec<String>,
    pub anchor_type: AnchorType,
    pub created_at: i128,
    pub expires_at: Option<i128>,
    pub verified: bool,
}

/// A Merkle path for checking one unit against a root.
#[derive(Debug)]
pub struct MerklePath {
    pub position: usize,
    pub siblings: Vec<String>,
    /// Left or right at each level.
    pub directions: Vec<bool>,
}

/// A proof that a set of units was executed atomically.
#[derive(Debug)]
pub struct AtomicityProof {
    /// The SHA-256, in hexadecimal, of the proof serialized with an empty
    /// hash.
    pub proof_hash: String,
    pub adus: Vec<String>,
    /// The SHA-256, in hexadecimal, of the units' hashes decoded and joined.
    pub merkle_root: String,
    pub merkle_paths: Vec<MerklePath>,
    pub generated_at: i128,
    pub valid_until: i128,
    pub verifiers: Vec<String>,
}

/// Where a transaction stands.
#[derive(Debug, Clone, Copy, PartialEq, Eq, Structural)]
pub enum TransactionStatus {
    Pending,
    Processing,
    Success,
    Failed,
    Rejected,
    TimedOut,
}

/// A collection of units executed together.
#[derive(Debug)]
pub struct Transaction {
    pub id: String,
    /// The SHA-256, in hexadecimal, of the transaction serialized with an
    /// empty hash.
    pub hash: String,
    pub adus: Vec<AtomicDataUnit>,
    pub sender: String,
    pub gas_limit: u64,
    pub gas_price: u64,
    pub created_at: i128,
    pub deadline: i128,
    pub signatures: Vec<Signature>,
    pub status: TransactionStatus,
}

/// Whether two lists of units say the same, unit by unit.
pub open spec fn same_adus(a: Seq<AtomicDataUnit>, b: Seq<AtomicDataUnit>) -> bool {
    a.len() == b.len() && forall|i: int| 0 <= i < a.len() ==> #[trigger] same_adu(a[i], b[i])
}

/// Whether two transactions say the same.
pub open spec fn same_tx(a: Transaction, b: Transaction) -> bool {
    &&& a.id == b.id
    &&& a.hash == b.hash
    &&& same_adus(a.adus@, b.adus@)
    &&& a.sender == b.sender
    &&& a.gas_limit == b.gas_limit
    &&& a.gas_price == b.gas_price
    &&& a.created_at == b.created_at
    &&& a.deadline == b.deadline
    &&& a.signatures@ == b.signatures@
    &&& a.status == b.status
}

fn clone_adus(v: &Vec<AtomicDataUnit>) -> (r: Vec<AtomicDataUnit>)
    ensures
        same_adus(r@, v@),
{
    let mut r: Vec<AtomicDataUnit> = Vec::new();
    let mut i: usize = 0;
    while i < v.len()
        invariant
            i <= v@.len(),
            r@.len() == i,
            forall|j: int| 0 <= j < i ==> #[trigger] same_adu(r@[j], v@[j]),
        decreases v@.len() - i,
    {
        r.push(v[i].clone());
        i = i + 1;
    }
    r
}

impl Clone for Transaction {
    fn clone(&self) -> (r: Self)
        ensures
            same_tx(r, *self),
    {
        Transaction {
            id: self.id.clone(),
            hash: self.hash.clone(),
            adus: clone_adus(&self.adus),
            sender: self.sender.clone(),
            gas_limit: self.gas_limit,
            gas_price: self.gas_price,
            created_at: self.created_at,
            deadline: self.deadline,
            signatures: clone_signatures(&self.signatures),
            status: self.status,
        }
    }
}

/// Gas prices, limits and consumption.
#[derive(Debug)]
pub struct GasAccounting {
    /// Gas used, by kind of use.
    pub gas_usage: StringMap<u64>,
    /// Gas price of each kind of operation.
    pub gas_prices: StringMap<u64>,
    pub gas_limits: StringMap<u64>,
    pub total_consumed: u64,
}

/// Registers units and executes transactions of them.
#[derive(Debug)]
pub struct AtomicExecutor {
    pub registry: StringMap<AtomicDataUnit>,
    pub anchors: StringMap<AccountabilityAnchor>,
    pub transaction_pool: Vec<Transaction>,
    pub completed_transactions: StringMap<Transaction>,
    pub proof_store: StringMap<AtomicityProof>,
    pub gas_accounting: GasAccounting,
}


// ---------------------------------------------------------------------------
// Calls into other crates.
// ---------------------------------------------------------------------------

/// A fresh random identifier (`uuid::Uuid::new_v4`, written in its
/// hyphenated form). Claimed: it is 36 characters long; nothing else, the
/// value is random.
#[verifier::external_body]
fn new_uuid() -> (s: String)
    ensures
        s@.len() == 36,
{
    uuid::Uuid::new_v4().to_string()
}

/// The value of a hexadecimal digit, in either case.
pub open spec fn hex_value(b: u8) -> Option<u8> {
    if 48 <= b <= 57 {
        Some((b - 48) as u8)
    } else if 97 <= b <= 102 {
        Some((b - 87) as u8)
    } else if 65 <= b <= 70 {
        Some((b - 55) as u8)
    } else {
        None
    }
}

/// The bytes that hexadecimal text stands for: each pair of digits is one
/// byte, high digit first; nothing for an odd length or a non-digit.
pub open spec fn hex_decoded(d: Seq<u8>) -> Option<Seq<u8>>
    decreases d.len(),
{
    if d.len() == 0 {
        Some(Seq::empty())
    } else if d.len() == 1 {
        None
    } else {
        match (hex_value(d[0]), hex_value(d[1]), hex_decoded(d.subrange(2, d.len() as int))) {
            (Some(h), Some(l), Some(rest)) => Some(seq![(h * 16 + l) as u8] + rest),
            _ => None,
        }
    }
}

/// Decodes hexadecimal text (`hex::decode` on its bytes). Claimed: the
/// result is `hex_decoded` of the text's bytes, which is what the crate's
/// source does (odd length and non-digits are errors; digits of either case
/// are accepted).
#[verifier::external_body]
fn hex_decode(s: &str) -> (r: Option<Vec<u8>>)
    ensures
        match r {
            Some(b) => hex_decoded(vstd::utf8::encode_utf8(s@)) == Some(b@),
            None => hex_decoded(vstd::utf8::encode_utf8(s@)) is None,
        },
{
    hex::decode(s).ok()
}

// ---------------------------------------------------------------------------
// The model.
// ---------------------------------------------------------------------------

/// The kind of an operation, as gas prices name it.
pub open spec fn op_kind(op: OperationType) -> Seq<char> {
    match op {
        OperationType::Transfer { .. } => "transfer"@,
        OperationType::StateUpdate { .. } => "state_update"@,
        OperationType::ContractExecution { .. } => "contract_execution"@,
        OperationType::GovernanceAction { .. } => "governance_action"@,
        OperationType::Custom { .. } => "custom"@,
    }
}

/// The gas price of an operation: its kind's price, or 100 when the kind has
/// none.
pub open spec fn gas_price(prices: Map<Seq<char>, u64>, op: OperationType) -> u64 {
    if prices.contains_key(op_kind(op)) {
        prices[op_kind(op)]
    } else {
        100
    }
}

/// The gas the units need together.
pub open spec fn gas_total(prices: Map<Seq<char>, u64>, adus: Seq<AtomicDataUnit>) -> nat
    decreases adus.len(),
{
    if adus.len() == 0 {
        0
    } else {
        gas_total(prices, adus.drop_last()) + gas_price(prices, adus.last().operation_type) as nat
    }
}

/// Gas adds up unit by unit: the gas of two lists one after the other is
/// the sum of their gas.
pub proof fn lemma_gas_total_adds(prices: Map<Seq<char>, u64>, a: Seq<AtomicDataUnit>, b: Seq<AtomicDataUnit>)
    ensures
        gas_total(prices, a + b) == gas_total(prices, a) + gas_total(prices, b),
    decreases b.len(),
{
    if b.len() == 0 {
        assert(a + b =~= a);
    } else {
        assert((a + b).drop_last() =~= a + b.drop_last());
        assert((a + b).last() == b.last());
        lemma_gas_total_adds(prices, a, b.drop_last());
    }
}

/// Each unit is charged the price registered for its own kind of
/// operation: a transfer the price under "transfer", a state update the one
/// under "state_update", a contract execution the one under
/// "contract_execution", a governance action the one under
/// "governance_action", a custom operation the one under "custom"; a kind
/// with no registered price costs 100.
pub proof fn lemma_unit_charged_by_its_kind(prices: Map<Seq<char>, u64>, adus: Seq<AtomicDataUnit>, u: AtomicDataUnit)
    ensures
        gas_total(prices, adus.push(u)) == gas_total(prices, adus) + ({
            let kind = match u.operation_type {
                OperationType::Transfer { .. } => "transfer"@,
                OperationType::StateUpdate { .. } => "state_update"@,
                OperationType::ContractExecution { .. } => "contract_execution"@,
                OperationType::GovernanceAction { .. } => "governance_action"@,
                OperationType::Custom { .. } => "custom"@,
            };
            if prices.contains_key(kind) { prices[kind] as nat } else { 100nat }
        }),
{
    assert(adus.push(u).drop_last() =~= adus);
}

/// With the executor's default prices, a transfer costs 100, a state update
/// 200, a contract execution 500, a governance action 300 and a custom
/// operation 100.
pub proof fn lemma_default_unit_prices(u: AtomicDataUnit)
    ensures
        ({
            let prices = map![
                "transfer"@ => 100u64,
                "state_update"@ => 200u64,
                "contract_execution"@ => 500u64,
                "governance_action"@ => 300u64,
            ];
            gas_total(prices, seq![u]) == match u.operation_type {
                OperationType::Transfer { .. } => 100nat,
                OperationType::StateUpdate { .. } => 200nat,
                OperationType::ContractExecution { .. } => 500nat,
                OperationType::GovernanceAction { .. } => 300nat,
                OperationType::Custom { .. } => 100nat,
            }
        }),
{
    reveal_strlit("transfer");
    reveal_strlit("state_update");
    reveal_strlit("contract_execution");
    reveal_strlit("governance_action");
    reveal_strlit("custom");
    let prices = map![
        "transfer"@ => 100u64,
        "state_update"@ => 200u64,
        "contract_execution"@ => 500u64,
        "governance_action"@ => 300u64,
    ];
    lemma_unit_charged_by_its_kind(prices, Seq::<AtomicDataUnit>::empty(), u);
    assert(Seq::<AtomicDataUnit>::empty().push(u) =~= seq![u]);
    // The kinds' names have different lengths, so they are different keys.
    assert("transfer"@.len() == 8);
    assert("state_update"@.len() == 12);
    assert("contract_execution"@.len() == 18);
    assert("governance_action"@.len() == 17);
    assert("custom"@.len() == 6);
}

proof fn lemma_gas_total_prefix(prices: Map<Seq<char>, u64>, adus: Seq<AtomicDataUnit>, i: int)
    requires
        0 <= i <= adus.len(),
    ensures
        gas_total(prices, adus.take(i)) <= gas_total(prices, adus),
    decreases adus.len() - i,
{
    if i < adus.len() {
        lemma_gas_total_prefix(prices, adus, i + 1);
        assert(adus.take(i + 1).drop_last() =~= adus.take(i));
    } else {
        assert(adus.take(i) =~= adus);
    }
}

/// What checking unit `a` gives when its serialization (with an empty hash)
/// came out as `out`: a serialization error is passed on; otherwise the unit
/// passes when its hash is the digest of those bytes and it is signed.
pub open spec fn check_outcome(a: AtomicDataUnit, out: Result<Vec<u8>, String>) -> Result<bool, String> {
    match out {
        Ok(bytes) => Ok(a.hash@ == sha256_hex_text(bytes@) && a.signatures@.len() > 0),
        Err(e) => Err(e),
    }
}

/// Whether `r` is what checking unit `a` gives with serializer `ser`, for
/// some serialization of a copy of `a` with an empty hash.
pub open spec fn adu_checked<F: Fn(&AtomicDataUnit) -> Result<Vec<u8>, String>>(ser: F, a: AtomicDataUnit, r: Result<bool, String>) -> bool {
    exists|b: AtomicDataUnit, out: Result<Vec<u8>, String>|
        b.hash@.len() == 0 && same_but_hash(b, a) && #[trigger] ser.ensures((&b,), out) && r == check_outcome(a, out)
}

/// Whether the first `k` units of `adus` pass their checks.
pub open spec fn checks_pass<F: Fn(&AtomicDataUnit) -> Result<Vec<u8>, String>>(ser: F, adus: Seq<AtomicDataUnit>, k: int) -> bool {
    forall|j: int| 0 <= j < k ==> #[trigger] adu_checked(ser, adus[j], Ok(true))
}

/// Whether `r` is how checking `adus` in order ends for a caller that stops
/// at the first unit that does not pass: the check's error, or `invalid`
/// applied to the unit that failed; `None` when all pass.
pub open spec fn first_failure<F: Fn(&AtomicDataUnit) -> Result<Vec<u8>, String>>(ser: F, adus: Seq<AtomicDataUnit>, k: int, c: Result<bool, String>) -> bool {
    &&& 0 <= k < adus.len()
    &&& checks_pass(ser, adus, k)
    &&& adu_checked(ser, adus[k], c)
    &&& c != Ok::<bool, String>(true)
}

/// Whether every serializer call is allowed.
pub open spec fn total_adu<F: Fn(&AtomicDataUnit) -> Result<Vec<u8>, String>>(ser: F) -> bool {
    forall|x: &AtomicDataUnit| #[trigger] ser.requires((x,))
}

/// Whether `b` is a new unit with id `id`, no hash, no signatures, no earlier
/// units, no metadata.
pub open spec fn fresh_adu(b: AtomicDataUnit, id: String, operation: OperationType, content: Vec<u8>, created_at: i128) -> bool {
    &&& b.hash@.len() == 0
    &&& b.id == id
    &&& b.operation_type == operation
    &&& b.content == content
    &&& b.created_at == created_at
    &&& b.signatures@.len() == 0
    &&& b.prev_refs@.len() == 0
    &&& b.metadata@ == Map::<Seq<char>, String>::empty()
}

/// One day and one year, in nanoseconds.
pub open spec fn day_nanos() -> i128 {
    86_400_000_000_000
}

pub open spec fn year_nanos() -> i128 {
    31_536_000_000_000_000
}

/// Whether `b` is a new pending transaction of `adus` from `sender`, with
/// id `id`, no hash or signatures, gas price 1, created at `created_at`
/// and due a day later.
pub open spec fn fresh_tx(b: Transaction, id: String, adus: Vec<AtomicDataUnit>, sender: String, gas_limit: u64, created_at: i128) -> bool {
    &&& b.hash@.len() == 0
    &&& b.id == id
    &&& b.adus == adus
    &&& b.sender == sender
    &&& b.gas_limit == gas_limit
    &&& b.gas_price == 1
    &&& b.created_at == created_at
    &&& b.deadline == created_at + day_nanos()
    &&& b.signatures@.len() == 0
    &&& b.status == TransactionStatus::Pending
}

/// The position of the first pooled transaction with this id.
pub open spec fn pool_index(pool: Seq<Transaction>, id: Seq<char>) -> Option<int>
    decreases pool.len(),
{
    if pool.len() == 0 {
        None
    } else if pool[0].id@ == id {
        Some(0)
    } else {
        match pool_index(pool.drop_first(), id) {
            Some(i) => Some(i + 1),
            None => None,
        }
    }
}

proof fn lemma_pool_index(pool: Seq<Transaction>, id: Seq<char>)
    ensures
        match pool_index(pool, id) {
            Some(i) => 0 <= i < pool.len() && pool[i].id@ == id
                && forall|j: int| 0 <= j < i ==> (#[trigger] pool[j]).id@ != id,
            None => forall|j: int| 0 <= j < pool.len() ==> (#[trigger] pool[j]).id@ != id,
        },
    decreases pool.len(),
{
    if pool.len() > 0 && pool[0].id@ != id {
        lemma_pool_index(pool.drop_first(), id);
        match pool_index(pool.drop_first(), id) {
            Some(i) => {
                assert forall|j: int| 0 <= j < i + 1 implies (#[trigger] pool[j]).id@ != id by {
                    if j > 0 {
                        assert(pool[j] == pool.drop_first()[j - 1]);
                    }
                }
            },
            None => {
                assert forall|j: int| 0 <= j < pool.len() implies (#[trigger] pool[j]).id@ != id by {
                    if j > 0 {
                        assert(pool[j] == pool.drop_first()[j - 1]);
                    }
                }
            },
        }
    }
}

/// The units' hashes decoded and joined, if every hash is hexadecimal.
pub open spec fn joined_hashes(adus: Seq<AtomicDataUnit>) -> Option<Seq<u8>>
    decreases adus.len(),
{
    if adus.len() == 0 {
        Some(Seq::empty())
    } else {
        match (joined_hashes(adus.drop_last()), hex_decoded(vstd::utf8::encode_utf8(adus.last().hash@))) {
            (Some(a), Some(b)) => Some(a + b),
            _ => None,
        }
    }
}

/// The Merkle root of a transaction's units: the digest of their hashes
/// decoded and joined.
pub open spec fn merkle_root_of(adus: Seq<AtomicDataUnit>) -> Option<Seq<char>> {
    match joined_hashes(adus) {
        Some(b) => Some(sha256_hex_text(b)),
        None => None,
    }
}

/// The ids of the units.
pub open spec fn adu_ids(adus: Seq<AtomicDataUnit>) -> Seq<String> {
    adus.map_values(|a: AtomicDataUnit| a.id)
}

/// Whether `a` anchors the units of `tx` as one batch, verified, created at
/// `now`, not expiring.
pub open spec fn batch_anchor(a: AccountabilityAnchor, id: String, tx: Transaction, now: i128) -> bool {
    &&& a.id == id
    &&& a.adu_ids@ == adu_ids(tx.adus@)
    &&& a.anchor_type == AnchorType::TransactionBatch
    &&& a.created_at == now
    &&& a.expires_at == None::<i128>
    &&& a.verified
}

/// Whether `p` is the proof of `tx`'s units with Merkle root `root`,
/// generated at `now`, valid for a year, without hash, paths or verifiers.
pub open spec fn fresh_proof(p: AtomicityProof, tx: Transaction, root: Seq<char>, now: i128) -> bool {
    &&& p.proof_hash@.len() == 0
    &&& p.adus@ == adu_ids(tx.adus@)
    &&& p.merkle_root@ == root
    &&& p.merkle_paths@.len() == 0
    &&& p.generated_at == now
    &&& p.valid_until == now + year_nanos()
    &&& p.verifiers@.len() == 0
}

/// Whether every proof serializer call is allowed.
pub open spec fn total_proof<G: Fn(&AtomicityProof) -> Result<Vec<u8>, String>>(ser: G) -> bool {
    forall|x: &AtomicityProof| #[trigger] ser.requires((x,))
}

/// Whether every transaction serializer call is allowed.
pub open spec fn total_tx<G: Fn(&Transaction) -> Result<Vec<u8>, String>>(ser: G) -> bool {
    forall|x: &Transaction| #[trigger] ser.requires((x,))
}

/// The gas used so far for transactions.
pub open spec fn tx_gas_used(usage: Map<Seq<char>, u64>) -> u64 {
    if usage.contains_key("transactions"@) {
        usage["transactions"@]
    } else {
        0
    }
}


// ---------------------------------------------------------------------------
// The executor.
// ---------------------------------------------------------------------------

fn op_kind_string(op: &OperationType) -> (s: String)
    ensures
        s@ == op_kind(*op),
{
    match op {
        OperationType::Transfer { .. } => String::from_str("transfer"),
        OperationType::StateUpdate { .. } => String::from_str("state_update"),
        OperationType::ContractExecution { .. } => String::from_str("contract_execution"),
        OperationType::GovernanceAction { .. } => String::from_str("governance_action"),
        OperationType::Custom { .. } => String::from_str("custom"),
    }
}

fn find_in_pool(pool: &Vec<Transaction>, id: &str) -> (r: Option<usize>)
    ensures
        match r {
            Some(i) => pool_index(pool@, id@) == Some(i as int) && i < pool@.len(),
            None => pool_index(pool@, id@) is None,
        },
{
    let mut i: usize = 0;
    assert(pool@.skip(0) =~= pool@);
    while i < pool.len()
        invariant
            i <= pool@.len(),
            pool_index(pool@, id@) == match pool_index(pool@.skip(i as int), id@) {
                Some(j) => Some(j + i),
                None => None::<int>,
            },
        decreases pool@.len() - i,
    {
        assert(pool@.skip(i as int).drop_first() =~= pool@.skip(i + 1));
        assert(pool@.skip(i as int)[0] == pool@[i as int]);
        if str_eq(pool[i].id.as_str(), id) {
            return Some(i);
        }
        i = i + 1;
    }
    None
}

fn ids_of(adus: &Vec<AtomicDataUnit>) -> (r: Vec<String>)
    ensures
        r@ == adu_ids(adus@),
{
    let mut r: Vec<String> = Vec::new();
    let mut i: usize = 0;
    while i < adus.len()
        invariant
            i <= adus@.len(),
            r@ == adu_ids(adus@.take(i as int)),
        decreases adus@.len() - i,
    {
        r.push(adus[i].id.clone());
        assert(adu_ids(adus@.take(i + 1)) =~= adu_ids(adus@.take(i as int)).push(adus@[i as int].id));
        i = i + 1;
    }
    assert(adus@.take(i as int) =~= adus@);
    r
}

/// Whether creating a unit can turn `before` into `after` with answer `r` (see `create_adu_at`).
pub open spec fn adu_created<F: Fn(&AtomicDataUnit) -> Result<Vec<u8>, String>>(
    before: AtomicExecutor,
    after: AtomicExecutor,
    operation: OperationType,
    content: Vec<u8>,
    id: String,
    created_at: i128,
    ser: F,
    r: Result<AtomicDataUnit, String>,
) -> bool {
    &&& after.anchors == before.anchors
    &&& after.transaction_pool == before.transaction_pool
    &&& after.completed_transactions == before.completed_transactions
    &&& after.proof_store == before.proof_store
    &&& after.gas_accounting == before.gas_accounting
    &&& exists|b: AtomicDataUnit, out: Result<Vec<u8>, String>| {
        &&& fresh_adu(b, id, operation, content, created_at)
        &&& #[trigger] ser.ensures((&b,), out)
        &&& match out {
            Err(e) => r == Err::<AtomicDataUnit, String>(e) && after.registry == before.registry,
            Ok(bytes) => r matches Ok(a) && a == (AtomicDataUnit { hash: a.hash, ..b })
                && a.hash@ == sha256_hex_text(bytes@)
                && after.registry@.contains_key(id@)
                && same_adu(after.registry@[id@], a)
                && after.registry@ == before.registry@.insert(id@, after.registry@[id@]),
        }
    }
}

/// Whether creating a transaction can turn `before` into `after` with answer `r` (see `create_transaction_at`).
pub open spec fn transaction_created<F: Fn(&AtomicDataUnit) -> Result<Vec<u8>, String>, G: Fn(&Transaction) -> Result<Vec<u8>, String>>(
    before: AtomicExecutor,
    after: AtomicExecutor,
    adus: Vec<AtomicDataUnit>,
    sender: String,
    gas_limit: u64,
    id: String,
    created_at: i128,
    ser_adu: F,
    ser_tx: G,
    r: Result<Transaction, String>,
) -> bool {
    &&& after.registry == before.registry
    &&& after.anchors == before.anchors
    &&& after.completed_transactions == before.completed_transactions
    &&& after.proof_store == before.proof_store
    &&& after.gas_accounting == before.gas_accounting
    &&& ({
        ||| exists|k: int, c: Result<bool, String>| {
            &&& #[trigger] first_failure(ser_adu, adus@, k, c)
            &&& match c {
                Err(e) => r == Err::<Transaction, String>(e),
                Ok(_) => r matches Err(e) && e@ == "Invalid ADU: "@ + adus@[k].id@,
            }
            &&& after.transaction_pool == before.transaction_pool
        }
        ||| {
            &&& checks_pass(ser_adu, adus@, adus@.len() as int)
            &&& gas_total(before.gas_accounting.gas_prices@, adus@) > gas_limit
            &&& r matches Err(e) && e@ == "Gas limit exceeded"@
            &&& after.transaction_pool == before.transaction_pool
        }
        ||| exists|b: Transaction, out: Result<Vec<u8>, String>| {
            &&& checks_pass(ser_adu, adus@, adus@.len() as int)
            &&& gas_total(before.gas_accounting.gas_prices@, adus@) <= gas_limit
            &&& fresh_tx(b, id, adus, sender, gas_limit, created_at)
            &&& #[trigger] ser_tx.ensures((&b,), out)
            &&& match out {
                Err(e) => r == Err::<Transaction, String>(e) && after.transaction_pool == before.transaction_pool,
                Ok(bytes) => r matches Ok(t) && t == (Transaction { hash: t.hash, ..b })
                    && t.hash@ == sha256_hex_text(bytes@)
                    && after.transaction_pool@.len() == before.transaction_pool@.len() + 1
                    && after.transaction_pool@.drop_last() == before.transaction_pool@
                    && same_tx(after.transaction_pool@.last(), t),
            }
        }
    })
}

/// Whether executing a pooled transaction can turn `before` into `after` with answer `r` (see `execute_transaction_at`).
pub open spec fn transaction_executed<F: Fn(&AtomicDataUnit) -> Result<Vec<u8>, String>, G: Fn(&AtomicityProof) -> Result<Vec<u8>, String>>(
    before: AtomicExecutor,
    after: AtomicExecutor,
    transaction_id: Seq<char>,
    anchor_id: String,
    now: i128,
    ser_adu: F,
    ser_proof: G,
    r: Result<bool, String>,
) -> bool {
    &&& after.registry == before.registry
    &&& match pool_index(before.transaction_pool@, transaction_id) {
        None => r matches Err(e) && e@ == "Transaction not found in pool"@ && after == before,
        Some(i) => {
            let tx = before.transaction_pool@[i];
            let g = gas_total(before.gas_accounting.gas_prices@, tx.adus@);
            &&& after.transaction_pool@ == before.transaction_pool@.remove(i)
            &&& if g > tx.gas_limit {
                &&& r matches Err(e) && e@ == "Gas limit exceeded"@
                &&& after.completed_transactions@ == before.completed_transactions@.insert(
                    tx.id@,
                    Transaction { status: TransactionStatus::Rejected, ..tx },
                )
                &&& after.anchors == before.anchors
                &&& after.proof_store == before.proof_store
                &&& after.gas_accounting == before.gas_accounting
            } else {
                ||| exists|k: int, c: Result<bool, String>| {
                    &&& #[trigger] first_failure(ser_adu, tx.adus@, k, c)
                    &&& match c {
                        Err(e) => r == Err::<bool, String>(e)
                            && after.completed_transactions == before.completed_transactions,
                        Ok(_) => r matches Err(e) && e@ == "Invalid ADU in transaction"@
                            && after.completed_transactions@ == before.completed_transactions@.insert(
                                tx.id@,
                                Transaction { status: TransactionStatus::Failed, ..tx },
                            ),
                    }
                    &&& after.anchors == before.anchors
                    &&& after.proof_store == before.proof_store
                    &&& after.gas_accounting == before.gas_accounting
                }
                ||| {
                    &&& checks_pass(ser_adu, tx.adus@, tx.adus@.len() as int)
                    &&& after.anchors@.contains_key(anchor_id@)
                    &&& batch_anchor(after.anchors@[anchor_id@], anchor_id, tx, now)
                    &&& after.anchors@ == before.anchors@.insert(anchor_id@, after.anchors@[anchor_id@])
                    &&& match merkle_root_of(tx.adus@) {
                        None => {
                            &&& r matches Err(e) && e@ == "Invalid hash format"@
                            &&& after.completed_transactions == before.completed_transactions
                            &&& after.proof_store == before.proof_store
                            &&& after.gas_accounting == before.gas_accounting
                        },
                        Some(root) => exists|p: AtomicityProof, out: Result<Vec<u8>, String>| {
                            &&& fresh_proof(p, tx, root, now)
                            &&& #[trigger] ser_proof.ensures((&p,), out)
                            &&& match out {
                                Err(e) => {
                                    &&& r == Err::<bool, String>(e)
                                    &&& after.completed_transactions == before.completed_transactions
                                    &&& after.proof_store == before.proof_store
                                    &&& after.gas_accounting == before.gas_accounting
                                },
                                Ok(bytes) => {
                                    &&& r == Ok::<bool, String>(true)
                                    &&& after.proof_store@.contains_key(sha256_hex_text(bytes@))
                                    &&& after.proof_store@ == before.proof_store@.insert(
                                        sha256_hex_text(bytes@),
                                        AtomicityProof { proof_hash: after.proof_store@[sha256_hex_text(bytes@)].proof_hash, ..p },
                                    )
                                    &&& after.proof_store@[sha256_hex_text(bytes@)].proof_hash@ == sha256_hex_text(bytes@)
                                    &&& after.gas_accounting.total_consumed == before.gas_accounting.total_consumed + g
                                    &&& after.gas_accounting.gas_usage@ == before.gas_accounting.gas_usage@.insert(
                                        "transactions"@,
                                        (tx_gas_used(before.gas_accounting.gas_usage@) + g) as u64,
                                    )
                                    &&& after.gas_accounting.gas_prices == before.gas_accounting.gas_prices
                                    &&& after.gas_accounting.gas_limits == before.gas_accounting.gas_limits
                                    &&& after.completed_transactions@ == before.completed_transactions@.insert(
                                        tx.id@,
                                        Transaction { status: TransactionStatus::Success, ..tx },
                                    )
                                },
                            }
                        },
                    }
                }
            }
        },
    }
}

impl AtomicExecutor {
    /// An executor with nothing registered or pooled, no gas consumed, gas
    /// prices of 100 for a transfer, 200 for a state update, 500 for a
    /// contract execution and 300 for a governance action, and gas limits of
    /// 10^6 per transaction and 10^7 per block.
    pub fn new() -> (e: Self)
        ensures
            e.registry@ == Map::<Seq<char>, AtomicDataUnit>::empty(),
            e.anchors@ == Map::<Seq<char>, AccountabilityAnchor>::empty(),
            e.transaction_pool@.len() == 0,
            e.completed_transactions@ == Map::<Seq<char>, Transaction>::empty(),
            e.proof_store@ == Map::<Seq<char>, AtomicityProof>::empty(),
            e.gas_accounting.gas_usage@ == Map::<Seq<char>, u64>::empty(),
            e.gas_accounting.gas_prices@ == map![
                "transfer"@ => 100u64,
                "state_update"@ => 200u64,
                "contract_execution"@ => 500u64,
                "governance_action"@ => 300u64,
            ],
            e.gas_accounting.gas_limits@ == map!["transaction"@ => 1_000_000u64, "block"@ => 10_000_000u64],
            e.gas_accounting.total_consumed == 0,
    {
        let mut gas_prices: StringMap<u64> = StringMap::new();
        gas_prices.insert(String::from_str("transfer"), 100);
        gas_prices.insert(String::from_str("state_update"), 200);
        gas_prices.insert(String::from_str("contract_execution"), 500);
        gas_prices.insert(String::from_str("governance_action"), 300);
        let mut gas_limits: StringMap<u64> = StringMap::new();
        gas_limits.insert(String::from_str("transaction"), 1_000_000);
        gas_limits.insert(String::from_str("block"), 10_000_000);
        let e = AtomicExecutor {
            registry: StringMap::new(),
            anchors: StringMap::new(),
            transaction_pool: Vec::new(),
            completed_transactions: StringMap::new(),
            proof_store: StringMap::new(),
            gas_accounting: GasAccounting { gas_usage: StringMap::new(), gas_prices, gas_limits, total_consumed: 0 },
        };
        assert(e.gas_accounting.gas_prices@ =~= map![
            "transfer"@ => 100u64,
            "state_update"@ => 200u64,
            "contract_execution"@ => 500u64,
            "governance_action"@ => 300u64,
        ]);
        assert(e.gas_accounting.gas_limits@ =~= map!["transaction"@ => 1_000_000u64, "block"@ => 10_000_000u64]);
        e
    }

    /// The gas the units need together (see `gas_total`).
    pub fn gas_required(&self, adus: &Vec<AtomicDataUnit>) -> (g: u64)
        requires
            gas_total(self.gas_accounting.gas_prices@, adus@) <= u64::MAX,
        ensures
            g == gas_total(self.gas_accounting.gas_prices@, adus@),
    {
        let ghost prices = self.gas_accounting.gas_prices@;
        let mut total: u64 = 0;
        let mut i: usize = 0;
        while i < adus.len()
            invariant
                i <= adus@.len(),
                prices == self.gas_accounting.gas_prices@,
                gas_total(prices, adus@) <= u64::MAX,
                total == gas_total(prices, adus@.take(i as int)),
            decreases adus@.len() - i,
        {
            assert(adus@.take(i + 1).drop_last() =~= adus@.take(i as int));
            proof {
                lemma_gas_total_prefix(prices, adus@, i + 1);
            }
            let kind = op_kind_string(&adus[i].operation_type);
            let price: u64 = match self.gas_accounting.gas_prices.get(kind.as_str()) {
                Some(p) => *p,
                None => 100,
            };
            total = total + price;
            i = i + 1;
        }
        assert(adus@.take(i as int) =~= adus@);
        total
    }

    /// Checks unit `adu` (see `check_outcome`): it is serialized with an
    /// empty hash by `ser`, and passes when its hash is the digest of those
    /// bytes and it carries a signature.
    pub fn verify_adu<F: Fn(&AtomicDataUnit) -> Result<Vec<u8>, String>>(&self, adu: &AtomicDataUnit, ser: &F) -> (r: Result<bool, String>)
        requires
            total_adu(*ser),
        ensures
            adu_checked(*ser, *adu, r),
    {
        let mut copy = adu.clone();
        copy.hash = String::new();
        let out = ser(&copy);
        let bytes = match out {
            Ok(b) => b,
            Err(e) => {
                assert(check_outcome(*adu, Err(e)) == Err::<bool, String>(e));
                return Err(e);
            },
        };
        let expected = sha256_hex(bytes.as_slice());
        if !str_eq(adu.hash.as_str(), expected.as_str()) {
            return Ok(false);
        }
        if adu.signatures.len() == 0 {
            return Ok(false);
        }
        Ok(true)
    }

    /// Creates a unit with id `id` at time `created_at` and registers it
    /// under its id: it is serialized with an empty hash by `ser` (whose
    /// error is passed on, with nothing registered), and its hash is the
    /// digest of those bytes. The answer is the unit.
    pub fn create_adu_at<F: Fn(&AtomicDataUnit) -> Result<Vec<u8>, String>>(
        &mut self,
        operation: OperationType,
        content: Vec<u8>,
        id: String,
        created_at: i128,
        ser: &F,
    ) -> (r: Result<AtomicDataUnit, String>)
        requires
            total_adu(*ser),
        ensures
            adu_created(*old(self), *final(self), operation, content, id, created_at, *ser, r),
    {
        let mut adu = AtomicDataUnit {
            id,
            hash: String::new(),
            operation_type: operation,
            content,
            created_at,
            signatures: Vec::new(),
            prev_refs: Vec::new(),
            metadata: StringMap::new(),
        };
        let ghost b = adu;
        let out = ser(&adu);
        let bytes = match out {
            Ok(bytes) => bytes,
            Err(e) => {
                return Err(e);
            },
        };
        adu.hash = sha256_hex(bytes.as_slice());
        let key = adu.id.clone();
        let copy = adu.clone();
        self.registry.insert(key, copy);
        Ok(adu)
    }

    /// Creates and registers a unit with a fresh random id, dated now (see
    /// `create_adu_at`).
    pub fn create_adu<F: Fn(&AtomicDataUnit) -> Result<Vec<u8>, String>>(
        &mut self,
        operation: OperationType,
        content: Vec<u8>,
        ser: &F,
    ) -> (r: Result<AtomicDataUnit, String>)
        requires
            total_adu(*ser),
        ensures
            final(self).transaction_pool == old(self).transaction_pool,
            final(self).completed_transactions == old(self).completed_transactions,
            r matches Ok(a) ==> a.id@.len() == 36 && final(self).registry@.contains_key(a.id@),
            r is Err ==> final(self).registry == old(self).registry,
            exists|id: String, t: i128| id@.len() == 36 && #[trigger] adu_created(*old(self), *final(self), operation, content, id, t, *ser, r),
    {
        let id = new_uuid();
        let now = now_nanos();
        let ghost gid = id;
        let r = self.create_adu_at(operation, content, id, now, ser);
        assert(adu_created(*old(self), *self, operation, content, gid, now, *ser, r));
        r
    }

    /// Creates a transaction of `adus` from `sender` with id `id` at time
    /// `created_at`, and pools it. Every unit is checked first, in order
    /// (see `verify_adu`): a check's error is passed on, and a unit that
    /// fails is refused as "Invalid ADU: " and its id; then the units' gas
    /// must fit `gas_limit`, else "Gas limit exceeded". The transaction is
    /// pending, due a day later, and its hash is the digest of its
    /// serialization by `ser_tx` with an empty hash (whose error is passed
    /// on). Nothing changes unless it is pooled.
    pub fn create_transaction_at<F: Fn(&AtomicDataUnit) -> Result<Vec<u8>, String>, G: Fn(&Transaction) -> Result<Vec<u8>, String>>(
        &mut self,
        adus: Vec<AtomicDataUnit>,
        sender: String,
        gas_limit: u64,
        id: String,
        created_at: i128,
        ser_adu: &F,
        ser_tx: &G,
    ) -> (r: Result<Transaction, String>)
        requires
            total_adu(*ser_adu),
            total_tx(*ser_tx),
            gas_total(old(self).gas_accounting.gas_prices@, adus@) <= u64::MAX,
            created_at <= i128::MAX - day_nanos(),
        ensures
            transaction_created(*old(self), *final(self), adus, sender, gas_limit, id, created_at, *ser_adu, *ser_tx, r),
    {
        let mut i: usize = 0;
        while i < adus.len()
            invariant
                i <= adus@.len(),
                total_adu(*ser_adu),
                checks_pass(*ser_adu, adus@, i as int),
            decreases adus@.len() - i,
        {
            let checked = self.verify_adu(&adus[i], ser_adu);
            match checked {
                Ok(true) => {},
                Ok(false) => {
                    let mut message = String::from_str("Invalid ADU: ");
                    crate::text::push_str(&mut message, adus[i].id.as_str());
                    assert(first_failure(*ser_adu, adus@, i as int, Ok(false)));
                    return Err(message);
                },
                Err(e) => {
                    assert(first_failure(*ser_adu, adus@, i as int, Err(e)));
                    return Err(e);
                },
            }
            i = i + 1;
        }
        let total = self.gas_required(&adus);
        if total > gas_limit {
            return Err(String::from_str("Gas limit exceeded"));
        }
        let mut transaction = Transaction {
            id,
            hash: String::new(),
            adus,
            sender,
            gas_limit,
            gas_price: 1,
            created_at,
            deadline: created_at + 86_400_000_000_000,
            signatures: Vec::new(),
            status: TransactionStatus::Pending,
        };
        let ghost b = transaction;
        let out = ser_tx(&transaction);
        let bytes = match out {
            Ok(bytes) => bytes,
            Err(e) => {
                return Err(e);
            },
        };
        transaction.hash = sha256_hex(bytes.as_slice());
        let copy = transaction.clone();
        self.transaction_pool.push(copy);
        assert(self.transaction_pool@.drop_last() =~= old(self).transaction_pool@);
        Ok(transaction)
    }

    /// Creates and pools a transaction with a fresh random id, dated now (see
    /// `create_transaction_at`).
    pub fn create_transaction<F: Fn(&AtomicDataUnit) -> Result<Vec<u8>, String>, G: Fn(&Transaction) -> Result<Vec<u8>, String>>(
        &mut self,
        adus: Vec<AtomicDataUnit>,
        sender: String,
        gas_limit: u64,
        ser_adu: &F,
        ser_tx: &G,
    ) -> (r: Result<Transaction, String>)
        requires
            total_adu(*ser_adu),
            total_tx(*ser_tx),
            gas_total(old(self).gas_accounting.gas_prices@, adus@) <= u64::MAX,
        ensures
            final(self).registry == old(self).registry,
            final(self).completed_transactions == old(self).completed_transactions,
            r is Err ==> final(self).transaction_pool == old(self).transaction_pool,
            r matches Ok(t) ==> t.id@.len() == 36 && t.status == TransactionStatus::Pending
                && final(self).transaction_pool@.len() == old(self).transaction_pool@.len() + 1,
            exists|id: String, t: i128| id@.len() == 36 && 0 <= t <= i128::MAX - day_nanos()
                && #[trigger] transaction_created(*old(self), *final(self), adus, sender, gas_limit, id, t, *ser_adu, *ser_tx, r),
    {
        let id = new_uuid();
        let now = now_nanos();
        let ghost tid = id;
        let r = self.create_transaction_at(adus, sender, gas_limit, id, now, ser_adu, ser_tx);
        proof {
            if r is Ok {
                let t = r->Ok_0;
                assert(t.id == tid);
            }
        }
        assert(transaction_created(*old(self), *self, adus, sender, gas_limit, tid, now, *ser_adu, *ser_tx, r));
        r
    }

    /// The first pooled transaction with id `transaction_id`, or else the
    /// completed one, if any.
    pub fn get_transaction_status(&self, transaction_id: &str) -> (r: Option<&Transaction>)
        ensures
            match pool_index(self.transaction_pool@, transaction_id@) {
                Some(i) => r == Some(&self.transaction_pool@[i]),
                None => match r {
                    Some(t) => self.completed_transactions@.contains_key(transaction_id@)
                        && *t == self.completed_transactions@[transaction_id@],
                    None => !self.completed_transactions@.contains_key(transaction_id@),
                },
            },
    {
        match find_in_pool(&self.transaction_pool, transaction_id) {
            Some(i) => Some(&self.transaction_pool[i]),
            None => self.completed_transactions.get(transaction_id),
        }
    }

    /// The anchor `anchor_id`, if any.
    pub fn get_anchor(&self, anchor_id: &str) -> (r: Option<&AccountabilityAnchor>)
        ensures
            match r {
                Some(a) => self.anchors@.contains_key(anchor_id@) && *a == self.anchors@[anchor_id@],
                None => !self.anchors@.contains_key(anchor_id@),
            },
    {
        self.anchors.get(anchor_id)
    }
}


/// The units' hashes decoded and joined (see `joined_hashes`).
fn join_hashes(adus: &Vec<AtomicDataUnit>) -> (r: Option<Vec<u8>>)
    ensures
        match r {
            Some(b) => joined_hashes(adus@) == Some(b@),
            None => joined_hashes(adus@) is None,
        },
{
    let mut out: Vec<u8> = Vec::new();
    let mut i: usize = 0;
    while i < adus.len()
        invariant
            i <= adus@.len(),
            joined_hashes(adus@.take(i as int)) == Some(out@),
        decreases adus@.len() - i,
    {
        assert(adus@.take(i + 1).drop_last() =~= adus@.take(i as int));
        match hex_decode(adus[i].hash.as_str()) {
            Some(mut bytes) => {
                let ghost before = out@;
                out.append(&mut bytes);
                assert(joined_hashes(adus@.take(i + 1)) == Some(out@));
            },
            None => {
                proof {
                    lemma_joined_none(adus@, i as int + 1);
                }
                return None;
            },
        }
        i = i + 1;
    }
    assert(adus@.take(i as int) =~= adus@);
    Some(out)
}

proof fn lemma_joined_none(adus: Seq<AtomicDataUnit>, i: int)
    requires
        0 <= i <= adus.len(),
        joined_hashes(adus.take(i)) is None,
    ensures
        joined_hashes(adus) is None,
    decreases adus.len() - i,
{
    if i < adus.len() {
        assert(adus.take(i + 1).drop_last() =~= adus.take(i));
        lemma_joined_none(adus, i + 1);
    } else {
        assert(adus.take(i) =~= adus);
    }
}

impl AtomicExecutor {
    /// Checks `adus` in order (see `verify_adu`) and stops at the first that
    /// does not pass, answering with its check's outcome.
    fn check_units<F: Fn(&AtomicDataUnit) -> Result<Vec<u8>, String>>(&self, adus: &Vec<AtomicDataUnit>, ser: &F) -> (r: Result<(), Result<bool, String>>)
        requires
            total_adu(*ser),
        ensures
            r is Ok ==> checks_pass(*ser, adus@, adus@.len() as int),
            r matches Err(c) ==> exists|k: int| #[trigger] first_failure(*ser, adus@, k, c),
    {
        let mut k: usize = 0;
        while k < adus.len()
            invariant
                k <= adus@.len(),
                total_adu(*ser),
                checks_pass(*ser, adus@, k as int),
            decreases adus@.len() - k,
        {
            let checked = self.verify_adu(&adus[k], ser);
            match checked {
                Ok(true) => {},
                _ => {
                    assert(first_failure(*ser, adus@, k as int, checked));
                    return Err(checked);
                },
            }
            k = k + 1;
        }
        Ok(())
    }

    /// The last steps of executing `transaction`, whose units passed their
    /// checks and which needs `total` gas: its units are anchored under
    /// `anchor_id`, its proof is built and stored, the gas accounted and the
    /// transaction completed as a success (see `execute_transaction_at`).
    fn seal_transaction<G: Fn(&AtomicityProof) -> Result<Vec<u8>, String>>(
        &mut self,
        transaction: Transaction,
        total: u64,
        anchor_id: String,
        now: i128,
        ser_proof: &G,
    ) -> (r: Result<bool, String>)
        requires
            total_proof(*ser_proof),
            now <= i128::MAX - year_nanos(),
            old(self).gas_accounting.total_consumed + total <= u64::MAX,
            tx_gas_used(old(self).gas_accounting.gas_usage@) + total <= u64::MAX,
        ensures
            final(self).registry == old(self).registry,
            final(self).transaction_pool == old(self).transaction_pool,
            final(self).anchors@.contains_key(anchor_id@),
            batch_anchor(final(self).anchors@[anchor_id@], anchor_id, transaction, now),
            final(self).anchors@ == old(self).anchors@.insert(anchor_id@, final(self).anchors@[anchor_id@]),
            match merkle_root_of(transaction.adus@) {
                None => {
                    &&& r matches Err(e) && e@ == "Invalid hash format"@
                    &&& final(self).completed_transactions == old(self).completed_transactions
                    &&& final(self).proof_store == old(self).proof_store
                    &&& final(self).gas_accounting == old(self).gas_accounting
                },
                Some(root) => exists|p: AtomicityProof, out: Result<Vec<u8>, String>| {
                    &&& fresh_proof(p, transaction, root, now)
                    &&& #[trigger] ser_proof.ensures((&p,), out)
                    &&& match out {
                        Err(e) => {
                            &&& r == Err::<bool, String>(e)
                            &&& final(self).completed_transactions == old(self).completed_transactions
                            &&& final(self).proof_store == old(self).proof_store
                            &&& final(self).gas_accounting == old(self).gas_accounting
                        },
                        Ok(bytes) => {
                            &&& r == Ok::<bool, String>(true)
                            &&& final(self).proof_store@.contains_key(sha256_hex_text(bytes@))
                            &&& final(self).proof_store@ == old(self).proof_store@.insert(
                                sha256_hex_text(bytes@),
                                AtomicityProof { proof_hash: final(self).proof_store@[sha256_hex_text(bytes@)].proof_hash, ..p },
                            )
                            &&& final(self).proof_store@[sha256_hex_text(bytes@)].proof_hash@ == sha256_hex_text(bytes@)
                            &&& final(self).gas_accounting.total_consumed == old(self).gas_accounting.total_consumed + total
                            &&& final(self).gas_accounting.gas_usage@ == old(self).gas_accounting.gas_usage@.insert(
                                "transactions"@,
                                (tx_gas_used(old(self).gas_accounting.gas_usage@) + total) as u64,
                            )
                            &&& final(self).gas_accounting.gas_prices == old(self).gas_accounting.gas_prices
                            &&& final(self).gas_accounting.gas_limits == old(self).gas_accounting.gas_limits
                            &&& final(self).completed_transactions@ == old(self).completed_transactions@.insert(
                                transaction.id@,
                                Transaction { status: TransactionStatus::Success, ..transaction },
                            )
                        },
                    }
                },
            },
    {
        let mut transaction = transaction;
        let ghost tx = transaction;
        let anchor = AccountabilityAnchor {
            id: anchor_id.clone(),
            adu_ids: ids_of(&transaction.adus),
            anchor_type: AnchorType::TransactionBatch,
            created_at: now,
            expires_at: None,
            verified: true,
        };
        self.anchors.insert(anchor_id, anchor);
        let joined = match join_hashes(&transaction.adus) {
            Some(b) => b,
            None => {
                return Err(String::from_str("Invalid hash format"));
            },
        };
        let merkle_root = sha256_hex(joined.as_slice());
        let mut proof = AtomicityProof {
            proof_hash: String::new(),
            adus: ids_of(&transaction.adus),
            merkle_root,
            merkle_paths: Vec::new(),
            generated_at: now,
            valid_until: now + 31_536_000_000_000_000,
            verifiers: Vec::new(),
        };
        let ghost p = proof;
        let out = ser_proof(&proof);
        let bytes = match out {
            Ok(bytes) => bytes,
            Err(e) => {
                return Err(e);
            },
        };
        proof.proof_hash = sha256_hex(bytes.as_slice());
        let proof_key = proof.proof_hash.clone();
        self.proof_store.insert(proof_key, proof);
        self.gas_accounting.total_consumed = self.gas_accounting.total_consumed + total;
        let used: u64 = match self.gas_accounting.gas_usage.get("transactions") {
            Some(u) => *u,
            None => 0,
        };
        self.gas_accounting.gas_usage.insert(String::from_str("transactions"), used + total);
        transaction.status = TransactionStatus::Success;
        let key = transaction.id.clone();
        self.completed_transactions.insert(key, transaction);
        Ok(true)
    }

    /// Whether the pooled transaction `transaction_id`'s gas can be accounted
    /// within 64 bits.
    pub open spec fn gas_fits(&self, transaction_id: Seq<char>) -> bool {
        match pool_index(self.transaction_pool@, transaction_id) {
            Some(i) => {
                let g = gas_total(self.gas_accounting.gas_prices@, self.transaction_pool@[i].adus@);
                &&& g <= u64::MAX
                &&& self.gas_accounting.total_consumed + g <= u64::MAX
                &&& tx_gas_used(self.gas_accounting.gas_usage@) + g <= u64::MAX
            },
            None => true,
        }
    }

    /// Executes the pooled transaction `transaction_id` at time `now`,
    /// anchoring it under `anchor_id`. It leaves the pool (an unknown id is
    /// refused as "Transaction not found in pool"). A transaction over its
    /// gas limit is completed as rejected ("Gas limit exceeded"). Its units
    /// are checked in order (see `verify_adu`): a check's error is passed on
    /// and the transaction dropped; a unit that fails completes it as failed
    /// ("Invalid ADU in transaction"). Then its units are anchored as a
    /// batch; its Merkle root is computed ("Invalid hash format" when a hash
    /// is not hexadecimal); the proof is serialized by `ser_proof` (whose
    /// error is passed on) and stored under the digest of those bytes; the
    /// gas is accounted, in total and under "transactions"; and the
    /// transaction completes as a success.
    pub fn execute_transaction_at<F: Fn(&AtomicDataUnit) -> Result<Vec<u8>, String>, G: Fn(&AtomicityProof) -> Result<Vec<u8>, String>>(
        &mut self,
        transaction_id: &str,
        anchor_id: String,
        now: i128,
        ser_adu: &F,
        ser_proof: &G,
    ) -> (r: Result<bool, String>)
        requires
            total_adu(*ser_adu),
            total_proof(*ser_proof),
            old(self).gas_fits(transaction_id@),
            now <= i128::MAX - year_nanos(),
        ensures
            transaction_executed(*old(self), *final(self), transaction_id@, anchor_id, now, *ser_adu, *ser_proof, r),
    {
        proof {
            lemma_pool_index(self.transaction_pool@, transaction_id@);
        }
        let i = match find_in_pool(&self.transaction_pool, transaction_id) {
            Some(i) => i,
            None => {
                return Err(String::from_str("Transaction not found in pool"));
            },
        };
        let mut transaction = self.transaction_pool.remove(i);
        let ghost tx = transaction;
        let total = self.gas_required(&transaction.adus);
        if total > transaction.gas_limit {
            transaction.status = TransactionStatus::Rejected;
            let key = transaction.id.clone();
            self.completed_transactions.insert(key, transaction);
            return Err(String::from_str("Gas limit exceeded"));
        }
        match self.check_units(&transaction.adus, ser_adu) {
            Ok(()) => {},
            Err(Ok(_)) => {
                transaction.status = TransactionStatus::Failed;
                let key = transaction.id.clone();
                self.completed_transactions.insert(key, transaction);
                return Err(String::from_str("Invalid ADU in transaction"));
            },
            Err(Err(e)) => {
                return Err(e);
            },
        }
        self.seal_transaction(transaction, total, anchor_id, now, ser_proof)
    }

    /// Executes the pooled transaction `transaction_id` now, under a fresh
    /// random anchor id (see `execute_transaction_at`).
    pub fn execute_transaction<F: Fn(&AtomicDataUnit) -> Result<Vec<u8>, String>, G: Fn(&AtomicityProof) -> Result<Vec<u8>, String>>(
        &mut self,
        transaction_id: &str,
        ser_adu: &F,
        ser_proof: &G,
    ) -> (r: Result<bool, String>)
        requires
            total_adu(*ser_adu),
            total_proof(*ser_proof),
            old(self).gas_fits(transaction_id@),
        ensures
            final(self).registry == old(self).registry,
            pool_index(old(self).transaction_pool@, transaction_id@) is None ==> r is Err && *final(self) == *old(self),
            r == Ok::<bool, String>(true) ==> ({
                let i = pool_index(old(self).transaction_pool@, transaction_id@)->Some_0;
                let tx = old(self).transaction_pool@[i];
                &&& pool_index(old(self).transaction_pool@, transaction_id@) is Some
                &&& final(self).transaction_pool@ == old(self).transaction_pool@.remove(i)
                &&& final(self).completed_transactions@ == old(self).completed_transactions@.insert(
                    tx.id@,
                    Transaction { status: TransactionStatus::Success, ..tx },
                )
            }),
            exists|anchor_id: String, t: i128| anchor_id@.len() == 36 && 0 <= t <= i128::MAX - year_nanos()
                && #[trigger] transaction_executed(*old(self), *final(self), transaction_id@, anchor_id, t, *ser_adu, *ser_proof, r),
    {
        let now = now_nanos();
        let anchor_id = new_uuid();
        let ghost aid = anchor_id;
        let r = self.execute_transaction_at(transaction_id, anchor_id, now, ser_adu, ser_proof);
        assert(transaction_executed(*old(self), *self, transaction_id@, aid, now, *ser_adu, *ser_proof, r));
        r
    }
}


/// The hashes of the registered units among `ids`, decoded and joined; a
/// hash that is not hexadecimal adds nothing, an unregistered id is
/// skipped.
pub open spec fn registered_hash_bytes(reg: Map<Seq<char>, AtomicDataUnit>, ids: Seq<String>) -> Seq<u8>
    decreases ids.len(),
{
    if ids.len() == 0 {
        Seq::empty()
    } else {
        let rest = registered_hash_bytes(reg, ids.drop_last());
        let id = ids.last()@;
        if reg.contains_key(id) {
            rest + match hex_decoded(vstd::utf8::encode_utf8(reg[id].hash@)) {
                Some(b) => b,
                None => Seq::empty(),
            }
        } else {
            rest
        }
    }
}

/// Whether the first `k` ids of a proof name registered units that pass
/// their checks.
pub open spec fn proof_units_pass<F: Fn(&AtomicDataUnit) -> Result<Vec<u8>, String>>(ser: F, reg: Map<Seq<char>, AtomicDataUnit>, ids: Seq<String>, k: int) -> bool {
    forall|j: int| 0 <= j < k ==> reg.contains_key(#[trigger] ids[j]@) && adu_checked(ser, reg[ids[j]@], Ok(true))
}

impl AtomicExecutor {
    /// Whether `proof` holds: every unit it names is registered and passes
    /// its check (see `verify_adu`; an error counts as failing), and its
    /// Merkle root is the digest of the registered units' hashes decoded and
    /// joined (see `registered_hash_bytes`).
    pub fn verify_atomicity_proof<F: Fn(&AtomicDataUnit) -> Result<Vec<u8>, String>>(&self, proof: &AtomicityProof, ser: &F) -> (r: bool)
        requires
            total_adu(*ser),
        ensures
            r ==> proof_units_pass(*ser, self.registry@, proof.adus@, proof.adus@.len() as int)
                && sha256_hex_text(registered_hash_bytes(self.registry@, proof.adus@)) == proof.merkle_root@,
            !r ==> {
                ||| exists|k: int| {
                    &&& 0 <= k < proof.adus@.len()
                    &&& #[trigger] proof_units_pass(*ser, self.registry@, proof.adus@, k)
                    &&& (!self.registry@.contains_key(proof.adus@[k]@) || exists|c: Result<bool, String>|
                        c != Ok::<bool, String>(true) && #[trigger] adu_checked(*ser, self.registry@[proof.adus@[k]@], c))
                }
                ||| {
                    &&& proof_units_pass(*ser, self.registry@, proof.adus@, proof.adus@.len() as int)
                    &&& sha256_hex_text(registered_hash_bytes(self.registry@, proof.adus@)) != proof.merkle_root@
                }
            },
    {
        let mut k: usize = 0;
        while k < proof.adus.len()
            invariant
                k <= proof.adus@.len(),
                total_adu(*ser),
                proof_units_pass(*ser, self.registry@, proof.adus@, k as int),
            decreases proof.adus@.len() - k,
        {
            match self.registry.get(proof.adus[k].as_str()) {
                Some(adu) => {
                    let checked = self.verify_adu(adu, ser);
                    match checked {
                        Ok(true) => {},
                        _ => {
                            assert(proof_units_pass(*ser, self.registry@, proof.adus@, k as int));
                            return false;
                        },
                    }
                },
                None => {
                    assert(proof_units_pass(*ser, self.registry@, proof.adus@, k as int));
                    return false;
                },
            }
            k = k + 1;
        }
        let mut joined: Vec<u8> = Vec::new();
        let mut i: usize = 0;
        while i < proof.adus.len()
            invariant
                i <= proof.adus@.len(),
                joined@ == registered_hash_bytes(self.registry@, proof.adus@.take(i as int)),
            decreases proof.adus@.len() - i,
        {
            assert(proof.adus@.take(i + 1).drop_last() =~= proof.adus@.take(i as int));
            match self.registry.get(proof.adus[i].as_str()) {
                Some(adu) => {
                    let mut bytes = match hex_decode(adu.hash.as_str()) {
                        Some(b) => b,
                        None => Vec::new(),
                    };
                    joined.append(&mut bytes);
                },
                None => {},
            }
            i = i + 1;
        }
        assert(proof.adus@.take(i as int) =~= proof.adus@);
        let computed_root = sha256_hex(joined.as_slice());
        str_eq(computed_root.as_str(), proof.merkle_root.as_str())
    }
}

impl Default for AtomicExecutor {
    fn default() -> (e: Self)
        ensures
            e.registry@ == Map::<Seq<char>, AtomicDataUnit>::empty(),
            e.transaction_pool@.len() == 0,
            e.gas_accounting.total_consumed == 0,
    {
        Self::new()
    }
}

} // verus!
