use civitasos::atomic::{
    AtomicDataUnit, AtomicExecutor, AtomicityProof, OperationType, Signature, Transaction, TransactionStatus,
};

fn ser_adu(a: &AtomicDataUnit) -> Result<Vec<u8>, String> {
    let mut out = a.id.clone().into_bytes();
    out.push(b'|');
    out.extend_from_slice(&a.content);
    out.push(b'|');
    out.extend_from_slice(a.hash.as_bytes());
    Ok(out)
}

fn ser_tx(t: &Transaction) -> Result<Vec<u8>, String> {
    Ok(format!("{}|{}|{}|{}", t.id, t.sender, t.gas_limit, t.hash).into_bytes())
}

fn ser_proof(p: &AtomicityProof) -> Result<Vec<u8>, String> {
    Ok(format!("{}|{}|{}", p.adus.join(","), p.merkle_root, p.proof_hash).into_bytes())
}

fn failing_ser(_a: &AtomicDataUnit) -> Result<Vec<u8>, String> {
    Err("cannot serialize".to_string())
}

fn transfer(amount: u64) -> OperationType {
    OperationType::Transfer { from: "alice".to_string(), to: "bob".to_string(), amount }
}

fn signed(mut adu: AtomicDataUnit) -> AtomicDataUnit {
    adu.signatures.push(Signature {
        public_key: "pk_alice".to_string(),
        signature: "sig".to_string(),
        signed_at: 5,
    });
    adu
}

fn is_lower_hex(s: &str) -> bool {
    s.chars().all(|c| c.is_ascii_digit() || ('a'..='f').contains(&c))
}

#[test]
fn atomic_executor_defaults() {
    let ex = AtomicExecutor::new();
    assert_eq!(ex.registry.len(), 0);
    assert_eq!(ex.transaction_pool.len(), 0);
    assert_eq!(ex.gas_accounting.gas_prices.get("transfer"), Some(&100));
    assert_eq!(ex.gas_accounting.gas_prices.get("state_update"), Some(&200));
    assert_eq!(ex.gas_accounting.gas_prices.get("contract_execution"), Some(&500));
    assert_eq!(ex.gas_accounting.gas_prices.get("governance_action"), Some(&300));
    assert_eq!(ex.gas_accounting.gas_limits.get("transaction"), Some(&1_000_000));
    assert_eq!(ex.gas_accounting.gas_limits.get("block"), Some(&10_000_000));
    let d = AtomicExecutor::default();
    assert_eq!(d.gas_accounting.total_consumed, 0);
}

#[test]
fn atomic_create_adu_hashes_its_serialization() {
    let mut ex = AtomicExecutor::new();
    let adu = ex
        .create_adu_at(transfer(10), vec![1, 2, 3], "adu1".to_string(), 1_000, &ser_adu)
        .expect("created");
    assert_eq!(adu.id, "adu1");
    assert_eq!(adu.hash.len(), 64);
    assert!(is_lower_hex(&adu.hash));
    assert!(ex.registry.contains_key("adu1"));
    // The same unit created again hashes the same.
    let mut other = AtomicExecutor::new();
    let again = other
        .create_adu_at(transfer(10), vec![1, 2, 3], "adu1".to_string(), 1_000, &ser_adu)
        .unwrap();
    assert_eq!(adu.hash, again.hash);
    // A unit without signatures fails its check; with one it passes.
    assert_eq!(ex.verify_adu(&adu, &ser_adu), Ok(false));
    let adu = signed(adu);
    assert_eq!(ex.verify_adu(&adu, &ser_adu), Ok(true));
    // A tampered hash fails.
    let mut bad = adu.clone();
    bad.hash = "00".repeat(32);
    assert_eq!(ex.verify_adu(&bad, &ser_adu), Ok(false));
}

#[test]
fn atomic_serializer_errors_are_passed_on() {
    let mut ex = AtomicExecutor::new();
    let r = ex.create_adu_at(transfer(1), vec![], "x".to_string(), 0, &failing_ser);
    assert_eq!(r.err(), Some("cannot serialize".to_string()));
    assert_eq!(ex.registry.len(), 0);
}

#[test]
fn atomic_transaction_round_trip() {
    let mut ex = AtomicExecutor::new();
    let adu = signed(ex.create_adu_at(transfer(10), vec![7], "adu1".to_string(), 1_000, &ser_adu).unwrap());
    assert_eq!(ex.gas_required(&vec![adu.clone()]), 100);
    let tx = ex
        .create_transaction_at(vec![adu], "alice".to_string(), 1_000, "tx1".to_string(), 2_000, &ser_adu, &ser_tx)
        .expect("pooled");
    assert_eq!(tx.status, TransactionStatus::Pending);
    assert_eq!(tx.deadline, 2_000 + 86_400_000_000_000);
    assert_eq!(tx.gas_price, 1);
    assert_eq!(tx.hash.len(), 64);
    assert_eq!(ex.transaction_pool.len(), 1);
    assert_eq!(ex.get_transaction_status("tx1").map(|t| t.status), Some(TransactionStatus::Pending));

    let r = ex.execute_transaction_at("tx1", "anchor1".to_string(), 3_000, &ser_adu, &ser_proof);
    assert_eq!(r, Ok(true));
    assert_eq!(ex.transaction_pool.len(), 0);
    assert_eq!(ex.get_transaction_status("tx1").map(|t| t.status), Some(TransactionStatus::Success));
    let anchor = ex.get_anchor("anchor1").expect("anchored");
    assert_eq!(anchor.adu_ids, vec!["adu1".to_string()]);
    assert!(anchor.verified);
    assert_eq!(ex.gas_accounting.total_consumed, 100);
    assert_eq!(ex.gas_accounting.gas_usage.get("transactions"), Some(&100));
    assert_eq!(ex.proof_store.len(), 1);
    let (_, proof) = ex.proof_store.entry_at(0);
    assert_eq!(proof.adus, vec!["adu1".to_string()]);
    // The registered unit carries no signature, so it fails its check.
    assert!(!ex.verify_atomicity_proof(proof, &ser_adu));
    let proof = AtomicityProof {
        proof_hash: proof.proof_hash.clone(),
        adus: proof.adus.clone(),
        merkle_root: proof.merkle_root.clone(),
        merkle_paths: Vec::new(),
        generated_at: proof.generated_at,
        valid_until: proof.valid_until,
        verifiers: proof.verifiers.clone(),
    };
    let registered = signed(ex.registry.get("adu1").unwrap().clone());
    ex.registry.insert("adu1".to_string(), registered);
    assert!(ex.verify_atomicity_proof(&proof, &ser_adu));
    let mut forged = proof;
    forged.merkle_root = "00".repeat(32);
    assert!(!ex.verify_atomicity_proof(&forged, &ser_adu));
}

#[test]
fn atomic_refusals() {
    let mut ex = AtomicExecutor::new();
    let unsigned = ex.create_adu_at(transfer(1), vec![], "adu2".to_string(), 0, &ser_adu).unwrap();
    let r = ex.create_transaction_at(vec![unsigned], "bob".to_string(), 1_000, "t".to_string(), 0, &ser_adu, &ser_tx);
    assert_eq!(r.err(), Some("Invalid ADU: adu2".to_string()));

    let adu = signed(ex.create_adu_at(transfer(1), vec![], "adu3".to_string(), 0, &ser_adu).unwrap());
    let r = ex.create_transaction_at(vec![adu], "bob".to_string(), 50, "t".to_string(), 0, &ser_adu, &ser_tx);
    assert_eq!(r.err(), Some("Gas limit exceeded".to_string()));
    assert_eq!(ex.transaction_pool.len(), 0);

    let r = ex.execute_transaction_at("missing", "a".to_string(), 0, &ser_adu, &ser_proof);
    assert_eq!(r, Err("Transaction not found in pool".to_string()));
}

#[test]
fn atomic_proof_with_unknown_unit_fails() {
    let ex = AtomicExecutor::new();
    let proof = AtomicityProof {
        proof_hash: String::new(),
        adus: vec!["nobody".to_string()],
        merkle_root: String::new(),
        merkle_paths: Vec::new(),
        generated_at: 0,
        valid_until: 0,
        verifiers: Vec::new(),
    };
    assert!(!ex.verify_atomicity_proof(&proof, &ser_adu));
}

#[test]
fn atomic_times_past_the_year_2262_are_kept() {
    // 10^19 nanoseconds after the epoch is in the year 2286.
    let late: i128 = 10_000_000_000_000_000_000;
    let mut ex = AtomicExecutor::new();
    let adu = signed(ex.create_adu_at(transfer(3), vec![1], "late".to_string(), late, &ser_adu).unwrap());
    assert_eq!(adu.created_at, late);
    let tx = ex
        .create_transaction_at(vec![adu], "alice".to_string(), 1_000, "txl".to_string(), late, &ser_adu, &ser_tx)
        .expect("pooled");
    assert_eq!(tx.created_at, late);
    assert_eq!(tx.deadline, late + 86_400_000_000_000);
    let r = ex.execute_transaction_at("txl", "anchorl".to_string(), late, &ser_adu, &ser_proof);
    assert_eq!(r, Ok(true));
    let (_, proof) = ex.proof_store.entry_at(0);
    assert_eq!(proof.generated_at, late);
    assert_eq!(proof.valid_until, late + 31_536_000_000_000_000);
}

#[test]
fn atomic_clock_versions_date_by_the_clock() {
    let mut ex = AtomicExecutor::new();
    let adu = signed(ex.create_adu(transfer(1), vec![], &ser_adu).unwrap());
    assert_eq!(adu.id.len(), 36);
    assert!(adu.created_at > 0);
    let tx = ex.create_transaction(vec![adu], "alice".to_string(), 1_000, &ser_adu, &ser_tx).expect("pooled");
    assert_eq!(tx.deadline, tx.created_at + 86_400_000_000_000);
    assert_eq!(ex.execute_transaction(&tx.id, &ser_adu, &ser_proof), Ok(true));
}
