use crypto_bite::hashing::{compute_block_digest, is_valid_proof, search_proof};
use crypto_bite::ledger::{Ledger, LedgerError};

fn next_proof(l: &Ledger) -> u64 {
    search_proof(l.latest_block().proof).unwrap()
}

#[test]
fn genesis_invariant() {
    let l = Ledger::initialize();
    assert_eq!(l.chain().len(), 1);
    let g = &l.chain()[0];
    assert_eq!(g.index, 0);
    assert_eq!(g.previous_hash, "0");
    assert_eq!(g.proof, 100);
    assert!(g.transfers.is_empty());
    assert!(l.pending().is_empty());
}

#[test]
fn genesis_at_given_time() {
    let l = Ledger::initialize_at(1700000000);
    assert_eq!(l.chain()[0].timestamp, 1700000000);
    assert_eq!(
        compute_block_digest(l.latest_block()),
        "cb33db0bd315f815ad93203e84ede85f419bc35a647cb05ce4db81b93b33eaf7"
    );
}

#[test]
fn two_transfer_cycle() {
    let mut l = Ledger::initialize();
    let genesis_digest = compute_block_digest(&l.chain()[0]);
    assert_eq!(l.queue_transfer(String::from("0"), String::from("Alice"), 100), 1);
    let p = search_proof(100).unwrap();
    let b = l.commit_block(p).unwrap();
    assert_eq!(b.index, 1);
    assert_eq!(b.transfers.len(), 1);
    assert_eq!(b.previous_hash, genesis_digest);
    assert!(is_valid_proof(100, p));
}

#[test]
fn empty_pool_commit() {
    let mut l = Ledger::initialize();
    let p = next_proof(&l);
    let b = l.commit_block(p).unwrap();
    assert!(b.transfers.is_empty());
    assert_eq!(b.index, 1);
    assert_eq!(l.chain().len(), 2);
}

#[test]
fn committed_block_exact() {
    let mut l = Ledger::initialize_at(1700000000);
    l.queue_transfer(String::from("0"), String::from("Alice"), 100);
    let b = l.commit_block_at(35293, 1700000060).unwrap();
    assert_eq!(b.timestamp, 1700000060);
    assert_eq!(b.proof, 35293);
    assert_eq!(b.previous_hash, "cb33db0bd315f815ad93203e84ede85f419bc35a647cb05ce4db81b93b33eaf7");
    assert_eq!(
        compute_block_digest(l.latest_block()),
        "4c1951c083d88afe589d2d3bab8ecdd6742c1a50412275619313b0f37543d725"
    );
}

#[test]
fn invalid_proof_refused() {
    let mut l = Ledger::initialize_at(1700000000);
    l.queue_transfer(String::from("Alice"), String::from("Bob"), 50);
    assert!(matches!(l.commit_block(0), Err(LedgerError::InvalidProofSubmitted)));
    assert_eq!(l.chain().len(), 1);
    assert_eq!(l.pending().len(), 1);
    assert_eq!(l.pending()[0].recipient, "Bob");
}

#[test]
fn queue_returns_next_index_and_keeps_chain() {
    let mut l = Ledger::initialize();
    assert_eq!(l.queue_transfer(String::from("a"), String::from("b"), 1), 1);
    assert_eq!(l.queue_transfer(String::from("c"), String::from("d"), -2), 1);
    assert_eq!(l.chain().len(), 1);
    assert_eq!(l.pending().len(), 2);
    let p = next_proof(&l);
    l.commit_block(p).unwrap();
    assert_eq!(l.queue_transfer(String::from("e"), String::from("f"), 3), 2);
}

#[test]
fn pool_transfer_semantics() {
    let mut l = Ledger::initialize();
    l.queue_transfer(String::from("Alice"), String::from("Bob"), 50);
    l.queue_transfer(String::from("Alice"), String::from("Charlie"), 30);
    l.queue_transfer(String::from("Bob"), String::from("David"), 20);
    let p = next_proof(&l);
    let b = l.commit_block(p).unwrap();
    let got: Vec<(&str, &str, i64)> = b
        .transfers
        .iter()
        .map(|t| (t.sender.as_str(), t.recipient.as_str(), t.amount))
        .collect();
    assert_eq!(got, vec![("Alice", "Bob", 50), ("Alice", "Charlie", 30), ("Bob", "David", 20)]);
    assert!(l.pending().is_empty());
    l.queue_transfer(String::from("Eve"), String::from("Grace"), 10);
    let p = next_proof(&l);
    let b = l.commit_block(p).unwrap();
    assert_eq!(b.transfers.len(), 1);
    assert_eq!(b.transfers[0].sender, "Eve");
    assert_eq!(l.chain()[1].transfers.len(), 3);
}

#[test]
fn indexes_and_hashes_chain_over_several_blocks() {
    let mut l = Ledger::initialize();
    for k in 0..3i64 {
        l.queue_transfer(String::from("x"), String::from("y"), k);
        let p = next_proof(&l);
        l.commit_block(p).unwrap();
    }
    let chain = l.chain();
    assert_eq!(chain.len(), 4);
    for (i, b) in chain.iter().enumerate() {
        assert_eq!(b.index, i as u64);
    }
    for i in 1..chain.len() {
        assert_eq!(chain[i].previous_hash, compute_block_digest(&chain[i - 1]));
        assert!(is_valid_proof(chain[i - 1].proof, chain[i].proof));
    }
}
