use merkle_chain::block::Block;
use merkle_chain::blockchain::{Blockchain, ChainLinkBroken, LinkFault, MAX_TRANSACTIONS_PER_BLOCK};
use merkle_chain::transaction::Transaction;

fn chain_of_three_blocks() -> Blockchain {
    let mut chain = Blockchain::with_genesis_time(1700000000);
    for i in 0..(2 * MAX_TRANSACTIONS_PER_BLOCK as u64) {
        chain.add_transaction_at("Alice".to_string(), "Bob".to_string(), i, 1700000100 + i as i64);
    }
    chain
}

#[test]
fn genesis_block() {
    let chain = Blockchain::with_genesis_time(1700000000);
    assert_eq!(chain.get_chain_length(), 1);
    assert_eq!(chain.get_block_height(), 0);
    let g = chain.get_latest_block();
    assert_eq!(g.id, 0);
    assert_eq!(g.timestamp, 1700000000);
    assert_eq!(g.previous_hash, None);
    assert_eq!(g.merkle_root, None);
    assert!(g.transactions.is_empty());
    assert_eq!(g.calculate_hash(), g.hash);
    assert!(chain.validate_chain());
    assert!(chain.mempool.is_empty());
}

#[test]
fn genesis_at_current_time() {
    let chain = Blockchain::new();
    assert_eq!(chain.get_chain_length(), 1);
    assert_eq!(chain.chain[0].id, 0);
    assert!(chain.validate_chain());
}

#[test]
fn pending_transactions_wait_until_block_is_full() {
    let mut chain = Blockchain::with_genesis_time(1);
    for i in 0..(MAX_TRANSACTIONS_PER_BLOCK - 1) {
        chain.add_transaction_at("A".to_string(), "B".to_string(), i as u64, 2);
        assert_eq!(chain.get_chain_length(), 1);
        assert_eq!(chain.mempool.len(), i + 1);
    }
    chain.add_transaction_at("A".to_string(), "B".to_string(), 99, 3);
    assert_eq!(chain.get_chain_length(), 2);
    assert!(chain.mempool.is_empty());
    let b = chain.get_latest_block();
    assert_eq!(b.id, 1);
    assert_eq!(b.timestamp, 3);
    assert_eq!(b.transactions.len(), MAX_TRANSACTIONS_PER_BLOCK);
    assert_eq!(b.transactions[3].amount, 99);
    assert_eq!(b.previous_hash, chain.chain[0].hash);
    assert_eq!(b.calculate_hash(), b.hash);
    assert!(chain.validate_chain());
}

#[test]
fn add_transaction_with_clock_fills_blocks() {
    let mut chain = Blockchain::new();
    for i in 0..5u64 {
        chain.add_transaction("A".to_string(), "B".to_string(), i);
    }
    assert_eq!(chain.get_chain_length(), 2);
    assert_eq!(chain.mempool.len(), 1);
    assert_eq!(chain.mempool[0].amount, 4);
    assert!(chain.validate_chain());
}

#[test]
fn blocks_are_found_by_id() {
    let chain = chain_of_three_blocks();
    assert_eq!(chain.get_chain_length(), 3);
    assert_eq!(chain.get_block_height(), 2);
    assert_eq!(chain.get_block_by_id(2).unwrap().timestamp, 1700000107);
    assert_eq!(chain.get_block_by_id(0).unwrap().timestamp, 1700000000);
    assert!(chain.get_block_by_id(3).is_none());
    assert_eq!(chain.get_chain().len(), 3);
}

#[test]
fn valid_chain_passes_check() {
    let chain = chain_of_three_blocks();
    assert!(chain.validate_chain());
    assert_eq!(chain.check_chain(), Ok(()));
}

#[test]
fn altered_block_hash_is_detected() {
    let mut chain = chain_of_three_blocks();
    chain.chain[1].hash = Some(vec![0u8; 32]);
    assert!(!chain.validate_chain());
    assert_eq!(
        chain.check_chain(),
        Err(ChainLinkBroken { index: 1, block_id: 1, fault: LinkFault::SelfHashMismatch })
    );
    let mut chain = chain_of_three_blocks();
    chain.chain[2].hash.as_mut().unwrap()[0] ^= 1;
    assert_eq!(
        chain.check_chain(),
        Err(ChainLinkBroken { index: 2, block_id: 2, fault: LinkFault::SelfHashMismatch })
    );
}

#[test]
fn altered_previous_hash_is_detected() {
    let mut chain = chain_of_three_blocks();
    chain.chain[2].previous_hash = Some(vec![7u8; 32]);
    assert!(!chain.validate_chain());
    assert_eq!(
        chain.check_chain(),
        Err(ChainLinkBroken { index: 2, block_id: 2, fault: LinkFault::PreviousHashMismatch })
    );
}

#[test]
fn altered_genesis_hash_breaks_next_link() {
    let mut chain = chain_of_three_blocks();
    chain.chain[0].hash = None;
    assert_eq!(
        chain.check_chain(),
        Err(ChainLinkBroken { index: 1, block_id: 1, fault: LinkFault::PreviousHashMismatch })
    );
}

#[test]
fn altered_transaction_is_detected() {
    let mut chain = chain_of_three_blocks();
    chain.chain[1].transactions[2].amount += 1;
    assert_eq!(
        chain.check_chain(),
        Err(ChainLinkBroken { index: 1, block_id: 1, fault: LinkFault::SelfHashMismatch })
    );
}

#[test]
fn end_to_end_inclusion_proof() {
    let mut chain = Blockchain::with_genesis_time(1700000000);
    let txs = vec![
        Transaction::new("Alice".to_string(), "Bob".to_string(), 5),
        Transaction::new("Charlie".to_string(), "Dana".to_string(), 3),
    ];
    let prev = chain.get_latest_block().hash.clone();
    assert!(chain.append_block(Block::new(prev, 1, 1700000001, txs)).is_ok());
    let others = vec![
        Transaction::new("Eve".to_string(), "Frank".to_string(), 1),
        Transaction::new("Grace".to_string(), "Heidi".to_string(), 2),
    ];
    let prev = chain.get_latest_block().hash.clone();
    assert!(chain.append_block(Block::new(prev, 2, 1700000002, others)).is_ok());
    assert!(chain.validate_chain());

    let root = chain.chain[1].merkle_root.clone().unwrap();
    let target = Transaction::new("Alice".to_string(), "Bob".to_string(), 5).calculate_hash();
    let proof = chain.generate_merkle_proof(&target).unwrap();
    assert_eq!(proof.leaf, target);
    assert!(proof.verify(&root));
    let other_root = chain.chain[2].merkle_root.clone().unwrap();
    assert!(!proof.verify(&other_root));
    assert!(!proof.verify(&chain.chain[2].hash.clone().unwrap()));
}

#[test]
fn proof_for_unknown_transaction_is_none() {
    let chain = chain_of_three_blocks();
    let unknown = Transaction::new("Zed".to_string(), "Yan".to_string(), 1).calculate_hash();
    assert!(chain.generate_merkle_proof(&unknown).is_none());
}

#[test]
fn proof_comes_from_first_block_holding_transaction() {
    let mut chain = Blockchain::with_genesis_time(0);
    for _ in 0..(2 * MAX_TRANSACTIONS_PER_BLOCK) {
        chain.add_transaction_at("Alice".to_string(), "Bob".to_string(), 5, 1);
    }
    let target = chain.chain[2].transactions[0].calculate_hash();
    let proof = chain.generate_merkle_proof(&target).unwrap();
    assert!(proof.verify(chain.chain[1].merkle_root.as_ref().unwrap()));
}

#[test]
fn mixed_transactions_scenario() {
    let mut blockchain = Blockchain::with_genesis_time(1700000000);
    let names = [
        ("Alice", "Bob", 5),
        ("Charlie", "Dana", 3),
        ("Alice", "Bob", 5),
        ("Charlie", "Dana", 3),
        ("Alice", "Bob", 5),
        ("Charlie", "Dana", 3),
        ("Alice", "Bob", 5),
        ("Fred", "Barney", 3),
        ("George", "Henry", 5),
    ];
    for (i, (s, r, a)) in names.iter().enumerate() {
        blockchain.add_transaction_at(s.to_string(), r.to_string(), *a, 1700000000 + i as i64);
    }
    assert_eq!(blockchain.get_chain_length(), 3);
    assert_eq!(blockchain.mempool.len(), 1);
    assert!(blockchain.validate_chain());
    let transaction_hash = blockchain.chain[1].transactions[0].calculate_hash();
    let merkle_proof = blockchain.generate_merkle_proof(&transaction_hash).unwrap();
    let merkle_root = blockchain.chain[1].merkle_root.clone().unwrap();
    assert!(merkle_proof.verify(&merkle_root));
}

#[test]
fn append_requires_link_to_last_block() {
    let mut chain = Blockchain::with_genesis_time(10);
    let stray = Block::new(Some(vec![1u8; 32]), 1, 11, Vec::new());
    let back = chain.append_block(stray).unwrap_err();
    assert_eq!(back.id, 1);
    assert_eq!(chain.get_chain_length(), 1);
    let unlinked = Block::new(None, 1, 11, Vec::new());
    assert!(chain.append_block(unlinked).is_err());
    let linked = Block::new(chain.chain[0].hash.clone(), 1, 11, Vec::new());
    assert!(chain.append_block(linked).is_ok());
    assert_eq!(chain.get_chain_length(), 2);
    assert!(chain.validate_chain());
}
