use merkle_chain::block::{block_hash, Block};
use merkle_chain::hashing::hash_pair;
use merkle_chain::transaction::Transaction;

fn unhex(s: &str) -> Vec<u8> {
    (0..s.len())
        .step_by(2)
        .map(|i| u8::from_str_radix(&s[i..i + 2], 16).unwrap())
        .collect()
}

fn two_transactions() -> Vec<Transaction> {
    vec![
        Transaction::new("Alice".to_string(), "Bob".to_string(), 5),
        Transaction::new("Charlie".to_string(), "Dana".to_string(), 3),
    ]
}

#[test]
fn block_hash_without_previous_hash_or_root() {
    assert_eq!(
        block_hash(&None, 0, 1700000000, &None),
        unhex("ac32b4b0de1ed37a76125b5d1e54fd23a7990937b759cd10170900fa99f5b0ef")
    );
}

#[test]
fn block_hash_of_negative_timestamp() {
    assert_eq!(
        block_hash(&None, 0, -1, &None),
        unhex("0dc626f9801cdc671a995d2393172289d3f396d0a0ff55c86436465560cdb68d")
    );
}

#[test]
fn block_hash_with_previous_hash_and_root() {
    assert_eq!(
        block_hash(&Some(vec![0xab; 32]), 7, 42, &Some(vec![0xcd; 32])),
        unhex("f646c5d2ab32c3d06749c46d88051c7d0679c6e43b2a411b4f3fab89ffc7e83e")
    );
}

#[test]
fn absent_root_is_not_zero_root_for_storage_but_hashes_alike() {
    let absent = block_hash(&None, 3, 9, &None);
    let zeros = block_hash(&None, 3, 9, &Some(vec![0u8; 32]));
    assert_eq!(absent, zeros);
    let empty_prev = block_hash(&Some(Vec::new()), 3, 9, &None);
    assert_eq!(absent, empty_prev);
}

#[test]
fn new_block_computes_root_and_hash() {
    let txs = two_transactions();
    let block = Block::new(Some(vec![0x11; 32]), 1, 1700000001, txs);
    let root = unhex("7fa907ce0da87a33ea02806befe98700207eb43d057cbbad4e3b559edd13e6d1");
    assert_eq!(block.merkle_root, Some(root.clone()));
    assert_eq!(block.calculate_merkle_root(), Some(root.clone()));
    assert_eq!(block.construct_merkle_tree(), root.clone());
    let expected = block_hash(&Some(vec![0x11; 32]), 1, 1700000001, &Some(root));
    assert_eq!(block.hash, Some(expected.clone()));
    assert_eq!(block.calculate_hash(), Some(expected));
}

#[test]
fn empty_block_has_no_root() {
    let block = Block::new(None, 0, 1700000000, Vec::new());
    assert_eq!(block.merkle_root, None);
    assert_eq!(block.construct_merkle_tree(), Vec::<u8>::new());
    assert_eq!(
        block.hash,
        Some(unhex("ac32b4b0de1ed37a76125b5d1e54fd23a7990937b759cd10170900fa99f5b0ef"))
    );
}

#[test]
fn leaves_are_content_hashes_in_order() {
    let txs = two_transactions();
    let hashes: Vec<Vec<u8>> = txs.iter().map(|t| t.hash.clone()).collect();
    let block = Block::new(None, 1, 5, txs);
    assert_eq!(block.leaf_hashes(), hashes);
    assert_eq!(
        block.calculate_merkle_root(),
        Some(hash_pair(&hashes[0], &hashes[1]))
    );
}

#[test]
fn block_path_for_transaction() {
    let txs = two_transactions();
    let first = txs[0].hash.clone();
    let second = txs[1].hash.clone();
    let block = Block::new(None, 1, 5, txs);
    assert_eq!(block.generate_merkle_path(&first), Some(vec![(second, false)]));
    assert_eq!(block.generate_merkle_path(&vec![0u8; 32]), None);
}

#[test]
fn serializable_block_holds_hex_text() {
    let block = Block::new(Some(vec![0xab; 2]), 4, 8, two_transactions());
    let s = block.to_serializable();
    assert_eq!(s.id, 4);
    assert_eq!(s.timestamp, 8);
    assert_eq!(s.previous_hash, "abab");
    assert_eq!(
        s.merkle_root,
        "7fa907ce0da87a33ea02806befe98700207eb43d057cbbad4e3b559edd13e6d1"
    );
    assert_eq!(s.hash.len(), 64);
    assert_eq!(s.transactions.len(), 2);
    assert_eq!(s.transactions[1].sender, "Charlie");
    let genesis = Block::new(None, 0, 0, Vec::new()).to_serializable();
    assert_eq!(genesis.previous_hash, "");
    assert_eq!(genesis.merkle_root, "");
}
