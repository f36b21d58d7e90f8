//! Blocks: a Merkle root over the transactions, bound with the block's
//! metadata into the block's own hash.

use crate::hashing::{append_bytes, copy_bytes, sha256, sha256_digest};
use crate::merkle::{
    digests_of, merkle_path, merkle_path_of, merkle_root, merkle_root_of, opt_bytes, path_view,
};
use crate::transaction::Transaction;
use crate::utils::{hex_of, to_hex_string};
use vstd::prelude::*;

verus! {

/// The `width` low bytes of `n`, least significant first.
pub open spec fn le_bytes(n: nat, width: nat) -> Seq<u8>
    decreases width,
{
    if width == 0 {
        Seq::empty()
    } else {
        seq![(n % 256) as u8] + le_bytes(n / 256, (width - 1) as nat)
    }
}

/// The two's complement bits of `x`, read as an unsigned number.
pub open spec fn twos_complement(x: i64) -> nat {
    if x >= 0 {
        x as nat
    } else {
        (x + 0x1_0000_0000_0000_0000) as nat
    }
}

/// The bytes that a block hash covers: the previous hash (nothing for the
/// first block), the id and the timestamp in little-endian order, and the
/// Merkle root (32 zero bytes for a block without transactions).
pub open spec fn block_preimage(
    previous_hash: Option<Seq<u8>>,
    id: u32,
    timestamp: i64,
    merkle_root: Option<Seq<u8>>,
) -> Seq<u8> {
    let prev = match previous_hash {
        Some(p) => p,
        None => Seq::empty(),
    };
    let root = match merkle_root {
        Some(r) => r,
        None => Seq::new(32, |i: int| 0u8),
    };
    prev + le_bytes(id as nat, 4) + le_bytes(twos_complement(timestamp), 8) + root
}

/// The hash of a block with the given fields.
pub open spec fn block_digest(
    previous_hash: Option<Seq<u8>>,
    id: u32,
    timestamp: i64,
    merkle_root: Option<Seq<u8>>,
) -> Seq<u8> {
    sha256(block_preimage(previous_hash, id, timestamp, merkle_root))
}

/// The Merkle leaves of a transaction sequence: each one's content hash.
pub open spec fn leaf_digests(transactions: Seq<Transaction>) -> Seq<Seq<u8>> {
    Seq::new(transactions.len(), |i: int| transactions[i].content_digest())
}

/// Appends the `width` low bytes of `v` to `out`, least significant first.
fn push_le(out: &mut Vec<u8>, v: u64, width: u8)
    ensures
        final(out)@ == old(out)@ + le_bytes(v as nat, width as nat),
    decreases width,
{
    if width > 0 {
        out.push((v % 256) as u8);
        push_le(out, v / 256, width - 1);
        proof {
            assert(old(out)@ + le_bytes(v as nat, width as nat) =~= out@);
        }
    } else {
        proof {
            assert(old(out)@ + le_bytes(v as nat, 0) =~= out@);
        }
    }
}

/// The hash of a block with the given previous hash, id, timestamp and
/// Merkle root.
pub fn block_hash(
    previous_hash: &Option<Vec<u8>>,
    id: u32,
    timestamp: i64,
    merkle_root: &Option<Vec<u8>>,
) -> (r: Vec<u8>)
    ensures
        r@ == block_digest(opt_bytes(*previous_hash), id, timestamp, opt_bytes(*merkle_root)),
        r@.len() == 32,
{
    let mut data: Vec<u8> = Vec::new();
    match previous_hash {
        Some(p) => append_bytes(&mut data, p.as_slice()),
        None => {},
    }
    let ghost prev_part = data@;
    push_le(&mut data, id as u64, 4);
    let bits: u64 = if timestamp >= 0 {
        timestamp as u64
    } else {
        (timestamp + 1 + i64::MAX) as u64 + 0x8000_0000_0000_0000u64
    };
    push_le(&mut data, bits, 8);
    match merkle_root {
        Some(root) => append_bytes(&mut data, root.as_slice()),
        None => {
            let zeros: Vec<u8> = vec![0u8; 32];
            append_bytes(&mut data, zeros.as_slice());
        },
    }
    proof {
        assert(prev_part =~= match opt_bytes(*previous_hash) {
            Some(p) => p,
            None => Seq::empty(),
        });
        assert(data@ =~= block_preimage(
            opt_bytes(*previous_hash),
            id,
            timestamp,
            opt_bytes(*merkle_root),
        ));
    }
    sha256_digest(data.as_slice())
}

/// A copy of `t` with the same field values.
pub fn copy_transaction(t: &Transaction) -> (r: Transaction)
    ensures
        r.sender@ == t.sender@,
        r.receiver@ == t.receiver@,
        r.amount == t.amount,
        r.hash@ == t.hash@,
{
    Transaction {
        sender: t.sender.clone(),
        receiver: t.receiver.clone(),
        amount: t.amount,
        hash: copy_bytes(t.hash.as_slice()),
    }
}

/// Whether two transactions hold the same field values.
pub open spec fn same_transaction(a: Transaction, b: Transaction) -> bool {
    &&& a.sender@ == b.sender@
    &&& a.receiver@ == b.receiver@
    &&& a.amount == b.amount
    &&& a.hash@ == b.hash@
}

/// Whether two transaction sequences hold the same values, in order.
pub open spec fn same_transactions(a: Seq<Transaction>, b: Seq<Transaction>) -> bool {
    &&& a.len() == b.len()
    &&& forall|i: int| 0 <= i < a.len() ==> #[trigger] same_transaction(a[i], b[i])
}

/// A block of ordered transactions, with its id, its creation time in
/// seconds since the epoch, the hash of the block before it (none for the
/// first block), the Merkle root of its transactions (none when it holds
/// none) and its own hash.
#[derive(Debug)]
pub struct Block {
    pub id: u32,
    pub timestamp: i64,
    pub previous_hash: Option<Vec<u8>>,
    pub hash: Option<Vec<u8>>,
    pub merkle_root: Option<Vec<u8>>,
    pub transactions: Vec<Transaction>,
}

/// A block prepared for display: the hashes as hexadecimal text, an empty
/// text for an absent one.
#[derive(Debug)]
pub struct SerializableBlock {
    pub id: u32,
    pub timestamp: i64,
    pub transactions: Vec<Transaction>,
    pub previous_hash: String,
    pub hash: String,
    pub merkle_root: String,
}

/// The hexadecimal text of an optional digest; empty when it is absent.
pub open spec fn opt_hex(o: Option<Seq<u8>>) -> Seq<char> {
    match o {
        Some(b) => hex_of(b),
        None => Seq::empty(),
    }
}

/// The hexadecimal text of an optional digest, empty when it is absent.
fn opt_to_hex(o: &Option<Vec<u8>>) -> (r: String)
    ensures
        r@ == opt_hex(opt_bytes(*o)),
{
    match o {
        Some(b) => to_hex_string(b),
        None => String::new(),
    }
}

impl Block {
    /// The Merkle leaves of this block.
    pub open spec fn leaves(&self) -> Seq<Seq<u8>> {
        leaf_digests(self.transactions@)
    }

    /// The hash of this block, recomputed from its fields: the Merkle root
    /// is recomputed from the transactions.
    pub open spec fn spec_hash(&self) -> Seq<u8> {
        block_digest(
            opt_bytes(self.previous_hash),
            self.id,
            self.timestamp,
            merkle_root_of(self.leaves()),
        )
    }

    /// Whether the stored Merkle root and hash are those of the block's
    /// fields.
    pub open spec fn well_formed(&self) -> bool {
        &&& opt_bytes(self.merkle_root) == merkle_root_of(self.leaves())
        &&& opt_bytes(self.hash) == Some(self.spec_hash())
    }

    /// A block over `transactions`, its Merkle root and hash computed once
    /// here.
    pub fn new(
        previous_hash: Option<Vec<u8>>,
        id: u32,
        timestamp: i64,
        transactions: Vec<Transaction>,
    ) -> (r: Block)
        ensures
            opt_bytes(r.previous_hash) == opt_bytes(previous_hash),
            r.id == id,
            r.timestamp == timestamp,
            r.transactions == transactions,
            r.well_formed(),
    {
        let mut block = Block {
            id,
            timestamp,
            previous_hash,
            hash: None,
            merkle_root: None,
            transactions,
        };
        block.merkle_root = block.calculate_merkle_root();
        block.hash = block.calculate_hash();
        block
    }

    /// The Merkle leaves of this block: each transaction's content hash,
    /// recomputed, in transaction order.
    pub fn leaf_hashes(&self) -> (r: Vec<Vec<u8>>)
        ensures
            digests_of(r@) == self.leaves(),
    {
        let mut out: Vec<Vec<u8>> = Vec::new();
        for i in 0..self.transactions.len()
            invariant
                out@.len() == i,
                forall|j: int|
                    0 <= j < i ==> #[trigger] out@[j]@ == self.transactions@[j].content_digest(),
        {
            out.push(self.transactions[i].calculate_hash());
        }
        proof {
            assert(digests_of(out@) =~= self.leaves());
        }
        out
    }

    /// The hash of this block, recomputed from its previous hash, id,
    /// timestamp and the Merkle root of its transactions.
    pub fn calculate_hash(&self) -> (r: Option<Vec<u8>>)
        ensures
            opt_bytes(r) == Some(self.spec_hash()),
    {
        let root = self.calculate_merkle_root();
        Some(block_hash(&self.previous_hash, self.id, self.timestamp, &root))
    }

    /// The Merkle root of this block's transactions, none when it has none.
    pub fn calculate_merkle_root(&self) -> (r: Option<Vec<u8>>)
        ensures
            opt_bytes(r) == merkle_root_of(self.leaves()),
    {
        merkle_root(&self.leaf_hashes())
    }

    /// The inclusion path of the transaction whose content hash is
    /// `transaction_hash`, at its first occurrence; none when no transaction
    /// of this block has it.
    pub fn generate_merkle_path(&self, transaction_hash: &Vec<u8>) -> (r: Option<
        Vec<(Vec<u8>, bool)>,
    >)
        ensures
            match r {
                Some(p) => merkle_path_of(self.leaves(), transaction_hash@) == Some(path_view(p@)),
                None => merkle_path_of(self.leaves(), transaction_hash@) is None,
            },
    {
        merkle_path(&self.leaf_hashes(), transaction_hash)
    }

    /// The Merkle root of this block's transactions, or no bytes when it
    /// has none.
    pub fn construct_merkle_tree(&self) -> (r: Vec<u8>)
        ensures
            r@ == match merkle_root_of(self.leaves()) {
                Some(root) => root,
                None => Seq::empty(),
            },
    {
        match self.calculate_merkle_root() {
            Some(root) => root,
            None => Vec::new(),
        }
    }

    /// This block with its hashes as hexadecimal text.
    pub fn to_serializable(&self) -> (r: SerializableBlock)
        ensures
            r.id == self.id,
            r.timestamp == self.timestamp,
            same_transactions(r.transactions@, self.transactions@),
            r.previous_hash@ == opt_hex(opt_bytes(self.previous_hash)),
            r.hash@ == opt_hex(opt_bytes(self.hash)),
            r.merkle_root@ == opt_hex(opt_bytes(self.merkle_root)),
    {
        let mut transactions: Vec<Transaction> = Vec::new();
        for i in 0..self.transactions.len()
            invariant
                transactions@.len() == i,
                forall|j: int|
                    0 <= j < i ==> #[trigger] same_transaction(
                        transactions@[j],
                        self.transactions@[j],
                    ),
        {
            transactions.push(copy_transaction(&self.transactions[i]));
        }
        SerializableBlock {
            id: self.id,
            timestamp: self.timestamp,
            transactions,
            previous_hash: opt_to_hex(&self.previous_hash),
            hash: opt_to_hex(&self.hash),
            merkle_root: opt_to_hex(&self.merkle_root),
        }
    }
}

} // verus!
