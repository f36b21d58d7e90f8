//! An append-only chain of blocks, a pool of pending transactions, and the
//! checks that bind each block to the one before it.

use crate::block::Block;
use crate::hashing::{bytes_equal, copy_bytes};
use crate::merkle::{
    lemma_inclusion_path_verifies, merkle_path_of, merkle_root_of, opt_bytes, path_view,
};
use crate::merkle_proof::MerkleProof;
use crate::transaction::{content_hash, Transaction};
use vstd::prelude::*;

verus! {

/// The number of pending transactions that fills a block.
pub const MAX_TRANSACTIONS_PER_BLOCK: usize = 4;

/// Relies on chrono's `Utc::now`, read as whole seconds since the Unix epoch
/// by `DateTime::timestamp`. Nothing is promised of the value: it is the
/// clock's. chrono panics when the system clock reads a time before the
/// epoch.
#[verifier::external_body]
fn current_timestamp() -> i64 {
    chrono::Utc::now().timestamp()
}

/// Whether the optional digests `a` and `b` are equal: both absent, or both
/// present with the same bytes.
pub fn opt_bytes_equal(a: &Option<Vec<u8>>, b: &Option<Vec<u8>>) -> (r: bool)
    ensures
        r == (opt_bytes(*a) == opt_bytes(*b)),
{
    match (a, b) {
        (Some(x), Some(y)) => bytes_equal(x.as_slice(), y.as_slice()),
        (None, None) => true,
        _ => false,
    }
}

/// Whether block `i` names the hash of block `i - 1` as its previous hash.
pub open spec fn link_ok(blocks: Seq<Block>, i: int) -> bool {
    opt_bytes(blocks[i].previous_hash) == opt_bytes(blocks[i - 1].hash)
}

/// Whether a block's stored hash is the hash recomputed from its fields.
pub open spec fn self_hash_ok(b: Block) -> bool {
    opt_bytes(b.hash) == Some(b.spec_hash())
}

/// Whether block `i` passes both checks of chain validation.
pub open spec fn block_ok(blocks: Seq<Block>, i: int) -> bool {
    link_ok(blocks, i) && self_hash_ok(blocks[i])
}

/// Whether every block after the first one is linked to its predecessor and
/// carries its own recomputed hash.
pub open spec fn chain_valid(blocks: Seq<Block>) -> bool {
    forall|i: int| 1 <= i < blocks.len() ==> #[trigger] block_ok(blocks, i)
}

/// Which check a block failed.
#[derive(Debug, Clone, Copy, PartialEq, Eq, Structural)]
pub enum LinkFault {
    /// Its previous hash is not the hash of the block before it.
    PreviousHashMismatch,
    /// Its stored hash is not the hash recomputed from its fields.
    SelfHashMismatch,
}

/// The first block of a chain that failed validation.
#[derive(Debug, Clone, Copy, PartialEq, Eq, Structural)]
pub struct ChainLinkBroken {
    /// Its position in the chain.
    pub index: usize,
    /// Its id.
    pub block_id: u32,
    /// The check that it failed; the link is checked first.
    pub fault: LinkFault,
}

/// What validation reports for block `i`, when it fails a check.
pub open spec fn fault_at(blocks: Seq<Block>, i: int) -> LinkFault {
    if !link_ok(blocks, i) {
        LinkFault::PreviousHashMismatch
    } else {
        LinkFault::SelfHashMismatch
    }
}

/// The hash that a block appended after `tip` names as its previous hash:
/// the tip's hash, or 32 zero bytes when the tip has none.
pub open spec fn hash_after(tip: Block) -> Seq<u8> {
    match opt_bytes(tip.hash) {
        Some(h) => h,
        None => Seq::new(32, |i: int| 0u8),
    }
}

/// Whether `t` is the transaction created from the given fields.
pub open spec fn created_from(
    t: Transaction,
    sender: Seq<char>,
    receiver: Seq<char>,
    amount: u64,
) -> bool {
    &&& t.sender@ == sender
    &&& t.receiver@ == receiver
    &&& t.amount == amount
    &&& t.hash@ == content_hash(sender, receiver, amount)
}

/// Whether `after` is `before` with a transfer of `amount` from `sender` to
/// `receiver` added to the pending pool, and, when that fills a block, with
/// the first pending transactions taken into a new block created at
/// `timestamp` and linked to the last one.
pub open spec fn added(
    before: Blockchain,
    after: Blockchain,
    sender: Seq<char>,
    receiver: Seq<char>,
    amount: u64,
    timestamp: i64,
) -> bool {
    let n = before.mempool@.len() + 1;
    &&& n < MAX_TRANSACTIONS_PER_BLOCK ==> {
        &&& after.chain == before.chain
        &&& after.mempool@.len() == n
        &&& after.mempool@.drop_last() == before.mempool@
        &&& created_from(after.mempool@.last(), sender, receiver, amount)
    }
    &&& n >= MAX_TRANSACTIONS_PER_BLOCK ==> {
        let b = after.chain@.last();
        let pool = b.transactions@ + after.mempool@;
        &&& after.chain@.len() == before.chain@.len() + 1
        &&& after.chain@.drop_last() == before.chain@
        &&& b.id == before.chain@.len() as u32
        &&& b.timestamp == timestamp
        &&& opt_bytes(b.previous_hash) == Some(hash_after(before.chain@.last()))
        &&& b.well_formed()
        &&& b.transactions@.len() == MAX_TRANSACTIONS_PER_BLOCK
        &&& pool.len() == n
        &&& pool.drop_last() == before.mempool@
        &&& created_from(pool.last(), sender, receiver, amount)
    }
}

/// The blocks, first of all the genesis block, and the transactions that
/// wait for a block.
#[derive(Debug)]
pub struct Blockchain {
    pub chain: Vec<Block>,
    pub mempool: Vec<Transaction>,
}

impl Blockchain {
    /// Whether the chain holds its genesis block.
    pub open spec fn wf(&self) -> bool {
        self.chain@.len() >= 1
    }

    /// Whether this chain's blocks are linked and each carries its own hash.
    pub open spec fn valid(&self) -> bool {
        chain_valid(self.chain@)
    }

    /// A chain holding only its genesis block, created at the current time.
    pub fn new() -> (r: Self)
        ensures
            r.wf(),
            r.chain@.len() == 1,
            r.chain@[0].id == 0,
            r.chain@[0].previous_hash is None,
            r.chain@[0].transactions@.len() == 0,
            r.chain@[0].well_formed(),
            r.mempool@.len() == 0,
            r.valid(),
    {
        Self::with_genesis_time(current_timestamp())
    }

    /// A chain holding only its genesis block, created at `timestamp`: id 0,
    /// no previous hash, no transactions.
    pub fn with_genesis_time(timestamp: i64) -> (r: Self)
        ensures
            r.wf(),
            r.chain@.len() == 1,
            r.chain@[0].id == 0,
            r.chain@[0].timestamp == timestamp,
            r.chain@[0].previous_hash is None,
            r.chain@[0].transactions@.len() == 0,
            r.chain@[0].well_formed(),
            r.mempool@.len() == 0,
            r.valid(),
    {
        let genesis = Self::create_genesis_block(timestamp);
        let mut chain: Vec<Block> = Vec::new();
        chain.push(genesis);
        Blockchain { chain, mempool: Vec::new() }
    }

    fn create_genesis_block(timestamp: i64) -> (r: Block)
        ensures
            r.id == 0,
            r.timestamp == timestamp,
            r.previous_hash is None,
            r.transactions@.len() == 0,
            r.well_formed(),
    {
        Block::new(None, 0, timestamp, Vec::new())
    }

    fn is_valid_block(&self, block: &Block) -> (r: bool)
        ensures
            r == self_hash_ok(*block),
    {
        let computed = block.calculate_hash();
        opt_bytes_equal(&computed, &block.hash)
    }

    /// The blocks.
    pub fn get_chain(&self) -> (r: &Vec<Block>)
        ensures
            *r == self.chain,
    {
        &self.chain
    }

    /// The last block.
    pub fn get_latest_block(&self) -> (r: &Block)
        requires
            self.wf(),
        ensures
            *r == self.chain@.last(),
    {
        &self.chain[self.chain.len() - 1]
    }

    /// The first block with id `id`, if any.
    pub fn get_block_by_id(&self, id: u32) -> (r: Option<&Block>)
        ensures
            match r {
                Some(b) => exists|i: int|
                    0 <= i < self.chain@.len() && *b == self.chain@[i] && self.chain@[i].id == id
                        && forall|j: int| 0 <= j < i ==> #[trigger] self.chain@[j].id != id,
                None => forall|i: int|
                    0 <= i < self.chain@.len() ==> #[trigger] self.chain@[i].id != id,
            },
    {
        for i in 0..self.chain.len()
            invariant
                forall|j: int| 0 <= j < i ==> #[trigger] self.chain@[j].id != id,
        {
            if self.chain[i].id == id {
                return Some(&self.chain[i]);
            }
        }
        None
    }

    /// The height of the chain: the number of blocks after the genesis
    /// block.
    pub fn get_block_height(&self) -> (r: u32)
        requires
            self.wf(),
            self.chain@.len() <= u32::MAX as nat + 1,
        ensures
            r == self.chain@.len() - 1,
    {
        (self.chain.len() - 1) as u32
    }

    /// The number of blocks.
    pub fn get_chain_length(&self) -> (r: usize)
        ensures
            r == self.chain@.len(),
    {
        self.chain.len()
    }

    /// The first block that fails validation, and which check it failed;
    /// the genesis block is not checked. Nothing is changed.
    pub fn check_chain(&self) -> (r: Result<(), ChainLinkBroken>)
        ensures
            match r {
                Ok(()) => chain_valid(self.chain@),
                Err(e) => {
                    &&& 1 <= e.index < self.chain@.len()
                    &&& forall|j: int| 1 <= j < e.index ==> #[trigger] block_ok(self.chain@, j)
                    &&& !block_ok(self.chain@, e.index as int)
                    &&& e.block_id == self.chain@[e.index as int].id
                    &&& e.fault == fault_at(self.chain@, e.index as int)
                },
            },
            r is Ok <==> chain_valid(self.chain@),
    {
        let n = self.chain.len();
        let mut i: usize = 1;
        while i < n
            invariant
                n == self.chain@.len(),
                1 <= i,
                forall|j: int| 1 <= j < i ==> #[trigger] block_ok(self.chain@, j),
            decreases n - i,
        {
            let block = &self.chain[i];
            let prev = &self.chain[i - 1];
            if !opt_bytes_equal(&block.previous_hash, &prev.hash) {
                assert(!block_ok(self.chain@, i as int));
                return Err(
                    ChainLinkBroken {
                        index: i,
                        block_id: block.id,
                        fault: LinkFault::PreviousHashMismatch,
                    },
                );
            }
            if !self.is_valid_block(block) {
                assert(!block_ok(self.chain@, i as int));
                return Err(
                    ChainLinkBroken {
                        index: i,
                        block_id: block.id,
                        fault: LinkFault::SelfHashMismatch,
                    },
                );
            }
            i += 1;
        }
        Ok(())
    }

    /// Whether every block after the genesis block names its predecessor's
    /// hash and carries its own recomputed hash.
    pub fn validate_chain(&self) -> (r: bool)
        ensures
            r == chain_valid(self.chain@),
    {
        match self.check_chain() {
            Ok(()) => true,
            Err(_) => false,
        }
    }

    /// Records a transfer of `amount` from `sender` to `receiver` in the
    /// pending pool; once the pool holds a full block's worth, the first ones
    /// become a new block, stamped with the current time.
    pub fn add_transaction(&mut self, sender: String, receiver: String, amount: u64)
        requires
            old(self).wf(),
        ensures
            added(
                *old(self),
                *final(self),
                sender@,
                receiver@,
                amount,
                final(self).chain@.last().timestamp,
            ),
            final(self).wf(),
            old(self).valid() && old(self).chain@.last().hash is Some ==> final(self).valid(),
    {
        let timestamp = if self.mempool.len() >= MAX_TRANSACTIONS_PER_BLOCK - 1 {
            current_timestamp()
        } else {
            0
        };
        self.add_transaction_at(sender, receiver, amount, timestamp);
    }

    /// Records a transfer of `amount` from `sender` to `receiver` in the
    /// pending pool; once the pool holds a full block's worth, the first ones
    /// become a new block created at `timestamp`.
    pub fn add_transaction_at(
        &mut self,
        sender: String,
        receiver: String,
        amount: u64,
        timestamp: i64,
    )
        requires
            old(self).wf(),
        ensures
            added(*old(self), *final(self), sender@, receiver@, amount, timestamp),
            final(self).wf(),
            old(self).valid() && old(self).chain@.last().hash is Some ==> final(self).valid(),
    {
        let ghost sender_text = sender@;
        let ghost receiver_text = receiver@;
        let transaction = Transaction::new(sender, receiver, amount);
        self.mempool.push(transaction);
        assert(self.mempool@.drop_last() =~= old(self).mempool@);
        if self.mempool.len() >= MAX_TRANSACTIONS_PER_BLOCK {
            self.create_block_from_mempool(timestamp);
            proof {
                let b = self.chain@.last();
                let pool = b.transactions@ + self.mempool@;
                assert(pool =~= old(self).mempool@.push(transaction));
                assert(pool.drop_last() =~= old(self).mempool@);
                assert(pool.last() == transaction);
                if old(self).valid() && old(self).chain@.last().hash is Some {
                    assert forall|i: int| 1 <= i < self.chain@.len() implies #[trigger] block_ok(
                        self.chain@,
                        i,
                    ) by {
                        if i < self.chain@.len() - 1 {
                            assert(block_ok(old(self).chain@, i));
                        }
                    }
                }
            }
        }
    }

    /// Appends `block` when its previous hash is the last block's hash;
    /// otherwise leaves the chain as it is and hands the block back.
    pub fn append_block(&mut self, block: Block) -> (r: Result<(), Block>)
        requires
            old(self).wf(),
        ensures
            r is Ok <==> opt_bytes(block.previous_hash) == opt_bytes(old(self).chain@.last().hash),
            r is Ok ==> final(self).chain@ == old(self).chain@.push(block),
            r matches Err(b) ==> b == block && final(self).chain == old(self).chain,
            final(self).mempool == old(self).mempool,
            final(self).wf(),
            r is Ok && old(self).valid() && self_hash_ok(block) ==> final(self).valid(),
    {
        let linked = opt_bytes_equal(&block.previous_hash, &self.chain[self.chain.len() - 1].hash);
        if !linked {
            return Err(block);
        }
        let ghost before = self.chain@;
        self.chain.push(block);
        proof {
            if old(self).valid() && self_hash_ok(block) {
                assert forall|i: int| 1 <= i < self.chain@.len() implies #[trigger] block_ok(
                    self.chain@,
                    i,
                ) by {
                    if i < before.len() {
                        assert(block_ok(before, i));
                    }
                }
            }
        }
        Ok(())
    }

    /// Takes the first full block's worth of pending transactions into a new
    /// block created at `timestamp`, linked to the last block.
    fn create_block_from_mempool(&mut self, timestamp: i64)
        requires
            old(self).wf(),
            old(self).mempool@.len() >= MAX_TRANSACTIONS_PER_BLOCK,
        ensures
            final(self).chain@.len() == old(self).chain@.len() + 1,
            final(self).chain@.drop_last() == old(self).chain@,
            final(self).chain@.last().id == old(self).chain@.len() as u32,
            final(self).chain@.last().timestamp == timestamp,
            opt_bytes(final(self).chain@.last().previous_hash) == Some(
                hash_after(old(self).chain@.last()),
            ),
            final(self).chain@.last().transactions@ == old(self).mempool@.take(
                MAX_TRANSACTIONS_PER_BLOCK as int,
            ),
            final(self).chain@.last().well_formed(),
            final(self).mempool@ == old(self).mempool@.skip(MAX_TRANSACTIONS_PER_BLOCK as int),
    {
        let previous_hash = Some(self.get_latest_block_hash());
        let id = #[verifier::truncate] (self.chain.len() as u32);
        let mut batch: Vec<Transaction> = Vec::new();
        std::mem::swap(&mut batch, &mut self.mempool);
        let rest = batch.split_off(MAX_TRANSACTIONS_PER_BLOCK);
        self.mempool = rest;
        let block = Block::new(previous_hash, id, timestamp, batch);
        let ghost before = self.chain@;
        self.chain.push(block);
        proof {
            assert(self.chain@.drop_last() =~= before);
        }
    }

    /// The first block holding a transaction whose content hash is
    /// `transaction_hash`, and a proof of its inclusion there; none when no
    /// block holds one.
    pub fn generate_merkle_proof(&self, transaction_hash: &Vec<u8>) -> (r: Option<MerkleProof>)
        ensures
            match r {
                Some(p) => exists|k: int|
                    {
                        &&& 0 <= k < self.chain@.len()
                        &&& self.chain@[k].leaves().contains(transaction_hash@)
                        &&& forall|j: int|
                            0 <= j < k ==> !(#[trigger] self.chain@[j].leaves()).contains(
                                transaction_hash@,
                            )
                        &&& p.leaf@ == transaction_hash@
                        &&& merkle_path_of(self.chain@[k].leaves(), transaction_hash@) == Some(
                            path_view(p.path@),
                        )
                        &&& merkle_root_of(self.chain@[k].leaves()) == Some(p.recomputed_root())
                    },
                None => forall|k: int|
                    0 <= k < self.chain@.len() ==> !(#[trigger] self.chain@[k].leaves()).contains(
                        transaction_hash@,
                    ),
            },
    {
        for i in 0..self.chain.len()
            invariant
                forall|j: int|
                    0 <= j < i ==> !(#[trigger] self.chain@[j].leaves()).contains(
                        transaction_hash@,
                    ),
        {
            let ghost leaves = self.chain@[i as int].leaves();
            proof {
                leaves.index_of_first_ensures(transaction_hash@);
            }
            match self.chain[i].generate_merkle_path(transaction_hash) {
                Some(path) => {
                    let proof = MerkleProof::new(copy_bytes(transaction_hash.as_slice()), path);
                    proof {
                        lemma_inclusion_path_verifies(leaves, transaction_hash@);
                    }
                    return Some(proof);
                },
                None => {},
            }
        }
        None
    }

    /// The hash that the next block names as its previous hash: the last
    /// block's hash, or 32 zero bytes when it has none.
    fn get_latest_block_hash(&self) -> (r: Vec<u8>)
        requires
            self.wf(),
        ensures
            r@ == hash_after(self.chain@.last()),
    {
        match &self.chain[self.chain.len() - 1].hash {
            Some(h) => copy_bytes(h.as_slice()),
            None => vec![0u8; 32],
        }
    }
}

} // verus!

verus! {

/// Altering the stored hash of one block of a valid chain is detected. The
/// blocks before it still pass; the block itself, unless it is the genesis
/// block, fails the self-hash check with an intact link, so validation
/// reports it first as a self-hash mismatch; and the block after it, if
/// any, no longer links to it.
pub proof fn lemma_altered_hash_detected(original: Seq<Block>, altered: Seq<Block>, i: int)
    requires
        chain_valid(original),
        0 <= i < original.len(),
        altered.len() == original.len(),
        forall|j: int| 0 <= j < original.len() && j != i ==> altered[j] == original[j],
        altered[i].id == original[i].id,
        altered[i].timestamp == original[i].timestamp,
        altered[i].previous_hash == original[i].previous_hash,
        altered[i].merkle_root == original[i].merkle_root,
        altered[i].transactions == original[i].transactions,
        opt_bytes(altered[i].hash) != opt_bytes(original[i].hash),
    ensures
        forall|j: int| 1 <= j < i ==> #[trigger] block_ok(altered, j),
        1 <= i ==> link_ok(altered, i) && !self_hash_ok(altered[i]),
        1 <= i ==> fault_at(altered, i) == LinkFault::SelfHashMismatch,
        i + 1 < altered.len() ==> !link_ok(altered, i + 1),
        1 <= i || i + 1 < altered.len() ==> !chain_valid(altered),
{
    assert forall|j: int| 1 <= j < i implies #[trigger] block_ok(altered, j) by {
        assert(block_ok(original, j));
    }
    if 1 <= i {
        assert(block_ok(original, i));
        assert(altered[i].spec_hash() == original[i].spec_hash());
        assert(!block_ok(altered, i));
    }
    if i + 1 < altered.len() {
        assert(block_ok(original, i + 1));
        assert(!block_ok(altered, i + 1));
    }
}

} // verus!
