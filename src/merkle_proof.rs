//! An inclusion proof for one leaf, checked by recomputing the root from the
//! proof alone.

use crate::hashing::{bytes_equal, copy_bytes, hash_pair, sha256, sha256_digest};
use crate::merkle::{apply_step, fold_path, path_view};
use vstd::prelude::*;

verus! {

/// A leaf digest and its path to the root: for each layer from the bottom to
/// just below the root, the sibling digest and whether the node on the path
/// is the right child.
#[derive(Debug, Clone)]
pub struct MerkleProof {
    pub leaf: Vec<u8>,
    pub path: Vec<(Vec<u8>, bool)>,
}

impl MerkleProof {
    /// The root that this proof recomputes.
    pub open spec fn recomputed_root(&self) -> Seq<u8> {
        fold_path(self.leaf@, path_view(self.path@))
    }

    /// A proof made of `leaf` and `path`.
    pub fn new(leaf: Vec<u8>, path: Vec<(Vec<u8>, bool)>) -> (r: Self)
        ensures
            r.leaf == leaf,
            r.path == path,
    {
        MerkleProof { leaf, path }
    }

    /// Whether the root recomputed from this proof is `merkle_root`. No
    /// tree is consulted: each step hashes the current digest with the
    /// sibling, the sibling first when the current node is a right child.
    pub fn verify(&self, merkle_root: &Vec<u8>) -> (r: bool)
        ensures
            r == (self.recomputed_root() == merkle_root@),
    {
        let ghost steps = path_view(self.path@);
        let mut current = copy_bytes(self.leaf.as_slice());
        let n = self.path.len();
        assert(steps.skip(0) =~= steps);
        for i in 0..n
            invariant
                n == self.path@.len(),
                steps == path_view(self.path@),
                fold_path(current@, steps.skip(i as int)) == fold_path(self.leaf@, steps),
        {
            let step = &self.path[i];
            let next = if step.1 {
                hash_pair(step.0.as_slice(), current.as_slice())
            } else {
                hash_pair(current.as_slice(), step.0.as_slice())
            };
            proof {
                let rest = steps.skip(i as int);
                assert(rest[0] == steps[i as int]);
                assert(rest.drop_first() =~= steps.skip(i + 1));
                assert(next@ == apply_step(current@, rest[0]));
            }
            current = next;
        }
        proof {
            assert(steps.skip(n as int) =~= Seq::<(Seq<u8>, bool)>::empty());
        }
        bytes_equal(current.as_slice(), merkle_root.as_slice())
    }

    /// The SHA-256 digest of `data`.
    pub fn hash_function(data: &[u8]) -> (r: Vec<u8>)
        ensures
            r@ == sha256(data@),
            r@.len() == 32,
    {
        sha256_digest(data)
    }
}

} // verus!
