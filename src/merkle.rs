//! Merkle trees over ordered leaf digests: the root, and the inclusion path
//! of one leaf.
//!
//! A layer with an odd number of nodes is padded by pairing its last node
//! with itself, at every level of the tree.

use crate::hashing::{bytes_equal, copy_bytes, hash_pair, node_digest};
use vstd::prelude::*;

verus! {

/// The byte strings held by a sequence of vectors.
pub open spec fn digests_of(v: Seq<Vec<u8>>) -> Seq<Seq<u8>> {
    Seq::new(v.len(), |i: int| v[i]@)
}

/// The byte string held by an optional vector.
pub open spec fn opt_bytes(o: Option<Vec<u8>>) -> Option<Seq<u8>> {
    match o {
        Some(v) => Some(v@),
        None => None,
    }
}

/// The right partner of node `2 * i` of `layer`: its right neighbour, or the
/// node itself when it is the last node of an odd layer.
pub open spec fn right_partner(layer: Seq<Seq<u8>>, i: int) -> Seq<u8> {
    if 2 * i + 1 < layer.len() {
        layer[2 * i + 1]
    } else {
        layer[2 * i]
    }
}

/// The layer above `layer`: one node per adjacent pair, in order.
pub open spec fn next_layer(layer: Seq<Seq<u8>>) -> Seq<Seq<u8>> {
    Seq::new(
        ((layer.len() + 1) / 2) as nat,
        |i: int| node_digest(layer[2 * i], right_partner(layer, i)),
    )
}

/// The root over a non-empty layer: the single node left after combining
/// layers until one node remains.
pub open spec fn root_of_layer(layer: Seq<Seq<u8>>) -> Seq<u8>
    decreases layer.len(),
{
    if layer.len() <= 1 {
        layer[0]
    } else {
        root_of_layer(next_layer(layer))
    }
}

/// The Merkle root of an ordered leaf sequence; none for no leaves.
pub open spec fn merkle_root_of(leaves: Seq<Seq<u8>>) -> Option<Seq<u8>> {
    if leaves.len() == 0 {
        None
    } else {
        Some(root_of_layer(leaves))
    }
}

/// The sibling of node `idx` in `layer`; a last node of an odd layer is its
/// own sibling.
pub open spec fn sibling_of(layer: Seq<Seq<u8>>, idx: int) -> Seq<u8> {
    if idx % 2 == 1 {
        layer[idx - 1]
    } else if idx + 1 < layer.len() {
        layer[idx + 1]
    } else {
        layer[idx]
    }
}

/// The path from node `idx` of `layer` up to the root: for each layer below
/// the root, the sibling and whether the node on the path is a right child.
pub open spec fn path_from(layer: Seq<Seq<u8>>, idx: int) -> Seq<(Seq<u8>, bool)>
    decreases layer.len(),
{
    if layer.len() <= 1 {
        Seq::empty()
    } else {
        seq![(sibling_of(layer, idx), idx % 2 == 1)] + path_from(next_layer(layer), idx / 2)
    }
}

/// The inclusion path of `target`, taken at its first occurrence among the
/// leaves; none when it is not a leaf.
pub open spec fn merkle_path_of(leaves: Seq<Seq<u8>>, target: Seq<u8>) -> Option<
    Seq<(Seq<u8>, bool)>,
> {
    match leaves.index_of_first(target) {
        Some(i) => Some(path_from(leaves, i)),
        None => None,
    }
}

/// The (sibling, is-right) steps held by a vector of path steps.
pub open spec fn path_view(path: Seq<(Vec<u8>, bool)>) -> Seq<(Seq<u8>, bool)> {
    Seq::new(path.len(), |i: int| (path[i].0@, path[i].1))
}

/// One step up the tree: the node on the path is the right operand when
/// `step.1` holds, the left one otherwise.
pub open spec fn apply_step(current: Seq<u8>, step: (Seq<u8>, bool)) -> Seq<u8> {
    if step.1 {
        node_digest(step.0, current)
    } else {
        node_digest(current, step.0)
    }
}

/// The digest recomputed from `current` by applying every step of `path`
/// in order.
pub open spec fn fold_path(current: Seq<u8>, path: Seq<(Seq<u8>, bool)>) -> Seq<u8>
    decreases path.len(),
{
    if path.len() == 0 {
        current
    } else {
        fold_path(apply_step(current, path[0]), path.drop_first())
    }
}

proof fn lemma_next_layer_len(layer: Seq<Seq<u8>>)
    ensures
        next_layer(layer).len() == (layer.len() + 1) / 2,
        layer.len() > 1 ==> 1 <= next_layer(layer).len() < layer.len(),
        layer.len() == 1 ==> next_layer(layer).len() == 1,
{
}

/// The layer above `layer`: each adjacent pair hashed into one node, the
/// last node of an odd layer paired with itself.
pub fn build_layer(layer: &Vec<Vec<u8>>) -> (r: Vec<Vec<u8>>)
    ensures
        digests_of(r@) == next_layer(digests_of(layer@)),
{
    let n = layer.len();
    let pairs = n / 2 + n % 2;
    let ghost l = digests_of(layer@);
    let mut out: Vec<Vec<u8>> = Vec::new();
    for k in 0..pairs
        invariant
            n == layer@.len(),
            pairs == (n + 1) / 2,
            l == digests_of(layer@),
            out@.len() == k,
            forall|j: int|
                0 <= j < k ==> #[trigger] out@[j]@ == node_digest(l[2 * j], right_partner(l, j)),
    {
        let left = &layer[2 * k];
        let node = if 2 * k + 1 < n {
            hash_pair(left.as_slice(), layer[2 * k + 1].as_slice())
        } else {
            hash_pair(left.as_slice(), left.as_slice())
        };
        out.push(node);
    }
    proof {
        assert(digests_of(out@) =~= next_layer(l));
    }
    out
}

/// A fresh copy of a layer of digests.
fn copy_layer(layer: &Vec<Vec<u8>>) -> (r: Vec<Vec<u8>>)
    ensures
        digests_of(r@) == digests_of(layer@),
{
    let mut out: Vec<Vec<u8>> = Vec::new();
    for k in 0..layer.len()
        invariant
            out@.len() == k,
            forall|j: int| 0 <= j < k ==> #[trigger] out@[j]@ == layer@[j]@,
    {
        out.push(copy_bytes(layer[k].as_slice()));
    }
    proof {
        assert(digests_of(out@) =~= digests_of(layer@));
    }
    out
}

/// The Merkle root of the ordered leaf digests `leaves`, or none when there
/// are no leaves.
pub fn merkle_root(leaves: &Vec<Vec<u8>>) -> (r: Option<Vec<u8>>)
    ensures
        opt_bytes(r) == merkle_root_of(digests_of(leaves@)),
{
    if leaves.len() == 0 {
        return None;
    }
    let ghost target = root_of_layer(digests_of(leaves@));
    let mut layer = copy_layer(leaves);
    while layer.len() > 1
        invariant
            layer@.len() >= 1,
            root_of_layer(digests_of(layer@)) == target,
        decreases layer@.len(),
    {
        proof {
            lemma_next_layer_len(digests_of(layer@));
        }
        layer = build_layer(&layer);
    }
    Some(copy_bytes(layer[0].as_slice()))
}

/// Index of the first leaf equal to `target`, if any.
fn find_leaf(leaves: &Vec<Vec<u8>>, target: &Vec<u8>) -> (r: Option<usize>)
    ensures
        match r {
            Some(i) => i < leaves@.len() && digests_of(leaves@).index_of_first(target@) == Some(
                i as int,
            ),
            None => digests_of(leaves@).index_of_first(target@) is None,
        },
{
    let ghost l = digests_of(leaves@);
    proof {
        l.index_of_first_ensures(target@);
    }
    for i in 0..leaves.len()
        invariant
            l == digests_of(leaves@),
            forall|j: int| 0 <= j < i ==> l[j] != target@,
            match l.index_of_first(target@) {
                Some(index) => {
                    &&& l.contains(target@)
                    &&& 0 <= index < l.len()
                    &&& l[index] == target@
                    &&& forall|j: int| 0 <= j < index < l.len() ==> l[j] != target@
                },
                None => !l.contains(target@),
            },
    {
        if bytes_equal(leaves[i].as_slice(), target.as_slice()) {
            assert(l[i as int] == target@);
            return Some(i);
        }
    }
    None
}

/// The inclusion path of `target` among the ordered leaf digests `leaves`,
/// from the bottom layer to just below the root; none when `target` is not a
/// leaf. Of equal leaves, the first one is taken.
pub fn merkle_path(leaves: &Vec<Vec<u8>>, target: &Vec<u8>) -> (r: Option<Vec<(Vec<u8>, bool)>>)
    ensures
        match r {
            Some(p) => merkle_path_of(digests_of(leaves@), target@) == Some(path_view(p@)),
            None => merkle_path_of(digests_of(leaves@), target@) is None,
        },
{
    let first = find_leaf(leaves, target);
    let start = match first {
        Some(i) => i,
        None => {
            return None;
        },
    };
    let ghost full = path_from(digests_of(leaves@), start as int);
    let mut layer = copy_layer(leaves);
    let mut idx = start;
    assert(digests_of(layer@).len() == layer@.len());
    let mut path: Vec<(Vec<u8>, bool)> = Vec::new();
    while layer.len() > 1
        invariant
            idx < layer@.len(),
            path_view(path@) + path_from(digests_of(layer@), idx as int) == full,
        decreases layer@.len(),
    {
        let ghost l = digests_of(layer@);
        let is_right = idx % 2 == 1;
        let sibling = if is_right {
            copy_bytes(layer[idx - 1].as_slice())
        } else if idx + 1 < layer.len() {
            copy_bytes(layer[idx + 1].as_slice())
        } else {
            copy_bytes(layer[idx].as_slice())
        };
        let ghost old_path = path@;
        path.push((sibling, is_right));
        proof {
            lemma_next_layer_len(l);
            let step = (sibling_of(l, idx as int), is_right);
            let upper = path_from(next_layer(l), idx as int / 2);
            assert(path_view(path@) =~= path_view(old_path).push(step));
            assert(path_from(l, idx as int) == seq![step] + upper);
            assert(path_view(path@) + upper =~= path_view(old_path) + path_from(l, idx as int));
        }
        layer = build_layer(&layer);
        idx = idx / 2;
    }
    proof {
        assert(path_view(path@) + Seq::<(Seq<u8>, bool)>::empty() =~= path_view(path@));
    }
    Some(path)
}

proof fn lemma_fold_prepend(current: Seq<u8>, step: (Seq<u8>, bool), rest: Seq<(Seq<u8>, bool)>)
    ensures
        fold_path(current, seq![step] + rest) == fold_path(apply_step(current, step), rest),
{
    let p = seq![step] + rest;
    assert(p.drop_first() =~= rest);
    assert(p[0] == step);
}

proof fn lemma_path_reaches_root(layer: Seq<Seq<u8>>, idx: int)
    requires
        0 <= idx < layer.len(),
    ensures
        fold_path(layer[idx], path_from(layer, idx)) == root_of_layer(layer),
    decreases layer.len(),
{
    if layer.len() > 1 {
        let next = next_layer(layer);
        lemma_next_layer_len(layer);
        let step = (sibling_of(layer, idx), idx % 2 == 1);
        assert(apply_step(layer[idx], step) == next[idx / 2]);
        lemma_fold_prepend(layer[idx], step, path_from(next, idx / 2));
        lemma_path_reaches_root(next, idx / 2);
    }
}

/// A leaf's inclusion path recomputes the root: for every leaf sequence and
/// every leaf `d` in it, folding the path found for `d` over `d` gives the
/// Merkle root of the sequence.
pub proof fn lemma_inclusion_path_verifies(leaves: Seq<Seq<u8>>, d: Seq<u8>)
    requires
        leaves.contains(d),
    ensures
        merkle_path_of(leaves, d) is Some,
        merkle_root_of(leaves) is Some,
        fold_path(d, merkle_path_of(leaves, d).unwrap()) == merkle_root_of(leaves).unwrap(),
{
    leaves.index_of_first_ensures(d);
    let i = leaves.index_of_first(d).unwrap();
    lemma_path_reaches_root(leaves, i);
}

/// The root is a function of the ordered leaf digests alone: any two leaf
/// sequences holding the same non-empty list of digests have one and the
/// same root.
pub proof fn lemma_root_deterministic(a: Seq<Vec<u8>>, b: Seq<Vec<u8>>)
    requires
        a.len() > 0,
        digests_of(a) == digests_of(b),
    ensures
        merkle_root_of(digests_of(a)) is Some,
        merkle_root_of(digests_of(a)) == merkle_root_of(digests_of(b)),
{
}

/// A single leaf is its own root: no combining round takes place.
pub proof fn lemma_single_leaf_root(h: Seq<u8>)
    ensures
        merkle_root_of(seq![h]) == Some(h),
{
}

/// An odd layer is padded by repeating its last node: the root over three
/// leaves equals the root over the same leaves with the third one repeated,
/// that is the two pairs `(h1, h2)` and `(h3, h3)` combined.
pub proof fn lemma_odd_count_padding(h1: Seq<u8>, h2: Seq<u8>, h3: Seq<u8>)
    ensures
        merkle_root_of(seq![h1, h2, h3]) == merkle_root_of(seq![h1, h2, h3, h3]),
        merkle_root_of(seq![h1, h2, h3]) == Some(
            node_digest(node_digest(h1, h2), node_digest(h3, h3)),
        ),
{
    let odd = seq![h1, h2, h3];
    let even = seq![h1, h2, h3, h3];
    let pairs = seq![node_digest(h1, h2), node_digest(h3, h3)];
    let top = seq![node_digest(node_digest(h1, h2), node_digest(h3, h3))];
    assert(next_layer(odd) =~= pairs);
    assert(next_layer(even) =~= pairs);
    assert(next_layer(pairs) =~= top);
    assert(root_of_layer(odd) == root_of_layer(pairs));
    assert(root_of_layer(even) == root_of_layer(pairs));
    assert(root_of_layer(pairs) == root_of_layer(top));
}

} // verus!
