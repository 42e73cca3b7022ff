//! Merkle tree over SHA-256 leaf digests, with membership proofs of logarithmic length.
//!
//! A leaf hashes to `H(D_i)`; a parent to `H(left || right)`. A layer of odd length pairs its
//! last node with itself.
use vstd::prelude::*;
use vstd::arithmetic::power2::{pow2, lemma2_to64, lemma_pow2_unfold};
use crate::digest::{sha256_digest, sha256_of, SHA256_LEN};
use crate::crypto::constant_time_hash_eq;
use crate::error::DfimError;
use crate::observer::PatternObserver;

verus! {

/// Side of a sibling hash in a Merkle proof path.
#[derive(Debug, Clone, Copy, PartialEq, Eq, Structural)]
pub enum ProofSide {
    Left,
    Right,
}

/// One step of a Merkle membership proof: the sibling hash.
#[derive(Debug, Clone, Copy, PartialEq, Eq)]
pub struct ProofStep {
    pub sibling: [u8; SHA256_LEN],
}

/// A Merkle membership proof: one sibling per layer below the root.
#[derive(Debug, Clone, PartialEq, Eq)]
pub struct MerkleProof {
    pub steps: Vec<ProofStep>,
}

/// Parent of two nodes: `H(left || right)`.
pub open spec fn node_parent(left: Seq<u8>, right: Seq<u8>) -> Seq<u8> {
    sha256_of(left + right)
}

/// Index of the node paired with node `i` in a layer of `len` nodes (itself when it is last).
pub open spec fn sibling_index(i: int, len: int) -> int {
    if i % 2 == 0 {
        if i + 1 < len {
            i + 1
        } else {
            i
        }
    } else {
        i - 1
    }
}

/// The layer above `layer`.
pub open spec fn level_up(layer: Seq<Seq<u8>>) -> Seq<Seq<u8>> {
    Seq::new(
        ((layer.len() + 1) / 2) as nat,
        |j: int| node_parent(layer[2 * j], layer[sibling_index(2 * j, layer.len() as int)]),
    )
}

/// Root of the tree whose bottom layer is `layer`.
pub open spec fn tree_root(layer: Seq<Seq<u8>>) -> Seq<u8>
    decreases layer.len(),
{
    if layer.len() <= 1 {
        layer[0]
    } else {
        tree_root(level_up(layer))
    }
}

/// Leaf digests of raw leaves.
pub open spec fn leaf_digests(leaves: Seq<&[u8]>) -> Seq<Seq<u8>> {
    Seq::new(leaves.len(), |i: int| sha256_of(leaves[i]@))
}

/// Hash reached from `h` at index `idx` by folding in the siblings of `steps`, bottom up.
pub open spec fn path_hash(h: Seq<u8>, steps: Seq<Seq<u8>>, idx: nat) -> Seq<u8>
    decreases steps.len(),
{
    if steps.len() == 0 {
        h
    } else {
        let up = if idx % 2 == 0 {
            node_parent(h, steps[0])
        } else {
            node_parent(steps[0], h)
        };
        path_hash(up, steps.drop_first(), idx / 2)
    }
}

/// The sibling hashes of a proof.
pub open spec fn proof_siblings(p: MerkleProof) -> Seq<Seq<u8>> {
    Seq::new(p.steps@.len(), |k: int| p.steps@[k].sibling@)
}

/// Node index at layer `k` on the path of leaf `i`.
pub open spec fn index_at(i: nat, k: nat) -> nat
    decreases k,
{
    if k == 0 {
        i
    } else {
        index_at(i, (k - 1) as nat) / 2
    }
}

/// Digest view of a vector of layers.
pub open spec fn layers_of(v: Seq<Vec<[u8; SHA256_LEN]>>) -> Seq<Seq<Seq<u8>>> {
    Seq::new(v.len(), |k: int| Seq::new(v[k]@.len(), |j: int| v[k]@[j]@))
}

/// A layered tree: each layer is the level above the one below, the top layer alone holds
/// one node, and there are no more layers than leaves.
pub open spec fn layers_wf(layers: Seq<Seq<Seq<u8>>>) -> bool {
    &&& layers.len() >= 1
    &&& layers[0].len() >= 1
    &&& layers.len() <= layers[0].len()
    &&& layers[layers.len() - 1].len() == 1
    &&& forall|k: int| 0 <= k < layers.len() - 1 ==> #[trigger] layers[k].len() > 1
    &&& forall|k: int| 0 <= k < layers.len() - 1 ==> #[trigger] layers[k + 1] == level_up(layers[k])
}

/// The sibling path of leaf `i`: one sibling per layer below the top.
pub open spec fn proof_path(layers: Seq<Seq<Seq<u8>>>, i: nat) -> Seq<Seq<u8>> {
    Seq::new(
        (layers.len() - 1) as nat,
        |k: int| layers[k][sibling_index(index_at(i, k as nat) as int, layers[k].len() as int)],
    )
}

/// Merkle tree over SHA-256 leaf digests.
pub struct MerkleTree {
    root: [u8; SHA256_LEN],
    layers: Vec<Vec<[u8; SHA256_LEN]>>,
}

impl MerkleTree {
    /// The layers as digests, bottom (leaves) first.
    pub closed spec fn layers_view(self) -> Seq<Seq<Seq<u8>>> {
        layers_of(self.layers@)
    }

    /// Leaf digests.
    pub open spec fn leaf_hashes(self) -> Seq<Seq<u8>> {
        self.layers_view()[0]
    }

    /// The root digest.
    pub closed spec fn root_hash(self) -> Seq<u8> {
        self.root@
    }

    /// A tree built from its leaves: well-layered, with the top node as root.
    pub open spec fn wf(self) -> bool {
        &&& layers_wf(self.layers_view())
        &&& self.root_hash() == self.layers_view()[self.layers_view().len() - 1][0]
    }

    /// Builds the tree over the digests of the raw leaves.
    pub fn build(leaves: &[&[u8]]) -> (res: Result<MerkleTree, DfimError>)
        requires
            leaves@.len() <= usize::MAX / 3,
        ensures
            res is Ok <==> leaves@.len() > 0,
            res is Err ==> res == Err::<MerkleTree, DfimError>(DfimError::EmptyInput),
            res matches Ok(t) ==> t.wf() && t.leaf_hashes() == leaf_digests(leaves@)
                && t.root_hash() == tree_root(leaf_digests(leaves@)),
    {
        if leaves.len() == 0 {
            return Err(DfimError::EmptyInput);
        }
        let n = leaves.len();
        let cap = if n > usize::MAX / 3 {
            usize::MAX
        } else {
            n * 3
        };
        let mut observer = PatternObserver::new(cap)?;
        let mut current: Vec<[u8; SHA256_LEN]> = Vec::new();
        let mut i: usize = 0;
        while i < n
            invariant
                n == leaves@.len(),
                i <= n,
                cap == 3 * n || (cap == usize::MAX && 3 * n > usize::MAX),
                current@.len() == i,
                forall|j: int| 0 <= j < i ==> #[trigger] current@[j]@ == sha256_of(leaves@[j]@),
                observer.wf(),
                observer@.max_iterations == cap,
                observer@.count == i,
            decreases n - i,
        {
            observer.tick()?;
            current.push(leaf_hash(leaves[i]));
            i = i + 1;
        }
        let mut layers: Vec<Vec<[u8; SHA256_LEN]>> = Vec::new();
        layers.push(current);
        let mut top: usize = 0;
        assert(layers_of(layers@)[0] =~= leaf_digests(leaves@));
        while layers[top].len() > 1
            invariant
                n == leaves@.len() >= 1,
                n <= usize::MAX / 3,
                cap == 3 * n || (cap == usize::MAX && 3 * n > usize::MAX),
                layers@.len() == top + 1,
                layers_of(layers@)[0] == leaf_digests(leaves@),
                layers_of(layers@)[top as int].len() >= 1,
                top + layers_of(layers@)[top as int].len() <= n,
                forall|k: int| 0 <= k < top ==> #[trigger] layers_of(layers@)[k].len() > 1,
                forall|k: int|
                    0 <= k < top ==> #[trigger] layers_of(layers@)[k + 1] == level_up(
                        layers_of(layers@)[k],
                    ),
                observer.wf(),
                observer@.max_iterations == cap,
                observer@.count + 2 * layers_of(layers@)[top as int].len() <= 3 * n,
            decreases layers_of(layers@)[top as int].len(),
        {
            let ghost before = layers_of(layers@);
            let cur: &Vec<[u8; SHA256_LEN]> = &layers[top];
            let ghost cur_view = before[top as int];
            assert(cur_view.len() == cur@.len());
            let mut next: Vec<[u8; SHA256_LEN]> = Vec::new();
            let ghost count0 = observer@.count;
            let mut i: usize = 0;
            while i < cur.len()
                invariant
                    i % 2 == 0,
                    i <= cur@.len() + 1,
                    cur@.len() < usize::MAX,
                    cur@.len() >= 2,
                    n <= usize::MAX / 3,
                    cur_view.len() == cur@.len(),
                    forall|j: int| 0 <= j < cur@.len() ==> #[trigger] cur_view[j] == cur@[j]@,
                    next@.len() == i / 2,
                    forall|j: int|
                        0 <= j < next@.len() ==> #[trigger] next@[j]@ == level_up(cur_view)[j],
                    cap == 3 * n || (cap == usize::MAX && 3 * n > usize::MAX),
                    observer.wf(),
                    observer@.max_iterations == cap,
                    observer@.count == count0 + i / 2,
                    count0 + 2 * cur@.len() <= 3 * n,
                decreases cur@.len() + 1 - i,
            {
                observer.tick()?;
                let left = cur[i];
                let right = if i + 1 < cur.len() {
                    cur[i + 1]
                } else {
                    cur[i]
                };
                next.push(parent_hash(&left, &right));
                i = i + 2;
            }
            assert(next@.len() == (cur@.len() + 1) / 2);
            layers.push(next);
            top = top + 1;
            proof {
                let after = layers_of(layers@);
                assert forall|k: int| 0 <= k < top implies #[trigger] after[k] == before[k] by {
                    assert(after[k] =~= before[k]);
                }
                assert(after[top as int] =~= level_up(before[top - 1]));
                assert(after[0] == leaf_digests(leaves@));
            }
        }
        let root = layers[top][0];
        let t = MerkleTree { root, layers };
        proof {
            let lv = layers_of(t.layers@);
            assert(lv.len() <= lv[0].len());
            lemma_layers_root(lv, 0);
        }
        Ok(t)
    }

    /// The root digest.
    pub fn root(&self) -> (r: &[u8; SHA256_LEN])
        ensures
            r@ == self.root_hash(),
    {
        &self.root
    }

    /// Number of leaves.
    pub fn leaf_count(&self) -> (c: usize)
        ensures
            c == if self.layers_view().len() == 0 {
                0
            } else {
                self.leaf_hashes().len()
            },
    {
        if self.layers.len() == 0 {
            0
        } else {
            self.layers[0].len()
        }
    }

    /// Membership proof for the leaf at `index`: its sibling at every layer below the root.
    pub fn prove(&self, index: usize) -> (res: Result<MerkleProof, DfimError>)
        requires
            self.wf(),
        ensures
            res is Ok <==> index < self.leaf_hashes().len(),
            res is Err ==> res == Err::<MerkleProof, DfimError>(DfimError::InvalidParameter),
            res matches Ok(p) ==> proof_siblings(p) == proof_path(self.layers_view(), index as nat),
    {
        let leaf_count = self.leaf_count();
        if index >= leaf_count {
            return Err(DfimError::InvalidParameter);
        }
        let ghost lv = self.layers_view();
        let mut steps: Vec<ProofStep> = Vec::new();
        let mut idx = index;
        let cap = if leaf_count > 1001 {
            leaf_count
        } else {
            1001
        };
        let mut observer = PatternObserver::new(cap)?;
        let height = self.layers.len();
        let mut k: usize = 0;
        while k < height - 1
            invariant
                self.wf(),
                lv == self.layers_view(),
                height == lv.len(),
                height <= leaf_count,
                leaf_count == lv[0].len(),
                leaf_count <= cap,
                k <= height - 1,
                idx == index_at(index as nat, k as nat),
                idx < lv[k as int].len(),
                steps@.len() == k,
                forall|j: int|
                    0 <= j < k ==> #[trigger] steps@[j].sibling@ == proof_path(lv, index as nat)[j],
                observer.wf(),
                observer@.max_iterations == cap,
                observer@.count == k,
            decreases height - 1 - k,
        {
            observer.tick()?;
            let layer: &Vec<[u8; SHA256_LEN]> = &self.layers[k];
            assert(layer@.len() == lv[k as int].len());
            let sibling_idx = if idx % 2 == 0 {
                if idx + 1 < layer.len() {
                    idx + 1
                } else {
                    idx
                }
            } else {
                idx - 1
            };
            steps.push(ProofStep { sibling: layer[sibling_idx] });
            proof {
                assert(lv[k + 1] == level_up(lv[k as int]));
            }
            idx = idx / 2;
            k = k + 1;
        }
        let p = MerkleProof { steps };
        assert(proof_siblings(p) =~= proof_path(lv, index as nat));
        Ok(p)
    }
}

/// Parent digest: `H(left || right)`.
pub fn parent_hash(left: &[u8; SHA256_LEN], right: &[u8; SHA256_LEN]) -> (h: [u8; SHA256_LEN])
    ensures
        h@ == node_parent(left@, right@),
{
    let mut buf: Vec<u8> = Vec::new();
    let mut i: usize = 0;
    while i < SHA256_LEN
        invariant
            i <= SHA256_LEN,
            buf@ == left@.subrange(0, i as int),
        decreases SHA256_LEN - i,
    {
        buf.push(left[i]);
        i = i + 1;
    }
    let mut j: usize = 0;
    while j < SHA256_LEN
        invariant
            j <= SHA256_LEN,
            buf@ == left@ + right@.subrange(0, j as int),
        decreases SHA256_LEN - j,
    {
        buf.push(right[j]);
        j = j + 1;
    }
    assert(buf@ =~= left@ + right@);
    sha256_digest(buf.as_slice())
}

/// Leaf digest: `H(D_i)`.
pub fn leaf_hash(data: &[u8]) -> (h: [u8; SHA256_LEN])
    ensures
        h@ == sha256_of(data@),
{
    sha256_digest(data)
}

/// Checks a membership proof for `leaf_data` at `leaf_index` against a published root.
pub fn verify_proof(
    root: &[u8; SHA256_LEN],
    leaf_data: &[u8],
    leaf_index: usize,
    proof: &MerkleProof,
) -> (res: Result<bool, DfimError>)
    ensures
        res matches Ok(b) && b == (path_hash(
            sha256_of(leaf_data@),
            proof_siblings(*proof),
            leaf_index as nat,
        ) == root@),
{
    let mut hash = leaf_hash(leaf_data);
    let mut index = leaf_index;
    let n = proof.steps.len();
    let cap = if n > 1001 {
        n
    } else {
        1001
    };
    let mut observer = PatternObserver::new(cap)?;
    let ghost sibs = proof_siblings(*proof);
    assert(sibs.subrange(0, n as int) =~= sibs);
    let mut k: usize = 0;
    while k < n
        invariant
            n == proof.steps@.len(),
            sibs == proof_siblings(*proof),
            k <= n,
            n <= cap,
            path_hash(hash@, sibs.subrange(k as int, n as int), index as nat) == path_hash(
                sha256_of(leaf_data@),
                sibs,
                leaf_index as nat,
            ),
            observer.wf(),
            observer@.max_iterations == cap,
            observer@.count == k,
        decreases n - k,
    {
        observer.tick()?;
        let sibling = proof.steps[k].sibling;
        let ghost rest = sibs.subrange(k as int, n as int);
        assert(rest.drop_first() =~= sibs.subrange(k + 1, n as int));
        hash = if index % 2 == 0 {
            parent_hash(&hash, &sibling)
        } else {
            parent_hash(&sibling, &hash)
        };
        index = index / 2;
        k = k + 1;
    }
    assert(sibs.subrange(n as int, n as int) =~= Seq::<Seq<u8>>::empty());
    Ok(constant_time_hash_eq(&hash, root))
}

/// The top node of a layered tree is the root of its bottom layer.
pub proof fn lemma_layers_root_public(layers: Seq<Seq<Seq<u8>>>)
    requires
        layers_wf(layers),
    ensures
        tree_root(layers[0]) == layers[layers.len() - 1][0],
{
    lemma_layers_root(layers, 0);
}

proof fn lemma_layers_root(layers: Seq<Seq<Seq<u8>>>, k: int)
    requires
        layers_wf(layers),
        0 <= k < layers.len(),
    ensures
        tree_root(layers[k]) == layers[layers.len() - 1][0],
    decreases layers.len() - k,
{
    if k < layers.len() - 1 {
        lemma_layers_root(layers, k + 1);
        assert(layers[k + 1] == level_up(layers[k]));
    }
}

proof fn lemma_path_from(layers: Seq<Seq<Seq<u8>>>, i: nat, k: nat)
    requires
        layers_wf(layers),
        i < layers[0].len(),
        k < layers.len(),
        index_at(i, k) < layers[k as int].len(),
    ensures
        path_hash(
            layers[k as int][index_at(i, k) as int],
            proof_path(layers, i).subrange(k as int, layers.len() - 1),
            index_at(i, k),
        ) == layers[layers.len() - 1][0],
    decreases layers.len() - k,
{
    let last = layers.len() - 1;
    let path = proof_path(layers, i);
    let steps = path.subrange(k as int, last);
    if k < last {
        let idx = index_at(i, k);
        let layer = layers[k as int];
        let up = layers[(k + 1) as int];
        assert(up == level_up(layer));
        assert(index_at(i, (k + 1) as nat) == idx / 2);
        let j = idx / 2;
        assert(j < up.len());
        assert(steps[0] == layer[sibling_index(idx as int, layer.len() as int)]);
        if idx % 2 == 0 {
            assert(node_parent(layer[idx as int], steps[0]) == up[j as int]);
        } else {
            assert(sibling_index(2 * (j as int), layer.len() as int) == idx);
            assert(node_parent(steps[0], layer[idx as int]) == up[j as int]);
        }
        assert(steps.drop_first() =~= path.subrange((k + 1) as int, last));
        lemma_path_from(layers, i, (k + 1) as nat);
    } else {
        assert(steps =~= Seq::<Seq<u8>>::empty());
        assert(layers[last].len() == 1);
    }
}

/// A membership proof produced by a tree verifies: folding the siblings of leaf `i`'s path
/// into the leaf digest gives the root.
pub proof fn law_membership_proof_verifies(t: MerkleTree, i: nat, p: MerkleProof)
    requires
        t.wf(),
        i < t.leaf_hashes().len(),
        proof_siblings(p) == proof_path(t.layers_view(), i),
    ensures
        path_hash(t.leaf_hashes()[i as int], proof_siblings(p), i) == t.root_hash(),
        t.root_hash() == tree_root(t.leaf_hashes()),
{
    let layers = t.layers_view();
    lemma_path_from(layers, i, 0);
    assert(proof_path(layers, i).subrange(0, layers.len() - 1) =~= proof_path(layers, i));
    lemma_layers_root(layers, 0);
}

/// All layers of the tree over `layer`, bottom first.
pub open spec fn tree_layers(layer: Seq<Seq<u8>>) -> Seq<Seq<Seq<u8>>>
    decreases layer.len(),
{
    if layer.len() <= 1 {
        seq![layer]
    } else {
        seq![layer] + tree_layers(level_up(layer))
    }
}

/// A layered tree is determined by its leaves: its layers are `tree_layers` of the bottom.
pub proof fn lemma_layers_determined(layers: Seq<Seq<Seq<u8>>>, k: int)
    requires
        layers_wf(layers),
        0 <= k < layers.len(),
    ensures
        layers.subrange(k, layers.len() as int) == tree_layers(layers[k]),
    decreases layers.len() - k,
{
    if k == layers.len() - 1 {
        assert(layers.subrange(k, layers.len() as int) =~= seq![layers[k]]);
    } else {
        lemma_layers_determined(layers, k + 1);
        assert(layers[k + 1] == level_up(layers[k]));
        assert(layers.subrange(k, layers.len() as int) =~= seq![layers[k]] + layers.subrange(
            k + 1,
            layers.len() as int,
        ));
    }
}

/// A tree over at most `2^k` leaves has at most `k + 1` layers.
pub proof fn lemma_tree_height(layer: Seq<Seq<u8>>, k: nat)
    requires
        1 <= layer.len() <= pow2(k),
    ensures
        1 <= tree_layers(layer).len() <= k + 1,
    decreases k,
{
    if layer.len() > 1 {
        if k == 0 {
            lemma2_to64();
            assert(false);
        } else {
            lemma_pow2_unfold(k);
            lemma_tree_height(level_up(layer), (k - 1) as nat);
        }
    }
}

/// The layers built over a non-empty bottom layer are well layered.
pub proof fn lemma_tree_layers_wf(x: Seq<Seq<u8>>)
    requires
        x.len() >= 1,
    ensures
        layers_wf(tree_layers(x)),
        tree_layers(x)[0] == x,
    decreases x.len(),
{
    let l = tree_layers(x);
    if x.len() > 1 {
        let up = level_up(x);
        lemma_tree_layers_wf(up);
        let r = tree_layers(up);
        assert(l =~= seq![x] + r);
        assert forall|k: int| 0 <= k < l.len() - 1 implies #[trigger] l[k].len() > 1 by {
            if k > 0 {
                assert(l[k] == r[k - 1]);
            }
        }
        assert forall|k: int| 0 <= k < l.len() - 1 implies #[trigger] l[k + 1] == level_up(l[k]) by {
            assert(l[k + 1] == r[k]);
            if k > 0 {
                assert(l[k] == r[k - 1]);
                let k1 = k - 1;
                assert(r[k1 + 1] == level_up(r[k1]));
            } else {
                assert(r[0] == up);
            }
        }
    }
}

/// Every node of the layers built over 32-byte digests is 32 bytes long.
pub proof fn lemma_tree_nodes_len(x: Seq<Seq<u8>>)
    requires
        forall|i: int| 0 <= i < x.len() ==> #[trigger] x[i].len() == 32,
    ensures
        forall|k: int, j: int|
            0 <= k < tree_layers(x).len() && 0 <= j < tree_layers(x)[k].len() ==> #[trigger] tree_layers(
                x,
            )[k][j].len() == 32,
    decreases x.len(),
{
    let l = tree_layers(x);
    if x.len() > 1 {
        let up = level_up(x);
        lemma_tree_nodes_len(up);
        assert(l =~= seq![x] + tree_layers(up));
        assert forall|k: int, j: int| 0 <= k < l.len() && 0 <= j < l[k].len() implies #[trigger] l[k][j].len()
            == 32 by {
            if k > 0 {
                assert(l[k] == tree_layers(up)[k - 1]);
            }
        }
    }
}

/// The sibling path of any leaf, folded into that leaf, reaches the root of the tree over
/// the leaves.
pub proof fn law_path_reaches_root(x: Seq<Seq<u8>>, i: nat)
    requires
        i < x.len(),
    ensures
        path_hash(x[i as int], proof_path(tree_layers(x), i), i) == tree_root(x),
{
    lemma_tree_layers_wf(x);
    let layers = tree_layers(x);
    lemma_path_from(layers, i, 0);
    assert(proof_path(layers, i).subrange(0, layers.len() - 1) =~= proof_path(layers, i));
    lemma_layers_root(layers, 0);
}

proof fn lemma_index_at_bound(layers: Seq<Seq<Seq<u8>>>, i: nat, k: nat)
    requires
        layers_wf(layers),
        i < layers[0].len(),
        k < layers.len(),
    ensures
        index_at(i, k) < layers[k as int].len(),
    decreases k,
{
    if k > 0 {
        lemma_index_at_bound(layers, i, (k - 1) as nat);
        let k1 = (k - 1) as int;
        assert(layers[k1 + 1] == level_up(layers[k1]));
    }
}

/// The siblings on a leaf's path over 32-byte digests are 32-byte digests, and the path is
/// one shorter than the tree is high.
pub proof fn lemma_path_nodes(x: Seq<Seq<u8>>, i: nat)
    requires
        i < x.len(),
        forall|j: int| 0 <= j < x.len() ==> #[trigger] x[j].len() == 32,
    ensures
        proof_path(tree_layers(x), i).len() == tree_layers(x).len() - 1,
        forall|k: int|
            0 <= k < proof_path(tree_layers(x), i).len() ==> #[trigger] proof_path(tree_layers(x), i)[k].len()
                == 32,
{
    lemma_tree_layers_wf(x);
    lemma_tree_nodes_len(x);
    let layers = tree_layers(x);
    assert forall|k: int| 0 <= k < proof_path(layers, i).len() implies #[trigger] proof_path(layers, i)[k].len()
        == 32 by {
        lemma_index_at_bound(layers, i, k as nat);
        let idx = index_at(i, k as nat) as int;
        let s = sibling_index(idx, layers[k].len() as int);
        assert(0 <= s < layers[k].len());
        assert(layers[k][s].len() == 32);
    }
}

} // verus!
