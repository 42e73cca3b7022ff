use dfim::digest::sha256_digest;
use dfim::merkle::{leaf_hash, parent_hash, verify_proof, MerkleTree};

fn sample_leaves(n: usize) -> Vec<Vec<u8>> {
    (0..n).map(|i| format!("leaf-{i}").into_bytes()).collect()
}

#[test]
fn merkle_single_bit_tamper_rejected() {
    let raw = sample_leaves(8);
    let leaves: Vec<&[u8]> = raw.iter().map(|v| v.as_slice()).collect();
    let tree = MerkleTree::build(&leaves).expect("build");
    let root = *tree.root();
    for (i, leaf) in leaves.iter().enumerate() {
        if leaf.is_empty() {
            continue;
        }
        for bit_byte in 0..leaf.len() {
            for bit in 0..8 {
                let mut tampered = leaf.to_vec();
                tampered[bit_byte] ^= 1u8 << bit;
                let proof = tree.prove(i).expect("prove");
                let ok = verify_proof(&root, &tampered, i, &proof).expect("verify");
                assert!(!ok, "tampered leaf {i} bit {bit_byte}:{bit} must fail");
            }
        }
    }
}

#[test]
fn merkle_forged_leaf_rejected() {
    let raw = sample_leaves(4);
    let leaves: Vec<&[u8]> = raw.iter().map(|v| v.as_slice()).collect();
    let tree = MerkleTree::build(&leaves).expect("build");
    let proof = tree.prove(0).expect("prove");
    let forged = b"forged-leaf-data";
    assert!(!verify_proof(tree.root(), forged, 0, &proof).expect("verify"), "forged leaf must be rejected");
}

#[test]
fn merkle_proof_index_swap_rejected() {
    let raw = sample_leaves(4);
    let leaves: Vec<&[u8]> = raw.iter().map(|v| v.as_slice()).collect();
    let tree = MerkleTree::build(&leaves).expect("build");
    let proof = tree.prove(0).expect("prove");
    assert!(!verify_proof(tree.root(), leaves[0], 1, &proof).expect("verify"), "proof must bind to leaf index");
}

#[test]
fn merkle_4096_leaves_build_verify() {
    let raw = sample_leaves(4096);
    let refs: Vec<&[u8]> = raw.iter().map(|v| v.as_slice()).collect();
    let tree = MerkleTree::build(&refs).expect("build");
    assert_eq!(tree.leaf_count(), 4096);
    for idx in [0, 1, 2047, 4095] {
        let proof = tree.prove(idx).expect("prove");
        assert!(verify_proof(tree.root(), refs[idx], idx, &proof).expect("verify"), "leaf {idx} must verify");
    }
}

#[test]
fn merkle_root_of_two_leaves_is_parent_of_leaf_hashes() {
    let tree = MerkleTree::build(&[b"a".as_slice(), b"b".as_slice()]).expect("build");
    let expected = parent_hash(&leaf_hash(b"a"), &leaf_hash(b"b"));
    assert_eq!(*tree.root(), expected);
    assert_eq!(leaf_hash(b"a"), sha256_digest(b"a"));
}

#[test]
fn merkle_build_rejects_no_leaves_and_prove_rejects_out_of_range() {
    assert!(MerkleTree::build(&[]).is_err());
    let tree = MerkleTree::build(&[b"only".as_slice()]).expect("build");
    assert!(tree.prove(1).is_err());
    let proof = tree.prove(0).expect("prove");
    assert!(proof.steps.is_empty());
    assert!(verify_proof(tree.root(), b"only", 0, &proof).expect("verify"));
}
