use ark_crypto_primitives::commitment::blake2s::Commitment;
use ark_crypto_primitives::CommitmentScheme;
use battleship_zk::commitment::{
    commit, digests_equal, generate_commitments, generate_randomness, COMMITMENT_BYTES,
};
use battleship_zk::moves::verify_move;

fn blinding(seed: u8) -> Vec<u8> {
    (0..32u8).map(|i| i.wrapping_mul(7).wrapping_add(seed)).collect()
}

#[test]
fn commit_is_blake2s_commitment() {
    let r = blinding(3);
    let mut arr = [0u8; 32];
    arr.copy_from_slice(&r);
    let expected = Commitment::commit(&(), &[1u8], &arr).unwrap().to_vec();
    let digest = commit(1, &r);
    assert_eq!(digest, expected);
    assert_eq!(digest.len(), COMMITMENT_BYTES);
    assert_ne!(digest, r);
}

#[test]
fn commit_is_deterministic() {
    let r = blinding(9);
    assert_eq!(commit(0, &r), commit(0, &r));
    assert_eq!(commit(1, &r), commit(1, &r.clone()));
}

#[test]
fn commit_changes_with_value_or_randomness() {
    let r = blinding(9);
    let s = blinding(10);
    assert_ne!(commit(0, &r), commit(1, &r));
    assert_ne!(commit(1, &r), commit(1, &s));
}

#[test]
fn generate_randomness_gives_one_value_per_cell() {
    let rs = generate_randomness(9);
    assert_eq!(rs.len(), 9);
    for r in &rs {
        assert_eq!(r.len(), 32);
    }
    assert_ne!(rs[0], rs[1]);
    assert!(generate_randomness(0).is_empty());
}

#[test]
fn generate_commitments_commits_each_cell() {
    let board = vec![1u8, 0, 1, 0];
    let rs: Vec<Vec<u8>> = (0..4u8).map(blinding).collect();
    let comms = generate_commitments(&board, &rs);
    assert_eq!(comms.len(), 4);
    for i in 0..4 {
        assert_eq!(comms[i], commit(board[i], &rs[i]));
    }
}

#[test]
fn digests_equal_compares_bytes() {
    assert!(digests_equal(&vec![1, 2, 3], &vec![1, 2, 3]));
    assert!(!digests_equal(&vec![1, 2, 3], &vec![1, 2, 4]));
    assert!(!digests_equal(&vec![1, 2], &vec![1, 2, 3]));
    assert!(digests_equal(&vec![], &vec![]));
}

#[test]
fn true_opening_passes_move_check() {
    let r = blinding(5);
    let c = commit(1, &r);
    assert!(verify_move(1, &r, &c));
    let c0 = commit(0, &r);
    assert!(verify_move(0, &r, &c0));
}

#[test]
fn false_value_fails_move_check() {
    let r = blinding(5);
    let c = commit(1, &r);
    assert!(!verify_move(0, &r, &c));
}

#[test]
fn false_randomness_fails_move_check() {
    let r = blinding(5);
    let c = commit(1, &r);
    assert!(!verify_move(1, &blinding(6), &c));
}

#[test]
fn short_randomness_fails_move_check() {
    let r = blinding(5);
    let c = commit(1, &r);
    let mut short = r.clone();
    short.pop();
    assert!(!verify_move(1, &short, &c));
}
