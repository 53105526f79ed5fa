use ark_std::rand::Rng;
use battleship_zk::circuit::BoardVerifier;
use battleship_zk::commitment::generate_commitments;

fn blinding_values(n: usize) -> Vec<Vec<u8>> {
    let mut rng = ark_std::test_rng();
    let mut randomness: Vec<Vec<u8>> = Vec::new();
    for _ in 0..n {
        let mut rand = [0u8; 32];
        rng.fill(&mut rand);
        randomness.push(rand.to_vec());
    }
    randomness
}

fn circuit(board: Vec<u8>, ships: u8, b_size: u8) -> BoardVerifier {
    let randomness = blinding_values(board.len());
    let comms = generate_commitments(&board, &randomness);
    BoardVerifier {
        ships,
        b_size,
        commitments: comms,
        rng_in: Some(randomness),
        board: Some(board),
    }
}

#[test]
fn constraints_test() {
    let c = circuit(vec![1, 1, 1, 0, 0, 0, 0, 0, 0], 3, 9);
    assert!(c.is_satisfied());
}

#[test]
fn test_incorrect_ships() {
    let c = circuit(vec![1, 1, 1, 0, 0, 0, 0, 0, 0], 4, 9);
    assert!(!c.is_satisfied());
    assert!(!c.sum_check());
    assert!(c.size_check());
    assert!(c.range_check());
    assert!(c.commitment_check());
}

#[test]
fn test_incorrect_size() {
    let c = circuit(vec![1, 1, 1, 0, 0, 0, 0, 0, 0], 3, 10);
    assert!(!c.is_satisfied());
    assert!(!c.size_check());
    assert!(c.sum_check());
}

#[test]
fn test_ships_same_as_size() {
    let c = circuit(vec![1, 1, 1, 1, 1, 1, 1, 1, 1], 9, 9);
    assert!(c.is_satisfied());
}

#[test]
fn test_no_ships() {
    let c = circuit(vec![0, 0, 0, 0, 0, 0, 0, 0, 0], 0, 9);
    assert!(c.is_satisfied());
}

#[test]
fn test_incorrect_board_value() {
    let c = circuit(vec![2, 0, 0, 0, 0, 0, 0, 0, 0], 1, 9);
    assert!(!c.is_satisfied());
    assert!(!c.range_check());
}

#[test]
fn test_incorrect_board_value_no_ships() {
    let c = circuit(vec![2, 0, 0, 0, 0, 0, 0, 0, 0], 0, 9);
    assert!(!c.is_satisfied());
    assert!(!c.range_check());
}

#[test]
fn non_binary_cell_with_matching_sum_still_fails() {
    let c = circuit(vec![2, 0, 0, 0, 0, 0, 0, 0, 0], 2, 9);
    assert!(c.sum_check());
    assert!(!c.range_check());
    assert!(!c.is_satisfied());
}

#[test]
fn ship_count_below_true_sum_fails() {
    let c = circuit(vec![1, 1, 1, 0, 0, 0, 0, 0, 0], 2, 9);
    assert!(!c.sum_check());
    assert!(!c.is_satisfied());
}

#[test]
fn large_sum_does_not_match_small_count() {
    let c = circuit(vec![1; 255], 255, 255);
    assert!(c.is_satisfied());
    let c = circuit(vec![1; 255], 254, 255);
    assert!(!c.is_satisfied());
}

#[test]
fn empty_board_of_size_zero_is_valid() {
    let c = circuit(vec![], 0, 0);
    assert!(c.is_satisfied());
}

#[test]
fn board_of_size_four_with_one_ship() {
    let c = circuit(vec![0, 0, 1, 0], 1, 4);
    assert!(c.is_satisfied());
}

#[test]
fn tampered_commitment_fails_commitment_check() {
    let mut c = circuit(vec![1, 1, 1, 0, 0, 0, 0, 0, 0], 3, 9);
    c.commitments[4][0] ^= 1;
    assert!(c.size_check());
    assert!(c.range_check());
    assert!(c.sum_check());
    assert!(!c.commitment_check());
    assert!(!c.is_satisfied());
}

#[test]
fn commitment_to_a_different_value_fails() {
    let mut c = circuit(vec![1, 1, 1, 0, 0, 0, 0, 0, 0], 3, 9);
    let board = vec![1, 1, 0, 1, 0, 0, 0, 0, 0];
    c.board = Some(board);
    assert!(c.sum_check());
    assert!(!c.commitment_check());
    assert!(!c.is_satisfied());
}

#[test]
fn missing_commitment_fails() {
    let mut c = circuit(vec![1, 1, 1, 0, 0, 0, 0, 0, 0], 3, 9);
    c.commitments.pop();
    assert!(!c.commitment_check());
    assert!(!c.is_satisfied());
}

#[test]
fn short_blinding_value_fails() {
    let mut c = circuit(vec![1, 1, 1, 0, 0, 0, 0, 0, 0], 3, 9);
    if let Some(r) = c.rng_in.as_mut() {
        r[0].pop();
    }
    assert!(!c.commitment_check());
    assert!(!c.is_satisfied());
}

#[test]
fn missing_witness_fails_every_check() {
    let mut c = circuit(vec![1, 1, 1, 0, 0, 0, 0, 0, 0], 3, 9);
    c.board = None;
    assert!(!c.size_check());
    assert!(!c.range_check());
    assert!(!c.sum_check());
    assert!(!c.commitment_check());
    assert!(!c.is_satisfied());
}
