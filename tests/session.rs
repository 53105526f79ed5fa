use ark_bls12_381::Fr;
use ark_ff::ToConstraintField;
use battleship_zk::commitment::{commit, generate_commitments};
use battleship_zk::session::public_inputs;

fn blinding(seed: u8) -> Vec<u8> {
    (0..32u8).map(|i| i.wrapping_mul(13).wrapping_add(seed)).collect()
}

#[test]
fn public_inputs_start_with_ship_count_and_size() {
    let board = vec![1u8, 1, 1, 0, 0, 0, 0, 0, 0];
    let rs: Vec<Vec<u8>> = (0..9u8).map(blinding).collect();
    let comms = generate_commitments(&board, &rs);
    let inputs = public_inputs(3, 9, &comms).unwrap();
    assert_eq!(inputs[0], Fr::from(3u8));
    assert_eq!(inputs[1], Fr::from(9u8));
    assert_ne!(inputs[0], inputs[1]);
}

#[test]
fn public_inputs_follow_board_order() {
    let board = vec![1u8, 0, 0, 1];
    let rs: Vec<Vec<u8>> = (0..4u8).map(blinding).collect();
    let comms = generate_commitments(&board, &rs);
    let inputs = public_inputs(2, 4, &comms).unwrap();
    let mut expected: Vec<Fr> = vec![Fr::from(2u8), Fr::from(4u8)];
    for c in &comms {
        let mut f: Vec<Fr> = ToConstraintField::<Fr>::to_field_elements(c).unwrap();
        expected.append(&mut f);
    }
    assert_eq!(inputs, expected);
    // a 32-byte digest packs into two field elements
    assert_eq!(inputs.len(), 2 + 2 * 4);
}

#[test]
fn public_inputs_change_when_commitments_are_swapped() {
    let r0 = blinding(1);
    let r1 = blinding(2);
    let c0 = commit(0, &r0);
    let c1 = commit(1, &r1);
    let a = public_inputs(1, 2, &vec![c0.clone(), c1.clone()]).unwrap();
    let b = public_inputs(1, 2, &vec![c1, c0]).unwrap();
    assert_ne!(a, b);
}

#[test]
fn public_inputs_of_empty_table() {
    let inputs = public_inputs(0, 0, &vec![]).unwrap();
    assert_eq!(inputs, vec![Fr::from(0u8), Fr::from(0u8)]);
}
