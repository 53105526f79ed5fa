//! The public inputs of a board-validity proof, encoded as scalar field
//! elements in the one order the circuit allocates them: the ship count, the
//! board size, then each cell's commitment in board order.
use ark_bls12_381::Fr;
use ark_ff::ToConstraintField;
use vstd::prelude::*;

verus! {

#[verifier::external_type_specification]
#[verifier::external_body]
#[verifier::reject_recursive_types(P)]
pub struct ExFp256<P>(ark_ff::Fp256<P>);

#[verifier::external_type_specification]
#[verifier::external_body]
pub struct ExFrParameters(ark_bls12_381::FrParameters);

/// The scalar field element that a byte stands for.
pub uninterp spec fn field_of_byte(x: u8) -> Fr;

/// How a byte string packs, in order, into scalar field elements; `None`
/// where a chunk does not read as a field element.
pub uninterp spec fn packed_fields(bytes: Seq<u8>) -> Option<Seq<Fr>>;

/// Relies on `From<u8>` for the BLS12-381 scalar field: the element depends on
/// the byte alone.
#[verifier::external_body]
fn byte_to_field(x: u8) -> (r: Fr)
    ensures
        r == field_of_byte(x),
{
    Fr::from(x)
}

/// Relies on `ark_ff::ToConstraintField::<Fr>::to_field_elements` for `Vec<u8>`:
/// it splits the bytes into chunks, in order, and reads each chunk as a field
/// element; the result depends on the bytes alone.
#[verifier::external_body]
fn bytes_to_fields(bytes: &Vec<u8>) -> (r: Option<Vec<Fr>>)
    ensures
        match r {
            Some(v) => packed_fields(bytes@) == Some(v@),
            None => packed_fields(bytes@) is None,
        },
{
    ToConstraintField::<Fr>::to_field_elements(bytes)
}

/// The field elements of a commitment table, table entry by table entry.
pub open spec fn encode_commitments(commitments: Seq<Vec<u8>>) -> Option<Seq<Fr>>
    decreases commitments.len(),
{
    if commitments.len() == 0 {
        Some(Seq::empty())
    } else {
        match (
            encode_commitments(commitments.drop_last()),
            packed_fields(commitments.last()@),
        ) {
            (Some(front), Some(back)) => Some(front + back),
            _ => None,
        }
    }
}

/// The ordered public inputs of the board-validity statement.
pub open spec fn encode_public_inputs(
    ships: u8,
    b_size: u8,
    commitments: Seq<Vec<u8>>,
) -> Option<Seq<Fr>> {
    match encode_commitments(commitments) {
        Some(c) => Some(seq![field_of_byte(ships), field_of_byte(b_size)] + c),
        None => None,
    }
}

/// Once a prefix of the table fails to encode, the whole table does.
proof fn lemma_encode_none_extends(commitments: Seq<Vec<u8>>, k: int)
    requires
        0 <= k <= commitments.len(),
        encode_commitments(commitments.subrange(0, k)) is None,
    ensures
        encode_commitments(commitments) is None,
    decreases commitments.len(),
{
    if k == commitments.len() {
        assert(commitments.subrange(0, k) =~= commitments);
    } else {
        assert(commitments.drop_last().subrange(0, k) =~= commitments.subrange(0, k));
        lemma_encode_none_extends(commitments.drop_last(), k);
    }
}

/// The public inputs that a board-validity proof is checked against: the ship
/// count, the board size, then the field elements of each commitment in board
/// order.
pub fn public_inputs(ships: u8, b_size: u8, commitments: &Vec<Vec<u8>>) -> (r: Option<Vec<Fr>>)
    ensures
        match r {
            Some(v) => encode_public_inputs(ships, b_size, commitments@) == Some(v@),
            None => encode_public_inputs(ships, b_size, commitments@) is None,
        },
{
    let mut inputs: Vec<Fr> = Vec::new();
    inputs.push(byte_to_field(ships));
    inputs.push(byte_to_field(b_size));
    let mut i: usize = 0;
    while i < commitments.len()
        invariant
            i <= commitments@.len(),
            inputs@.len() >= 2,
            inputs@[0] == field_of_byte(ships),
            inputs@[1] == field_of_byte(b_size),
            encode_commitments(commitments@.subrange(0, i as int)) == Some(inputs@.skip(2)),
        decreases commitments@.len() - i,
    {
        let ghost before = inputs@;
        assert(commitments@.subrange(0, i + 1).drop_last() =~= commitments@.subrange(0, i as int));
        match bytes_to_fields(&commitments[i]) {
            Some(mut fields) => {
                let ghost packed = fields@;
                inputs.append(&mut fields);
                assert(inputs@.skip(2) =~= before.skip(2) + packed);
            },
            None => {
                proof {
                    lemma_encode_none_extends(commitments@, i + 1);
                }
                return None;
            },
        }
        i = i + 1;
    }
    assert(commitments@.subrange(0, commitments@.len() as int) =~= commitments@);
    assert(inputs@ =~= seq![field_of_byte(ships), field_of_byte(b_size)] + inputs@.skip(2));
    Some(inputs)
}

} // verus!
