//! The per-turn opening check: an attacked tile's revealed value and blinding
//! value must reproduce the commitment published for that tile at setup.
use crate::commitment::{commit, commits_board, digests_equal, opens_to, COMMITMENT_BYTES};
use vstd::prelude::*;

verus! {

/// Whether `(ship, randomness)` opens `commitment`: the recomputed digest
/// equals the published one byte for byte. A blinding value of the wrong
/// length opens nothing.
pub fn verify_move(ship: u8, randomness: &Vec<u8>, commitment: &Vec<u8>) -> (r: bool)
    ensures
        r == opens_to(commitment@, ship, randomness@),
{
    if randomness.len() != COMMITMENT_BYTES {
        return false;
    }
    let digest = commit(ship, randomness);
    digests_equal(&digest, commitment)
}

/// Revealing the committed value of a tile together with its blinding value
/// always passes the opening check, and revealing a value or blinding value
/// whose commitment differs from the published one always fails it.
pub proof fn lemma_opening_check(
    commitments: Seq<Vec<u8>>,
    board: Seq<u8>,
    randomness: Seq<Vec<u8>>,
    t: int,
    value: u8,
    blinding: Seq<u8>,
)
    requires
        commits_board(commitments, board, randomness),
        0 <= t < board.len(),
    ensures
        opens_to(commitments[t]@, board[t], randomness[t]@),
        blinding.len() == 32 && crate::commitment::commit_of(value, blinding)
            != commitments[t]@ ==> !opens_to(commitments[t]@, value, blinding),
{
}

} // verus!
