//! Per-cell commitments: each cell of a board is bound to a public digest
//! under a secret 32-byte blinding value.
use ark_crypto_primitives::commitment::blake2s::Commitment;
use ark_crypto_primitives::commitment::CommitmentScheme;
use rand::rngs::OsRng;
use rand::Rng;
use vstd::prelude::*;

verus! {

/// Length in bytes of a blinding value and of a digest.
pub const COMMITMENT_BYTES: usize = 32;

/// The digest that the Blake2s commitment scheme gives for a one-byte value
/// under the given randomness.
pub uninterp spec fn commit_of(value: u8, randomness: Seq<u8>) -> Seq<u8>;

/// Relies on `ark_crypto_primitives::commitment::blake2s::Commitment::commit`:
/// it hashes the input bytes followed by the 32 randomness bytes with Blake2s
/// and always returns `Ok` with the 32-byte digest.
#[verifier::external_body]
fn blake2s_commit(value: u8, randomness: &Vec<u8>) -> (r: Vec<u8>)
    requires
        randomness@.len() == 32,
    ensures
        r@ == commit_of(value, randomness@),
        r@.len() == 32,
{
    let mut r = [0u8; 32];
    r.copy_from_slice(randomness);
    Commitment::commit(&(), &[value], &r).unwrap().to_vec()
}

/// Relies on `rand::rngs::OsRng` filling a 32-byte buffer from the operating
/// system's entropy source; nothing is known of the bytes but their number.
#[verifier::external_body]
fn fresh_blinding() -> (r: Vec<u8>)
    ensures
        r@.len() == 32,
{
    let mut bytes = [0u8; 32];
    OsRng.fill(&mut bytes);
    bytes.to_vec()
}

/// `commitment` is the opening of `value` under `randomness`.
pub open spec fn opens_to(commitment: Seq<u8>, value: u8, randomness: Seq<u8>) -> bool {
    &&& randomness.len() == 32
    &&& commitment == commit_of(value, randomness)
}

/// Every blinding value has the fixed length.
pub open spec fn well_sized(randomness: Seq<Vec<u8>>) -> bool {
    forall|i: int| 0 <= i < randomness.len() ==> (#[trigger] randomness[i])@.len() == 32
}

/// The commitment table publishes, for each cell in order, the opening of that
/// cell under its own blinding value.
pub open spec fn commits_board(
    commitments: Seq<Vec<u8>>,
    board: Seq<u8>,
    randomness: Seq<Vec<u8>>,
) -> bool {
    &&& commitments.len() == board.len()
    &&& randomness.len() == board.len()
    &&& forall|i: int|
        0 <= i < board.len() ==> opens_to(
            #[trigger] commitments[i]@,
            board[i],
            randomness[i]@,
        )
}

/// The commitment of one cell value under its 32-byte blinding value.
pub fn commit(value: u8, randomness: &Vec<u8>) -> (r: Vec<u8>)
    requires
        randomness@.len() == 32,
    ensures
        r@ == commit_of(value, randomness@),
        opens_to(r@, value, randomness@),
{
    blake2s_commit(value, randomness)
}

/// Fresh blinding values, one per cell of a board of `board_size` cells.
pub fn generate_randomness(board_size: u8) -> (r: Vec<Vec<u8>>)
    ensures
        r@.len() == board_size as int,
        well_sized(r@),
{
    let mut randomness: Vec<Vec<u8>> = Vec::new();
    let mut n: u8 = 0;
    while n < board_size
        invariant
            n <= board_size,
            randomness@.len() == n as int,
            well_sized(randomness@),
        decreases board_size - n,
    {
        let blinding = fresh_blinding();
        randomness.push(blinding);
        n = n + 1;
    }
    randomness
}

/// The public commitment table of a board: cell `i` is committed under
/// `randomness[i]`.
pub fn generate_commitments(board: &Vec<u8>, randomness: &Vec<Vec<u8>>) -> (r: Vec<Vec<u8>>)
    requires
        randomness@.len() == board@.len(),
        well_sized(randomness@),
    ensures
        commits_board(r@, board@, randomness@),
{
    let mut commitments: Vec<Vec<u8>> = Vec::new();
    let mut i: usize = 0;
    while i < board.len()
        invariant
            i <= board@.len(),
            randomness@.len() == board@.len(),
            well_sized(randomness@),
            commitments@.len() == i,
            forall|j: int|
                0 <= j < i ==> opens_to(#[trigger] commitments@[j]@, board@[j], randomness@[j]@),
        decreases board@.len() - i,
    {
        let digest = commit(board[i], &randomness[i]);
        commitments.push(digest);
        i = i + 1;
    }
    commitments
}

/// Byte-for-byte comparison of two digests.
pub fn digests_equal(a: &Vec<u8>, b: &Vec<u8>) -> (r: bool)
    ensures
        r == (a@ == b@),
{
    if a.len() != b.len() {
        return false;
    }
    let mut i: usize = 0;
    while i < a.len()
        invariant
            i <= a@.len(),
            a@.len() == b@.len(),
            forall|j: int| 0 <= j < i ==> a@[j] == b@[j],
        decreases a@.len() - i,
    {
        if a[i] != b[i] {
            return false;
        }
        i = i + 1;
    }
    assert(a@ =~= b@);
    true
}

/// Committing is deterministic: the same value under the same blinding value
/// always yields the same digest, so a recomputed commitment opens the
/// published one.
pub proof fn lemma_commit_deterministic(
    value: u8,
    randomness: Seq<u8>,
    value2: u8,
    randomness2: Seq<u8>,
)
    requires
        randomness.len() == 32,
        value == value2,
        randomness == randomness2,
    ensures
        commit_of(value, randomness) == commit_of(value2, randomness2),
        opens_to(commit_of(value, randomness), value2, randomness2),
{
}

} // verus!
