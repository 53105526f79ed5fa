//! The board-validity predicate: the statement that a player proves once, at
//! setup, about their hidden board and its published commitments.
use crate::commitment::{commit, commits_board, digests_equal, opens_to, COMMITMENT_BYTES};
use vstd::prelude::*;

verus! {

/// Number of ship cells on a board: the arithmetic sum of its cells.
pub open spec fn cells_sum(cells: Seq<u8>) -> int
    decreases cells.len(),
{
    if cells.len() == 0 {
        0
    } else {
        cells_sum(cells.drop_last()) + cells.last() as int
    }
}

/// Every cell is 0 (empty) or 1 (ship).
pub open spec fn all_binary(cells: Seq<u8>) -> bool {
    forall|i: int| 0 <= i < cells.len() ==> #[trigger] cells[i] == 0 || cells[i] == 1
}

/// The sum of a prefix grows by the next cell.
pub proof fn lemma_cells_sum_step(cells: Seq<u8>, i: int)
    requires
        0 <= i < cells.len(),
    ensures
        cells_sum(cells.subrange(0, i + 1)) == cells_sum(cells.subrange(0, i)) + cells[i] as int,
{
    assert(cells.subrange(0, i + 1).drop_last() =~= cells.subrange(0, i));
}

/// No prefix of a board holds more ship cells than the whole board.
pub proof fn lemma_cells_sum_prefix(cells: Seq<u8>, k: int)
    requires
        0 <= k <= cells.len(),
    ensures
        cells_sum(cells.subrange(0, k)) <= cells_sum(cells),
    decreases cells.len(),
{
    if k == cells.len() {
        assert(cells.subrange(0, k) =~= cells);
    } else {
        lemma_cells_sum_prefix(cells.drop_last(), k);
        assert(cells.drop_last().subrange(0, k) =~= cells.subrange(0, k));
    }
}

/// A board whose cells are all equal to `v` holds `v` times its length.
pub proof fn lemma_cells_sum_constant(cells: Seq<u8>, v: u8)
    requires
        forall|i: int| 0 <= i < cells.len() ==> #[trigger] cells[i] == v,
    ensures
        cells_sum(cells) == cells.len() * (v as int),
    decreases cells.len(),
{
    if cells.len() > 0 {
        lemma_cells_sum_constant(cells.drop_last(), v);
        assert(cells_sum(cells) == (cells.len() - 1) * (v as int) + v as int);
        assert((cells.len() - 1) * (v as int) + v as int == cells.len() * (v as int))
            by (nonlinear_arith);
    }
}

/// One instance of the board-validity circuit.
///
/// The public inputs are the declared ship count, the declared board size and
/// one commitment per cell; the private witnesses are the board (0 for an
/// empty tile, 1 for a ship) and one 32-byte blinding value per cell.
#[derive(Clone)]
pub struct BoardVerifier {
    pub ships: u8,
    pub b_size: u8,
    pub commitments: Vec<Vec<u8>>,
    pub board: Option<Vec<u8>>,
    pub rng_in: Option<Vec<Vec<u8>>>,
}

impl BoardVerifier {
    /// The witnessed board has the declared size.
    pub open spec fn size_holds(&self) -> bool {
        match self.board {
            Some(b) => b@.len() == self.b_size as int,
            None => false,
        }
    }

    /// Every witnessed cell is 0 or 1.
    pub open spec fn range_holds(&self) -> bool {
        match self.board {
            Some(b) => all_binary(b@),
            None => false,
        }
    }

    /// The witnessed cells sum exactly to the declared ship count.
    pub open spec fn sum_holds(&self) -> bool {
        match self.board {
            Some(b) => cells_sum(b@) == self.ships as int,
            None => false,
        }
    }

    /// Each public commitment opens to its witnessed cell under that cell's
    /// witnessed blinding value.
    pub open spec fn commitments_hold(&self) -> bool {
        match (self.board, self.rng_in) {
            (Some(b), Some(r)) => commits_board(self.commitments@, b@, r@),
            _ => false,
        }
    }

    /// The circuit is satisfied: all four checks hold at once.
    pub open spec fn satisfied(&self) -> bool {
        &&& self.size_holds()
        &&& self.range_holds()
        &&& self.sum_holds()
        &&& self.commitments_hold()
    }

    /// Size check: the witnessed board has `b_size` cells.
    pub fn size_check(&self) -> (r: bool)
        ensures
            r == self.size_holds(),
    {
        match &self.board {
            Some(b) => b.len() == self.b_size as usize,
            None => false,
        }
    }

    /// Range check: every witnessed cell is 0 or 1.
    pub fn range_check(&self) -> (r: bool)
        ensures
            r == self.range_holds(),
    {
        match &self.board {
            Some(b) => {
                let mut i: usize = 0;
                while i < b.len()
                    invariant
                        self.board == Some(*b),
                        i <= b@.len(),
                        forall|j: int| 0 <= j < i ==> #[trigger] b@[j] == 0 || b@[j] == 1,
                    decreases b@.len() - i,
                {
                    if b[i] != 0 && b[i] != 1 {
                        assert(!(b@[i as int] == 0 || b@[i as int] == 1));
                        return false;
                    }
                    i = i + 1;
                }
                true
            },
            None => false,
        }
    }

    /// Sum check: the witnessed cells add up to exactly `ships`.
    pub fn sum_check(&self) -> (r: bool)
        ensures
            r == self.sum_holds(),
    {
        match &self.board {
            Some(b) => {
                let mut total: u64 = 0;
                let mut i: usize = 0;
                while i < b.len()
                    invariant
                        self.board == Some(*b),
                        i <= b@.len(),
                        total == cells_sum(b@.subrange(0, i as int)),
                        total <= self.ships,
                    decreases b@.len() - i,
                {
                    proof {
                        lemma_cells_sum_step(b@, i as int);
                    }
                    total = total + b[i] as u64;
                    if total > self.ships as u64 {
                        proof {
                            lemma_cells_sum_prefix(b@, i + 1);
                            assert(cells_sum(b@) > self.ships as int);
                        }
                        return false;
                    }
                    i = i + 1;
                }
                assert(b@.subrange(0, b@.len() as int) =~= b@);
                total == self.ships as u64
            },
            None => false,
        }
    }

    /// Commitment check: for every cell, recomputing the commitment of the
    /// witnessed value under the witnessed blinding value reproduces the
    /// public commitment.
    pub fn commitment_check(&self) -> (r: bool)
        ensures
            r == self.commitments_hold(),
    {
        match (&self.board, &self.rng_in) {
            (Some(b), Some(rng)) => {
                if self.commitments.len() != b.len() || rng.len() != b.len() {
                    return false;
                }
                let mut i: usize = 0;
                while i < b.len()
                    invariant
                        self.board == Some(*b),
                        self.rng_in == Some(*rng),
                        i <= b@.len(),
                        self.commitments@.len() == b@.len(),
                        rng@.len() == b@.len(),
                        forall|j: int|
                            0 <= j < i ==> opens_to(
                                #[trigger] self.commitments@[j]@,
                                b@[j],
                                rng@[j]@,
                            ),
                    decreases b@.len() - i,
                {
                    if rng[i].len() != COMMITMENT_BYTES {
                        assert(!opens_to(self.commitments@[i as int]@, b@[i as int], rng@[i as int]@));
                        return false;
                    }
                    let digest = commit(b[i], &rng[i]);
                    if !digests_equal(&digest, &self.commitments[i]) {
                        assert(!opens_to(self.commitments@[i as int]@, b@[i as int], rng@[i as int]@));
                        return false;
                    }
                    i = i + 1;
                }
                true
            },
            _ => false,
        }
    }

    /// Whether the circuit is satisfied by its witnesses: the conjunction of
    /// the size, range, sum and commitment checks.
    pub fn is_satisfied(&self) -> (r: bool)
        ensures
            r == self.satisfied(),
    {
        let size_ok = self.size_check();
        let range_ok = self.range_check();
        let sum_ok = self.sum_check();
        let commitments_ok = self.commitment_check();
        size_ok && range_ok && sum_ok && commitments_ok
    }
}

/// A board of the declared size, with binary cells summing to the declared
/// ship count and correctly derived commitments, satisfies the circuit.
pub proof fn lemma_valid_board_satisfies(v: BoardVerifier, board: Vec<u8>, randomness: Vec<Vec<u8>>)
    requires
        v.board == Some(board),
        v.rng_in == Some(randomness),
        board@.len() == v.b_size as int,
        all_binary(board@),
        cells_sum(board@) == v.ships as int,
        commits_board(v.commitments@, board@, randomness@),
    ensures
        v.satisfied(),
{
}

/// A declared ship count that differs from the true number of ship cells
/// leaves the circuit unsatisfied.
pub proof fn lemma_wrong_ship_count_unsatisfied(v: BoardVerifier, board: Vec<u8>)
    requires
        v.board == Some(board),
        cells_sum(board@) != v.ships as int,
    ensures
        !v.satisfied(),
{
}

/// A declared board size that differs from the witnessed board's length
/// leaves the circuit unsatisfied.
pub proof fn lemma_wrong_size_unsatisfied(v: BoardVerifier, board: Vec<u8>)
    requires
        v.board == Some(board),
        board@.len() != v.b_size as int,
    ensures
        !v.satisfied(),
{
}

/// A cell that is neither 0 nor 1 leaves the circuit unsatisfied, whatever
/// ship count is declared.
pub proof fn lemma_non_binary_cell_unsatisfied(v: BoardVerifier, board: Vec<u8>, i: int)
    requires
        v.board == Some(board),
        0 <= i < board@.len(),
        board@[i] != 0 && board@[i] != 1,
    ensures
        !v.satisfied(),
{
}

/// An empty board with a declared ship count of zero satisfies the circuit.
pub proof fn lemma_empty_board_satisfies(v: BoardVerifier, board: Vec<u8>, randomness: Vec<Vec<u8>>)
    requires
        v.board == Some(board),
        v.rng_in == Some(randomness),
        board@.len() == v.b_size as int,
        forall|i: int| 0 <= i < board@.len() ==> #[trigger] board@[i] == 0,
        v.ships == 0,
        commits_board(v.commitments@, board@, randomness@),
    ensures
        v.satisfied(),
{
    lemma_cells_sum_constant(board@, 0);
}

/// A board made only of ships, with a declared ship count equal to the board
/// size, satisfies the circuit.
pub proof fn lemma_full_board_satisfies(v: BoardVerifier, board: Vec<u8>, randomness: Vec<Vec<u8>>)
    requires
        v.board == Some(board),
        v.rng_in == Some(randomness),
        board@.len() == v.b_size as int,
        forall|i: int| 0 <= i < board@.len() ==> #[trigger] board@[i] == 1,
        v.ships == v.b_size,
        commits_board(v.commitments@, board@, randomness@),
    ensures
        v.satisfied(),
{
    lemma_cells_sum_constant(board@, 1);
}

} // verus!
