//! The game state machine: ship placement, the start of play once both
//! boards are proved valid, and alternating attacks whose outcomes are checked
//! against the published commitments.
use crate::circuit::{cells_sum, lemma_cells_sum_prefix, lemma_cells_sum_step};
use crate::commitment::{commits_board, generate_commitments, opens_to, well_sized};
use crate::moves::verify_move;
use vstd::prelude::*;

verus! {

/// What an attacker has learnt of one tile of the opponent's board.
#[derive(Clone, Copy, PartialEq, Eq, Structural, Debug)]
pub enum Mark {
    Unknown,
    Hit,
    Miss,
}

/// One of the two players.
#[derive(Clone, Copy, PartialEq, Eq, Structural, Debug)]
pub enum Side {
    A,
    B,
}

/// Where a game stands.
#[derive(Clone, Copy, PartialEq, Eq, Structural, Debug)]
pub enum Phase {
    /// Boards are being placed, committed and proved.
    Setup,
    /// Play is on and the given player attacks next.
    Turn(Side),
    /// The game is over and the given player has won.
    Finished(Side),
}

/// What placing a ship on a tile did.
#[derive(Clone, Copy, PartialEq, Eq, Structural, Debug)]
pub enum Placement {
    Placed,
    Occupied,
    OffBoard,
}

/// The result of one attack.
#[derive(Clone, Copy, PartialEq, Eq, Structural, Debug)]
pub enum TurnOutcome {
    /// The tile is not on the board; nothing changes.
    OffBoard,
    /// The tile was attacked before; nothing changes.
    AlreadyAttacked,
    /// The revealed opening does not match the published commitment, or
    /// reveals a value other than 0 or 1: the defender cheated.
    Cheated,
    /// The opening is authentic and reveals a ship.
    Hit,
    /// The opening is authentic and reveals an empty tile.
    Miss,
}

/// Why play could not start.
#[derive(Clone, Copy, PartialEq, Eq, Structural, Debug)]
pub enum StartError {
    /// Play has already started or finished.
    NotInSetup,
    /// The given player's board proof was rejected.
    ProofRejected(Side),
    /// Both board proofs were rejected.
    BothProofsRejected,
}

/// The other player.
pub open spec fn other(side: Side) -> Side {
    match side {
        Side::A => Side::B,
        Side::B => Side::A,
    }
}

/// The opponent of `side`.
pub fn opponent(side: Side) -> (r: Side)
    ensures
        r == other(side),
{
    match side {
        Side::A => Side::B,
        Side::B => Side::A,
    }
}

/// A game can be set up with `ships` ships on `b_size` tiles only if every
/// ship gets a tile of its own.
pub fn ships_fit(b_size: u8, ships: u8) -> (r: bool)
    ensures
        r == (ships <= b_size),
{
    ships <= b_size
}

/// Puts a ship on tile `target` of a board being set up, if the tile is on
/// the board and still empty.
pub fn place_battleship(board: &mut Vec<u8>, target: usize) -> (r: Placement)
    ensures
        target >= old(board)@.len() ==> r == Placement::OffBoard && final(board)@ == old(board)@,
        target < old(board)@.len() && old(board)@[target as int] != 0 ==> r == Placement::Occupied
            && final(board)@ == old(board)@,
        target < old(board)@.len() && old(board)@[target as int] == 0 ==> r == Placement::Placed
            && final(board)@ == old(board)@.update(target as int, 1),
{
    if target >= board.len() {
        Placement::OffBoard
    } else if board[target] != 0 {
        Placement::Occupied
    } else {
        board.set(target, 1);
        Placement::Placed
    }
}

/// A board with no ship cell left: the win check.
pub fn check_winner(board: &Vec<u8>) -> (r: bool)
    ensures
        r == (cells_sum(board@) == 0),
{
    let mut i: usize = 0;
    while i < board.len()
        invariant
            i <= board@.len(),
            cells_sum(board@.subrange(0, i as int)) == 0,
        decreases board@.len() - i,
    {
        proof {
            lemma_cells_sum_step(board@, i as int);
        }
        if board[i] != 0 {
            proof {
                lemma_cells_sum_prefix(board@, i + 1);
            }
            return false;
        }
        i = i + 1;
    }
    assert(board@.subrange(0, board@.len() as int) =~= board@);
    true
}

/// Setting one cell changes the sum by the difference of the two values.
pub proof fn lemma_cells_sum_update(cells: Seq<u8>, t: int, v: u8)
    requires
        0 <= t < cells.len(),
    ensures
        cells_sum(cells.update(t, v)) == cells_sum(cells) - cells[t] as int + v as int,
    decreases cells.len(),
{
    let u = cells.update(t, v);
    if t == cells.len() - 1 {
        assert(u.drop_last() =~= cells.drop_last());
    } else {
        lemma_cells_sum_update(cells.drop_last(), t, v);
        assert(u.drop_last() =~= cells.drop_last().update(t, v));
    }
}

/// One player's side of the table: the ship cells still afloat, the secret
/// blinding values, the commitment table published at setup, and what the
/// opponent has learnt of the board so far.
pub struct PlayerBoard {
    pub live: Vec<u8>,
    pub randomness: Vec<Vec<u8>>,
    pub commitments: Vec<Vec<u8>>,
    pub view: Vec<Mark>,
}

impl PlayerBoard {
    /// All tables cover the same tiles and every blinding value has the fixed
    /// length.
    pub open spec fn wf(&self) -> bool {
        &&& self.randomness@.len() == self.live@.len()
        &&& self.commitments@.len() == self.live@.len()
        &&& self.view@.len() == self.live@.len()
        &&& well_sized(self.randomness@)
    }

    /// Every tile not attacked yet still holds the value committed at setup.
    pub open spec fn honest(&self) -> bool {
        forall|t: int|
            0 <= t < self.live@.len() && self.view@[t] == Mark::Unknown ==> opens_to(
                #[trigger] self.commitments@[t]@,
                self.live@[t],
                self.randomness@[t]@,
            )
    }

    /// Number of ship cells still afloat.
    pub open spec fn ships_left(&self) -> int {
        cells_sum(self.live@)
    }

    /// Commits a placed board under its blinding values; nothing of it has
    /// been revealed yet.
    pub fn new(board: Vec<u8>, randomness: Vec<Vec<u8>>) -> (r: PlayerBoard)
        requires
            randomness@.len() == board@.len(),
            well_sized(randomness@),
        ensures
            r.wf(),
            r.honest(),
            r.live@ == board@,
            r.randomness@ == randomness@,
            commits_board(r.commitments@, board@, randomness@),
            forall|t: int| 0 <= t < r.view@.len() ==> #[trigger] r.view@[t] == Mark::Unknown,
    {
        let commitments = generate_commitments(&board, &randomness);
        let mut view: Vec<Mark> = Vec::new();
        let mut i: usize = 0;
        while i < board.len()
            invariant
                i <= board@.len(),
                view@.len() == i,
                forall|t: int| 0 <= t < i ==> #[trigger] view@[t] == Mark::Unknown,
            decreases board@.len() - i,
        {
            view.push(Mark::Unknown);
            i = i + 1;
        }
        PlayerBoard { live: board, randomness, commitments, view }
    }

    /// The owner's opening of tile `t`: its value and its blinding value.
    pub fn open_tile(&self, t: usize) -> (r: (u8, Vec<u8>))
        requires
            self.wf(),
            t < self.live@.len(),
        ensures
            r.0 == self.live@[t as int],
            r.1@ == self.randomness@[t as int]@,
    {
        let blinding = self.randomness[t].clone();
        assert(blinding@ =~= self.randomness@[t as int]@);
        (self.live[t], blinding)
    }

    /// No ship cell of this board is afloat.
    pub fn is_defeated(&self) -> (r: bool)
        ensures
            r == (self.ships_left() == 0),
    {
        check_winner(&self.live)
    }

    /// Resolves an attack on tile `t` against the revealed opening
    /// `(value, blinding)`: the opening is checked against the commitment
    /// published for `t`; an authentic 1 sinks the ship cell and is a hit, an
    /// authentic 0 is a miss.
    pub fn receive_attack(&mut self, t: usize, value: u8, blinding: &Vec<u8>) -> (r: TurnOutcome)
        requires
            old(self).wf(),
        ensures
            final(self).wf(),
            old(self).honest() ==> final(self).honest(),
            final(self).randomness == old(self).randomness,
            final(self).commitments == old(self).commitments,
            t >= old(self).live@.len() ==> r == TurnOutcome::OffBoard,
            t < old(self).live@.len() && old(self).view@[t as int] != Mark::Unknown ==> r
                == TurnOutcome::AlreadyAttacked,
            t < old(self).live@.len() && old(self).view@[t as int] == Mark::Unknown ==> (r
                == TurnOutcome::Cheated <==> !(value <= 1 && opens_to(
                old(self).commitments@[t as int]@,
                value,
                blinding@,
            ))),
            r == TurnOutcome::Hit <==> (t < old(self).live@.len() && old(self).view@[t as int]
                == Mark::Unknown && value == 1 && opens_to(
                old(self).commitments@[t as int]@,
                value,
                blinding@,
            )),
            r == TurnOutcome::Miss <==> (t < old(self).live@.len() && old(self).view@[t as int]
                == Mark::Unknown && value == 0 && opens_to(
                old(self).commitments@[t as int]@,
                value,
                blinding@,
            )),
            r == TurnOutcome::Hit ==> final(self).live@ == old(self).live@.update(t as int, 0)
                && final(self).view@ == old(self).view@.update(t as int, Mark::Hit),
            r == TurnOutcome::Miss ==> final(self).live@ == old(self).live@ && final(self).view@
                == old(self).view@.update(t as int, Mark::Miss),
            r != TurnOutcome::Hit && r != TurnOutcome::Miss ==> final(self).live@ == old(
                self,
            ).live@ && final(self).view@ == old(self).view@,
    {
        if t >= self.live.len() {
            return TurnOutcome::OffBoard;
        }
        if self.view[t] != Mark::Unknown {
            return TurnOutcome::AlreadyAttacked;
        }
        if value > 1 || !verify_move(value, blinding, &self.commitments[t]) {
            return TurnOutcome::Cheated;
        }
        if value == 1 {
            self.view.set(t, Mark::Hit);
            self.live.set(t, 0);
            TurnOutcome::Hit
        } else {
            self.view.set(t, Mark::Miss);
            TurnOutcome::Miss
        }
    }
}

/// The phase after `attacker`'s turn ended with `outcome`, given the ship
/// cells the defender has left afterwards: a detected cheat ends the game for
/// the attacker, an authentic opening ends it for the attacker exactly when
/// no ship cell is left and otherwise passes the turn, and a rejected tile
/// leaves the attacker to choose again.
pub open spec fn next_phase(attacker: Side, outcome: TurnOutcome, defender_live: Seq<u8>) -> Phase {
    match outcome {
        TurnOutcome::Cheated => Phase::Finished(attacker),
        TurnOutcome::Hit | TurnOutcome::Miss => if cells_sum(defender_live) == 0 {
            Phase::Finished(attacker)
        } else {
            Phase::Turn(other(attacker))
        },
        _ => Phase::Turn(attacker),
    }
}

/// Both players' sides of the table and the phase of play.
pub struct Game {
    pub ships: u8,
    pub b_size: u8,
    pub a: PlayerBoard,
    pub b: PlayerBoard,
    pub phase: Phase,
}

impl Game {
    /// Both sides are well formed and cover `b_size` tiles.
    pub open spec fn wf(&self) -> bool {
        &&& self.a.wf()
        &&& self.b.wf()
        &&& self.a.live@.len() == self.b_size as int
        &&& self.b.live@.len() == self.b_size as int
    }

    /// The side of `side`.
    pub open spec fn side_of(&self, side: Side) -> PlayerBoard {
        match side {
            Side::A => self.a,
            Side::B => self.b,
        }
    }

    /// A game in setup between two committed boards.
    pub fn new(ships: u8, b_size: u8, a: PlayerBoard, b: PlayerBoard) -> (r: Game)
        requires
            a.wf(),
            b.wf(),
            a.live@.len() == b_size as int,
            b.live@.len() == b_size as int,
        ensures
            r.wf(),
            r.ships == ships,
            r.b_size == b_size,
            r.a == a,
            r.b == b,
            r.phase == Phase::Setup,
    {
        Game { ships, b_size, a, b, phase: Phase::Setup }
    }

    /// Starts play once both board proofs have been checked: play begins,
    /// with A to attack, only when both were accepted.
    pub fn begin_play(&mut self, a_verified: bool, b_verified: bool) -> (r: Result<(), StartError>)
        ensures
            final(self).a == old(self).a,
            final(self).b == old(self).b,
            final(self).ships == old(self).ships,
            final(self).b_size == old(self).b_size,
            old(self).phase != Phase::Setup ==> r == Err::<(), StartError>(StartError::NotInSetup),
            old(self).phase == Phase::Setup ==> r == (if a_verified && b_verified {
                Ok::<(), StartError>(())
            } else if a_verified {
                Err(StartError::ProofRejected(Side::B))
            } else if b_verified {
                Err(StartError::ProofRejected(Side::A))
            } else {
                Err(StartError::BothProofsRejected)
            }),
            r is Ok ==> final(self).phase == Phase::Turn(Side::A),
            r is Err ==> final(self).phase == old(self).phase,
    {
        if self.phase != Phase::Setup {
            return Err(StartError::NotInSetup);
        }
        if a_verified && b_verified {
            self.phase = Phase::Turn(Side::A);
            Ok(())
        } else if a_verified {
            Err(StartError::ProofRejected(Side::B))
        } else if b_verified {
            Err(StartError::ProofRejected(Side::A))
        } else {
            Err(StartError::BothProofsRejected)
        }
    }

    /// The player whose turn it is attacks tile `t` of the opponent's board,
    /// and the opponent answers with the opening `(value, blinding)`. The
    /// opponent's side records the outcome and the phase moves on as
    /// `next_phase` says.
    pub fn play_turn(&mut self, t: usize, value: u8, blinding: &Vec<u8>) -> (r: TurnOutcome)
        requires
            old(self).wf(),
            old(self).phase is Turn,
        ensures
            final(self).wf(),
            final(self).ships == old(self).ships,
            final(self).b_size == old(self).b_size,
            ({
                let attacker = old(self).phase->Turn_0;
                let defender = other(attacker);
                &&& final(self).side_of(attacker) == old(self).side_of(attacker)
                &&& final(self).phase == next_phase(
                    attacker,
                    r,
                    final(self).side_of(defender).live@,
                )
                &&& old(self).side_of(defender).honest() ==> final(self).side_of(defender).honest()
                &&& r == TurnOutcome::Hit ==> final(self).side_of(defender).live@ == old(
                    self,
                ).side_of(defender).live@.update(t as int, 0)
                &&& r != TurnOutcome::Hit ==> final(self).side_of(defender).live@ == old(
                    self,
                ).side_of(defender).live@
                &&& (r == TurnOutcome::Hit <==> (t < old(self).b_size && old(self).side_of(
                    defender,
                ).view@[t as int] == Mark::Unknown && value == 1 && opens_to(
                    old(self).side_of(defender).commitments@[t as int]@,
                    value,
                    blinding@,
                )))
                &&& (r == TurnOutcome::Miss <==> (t < old(self).b_size && old(self).side_of(
                    defender,
                ).view@[t as int] == Mark::Unknown && value == 0 && opens_to(
                    old(self).side_of(defender).commitments@[t as int]@,
                    value,
                    blinding@,
                )))
                &&& (r == TurnOutcome::OffBoard <==> t >= old(self).b_size)
                &&& (r == TurnOutcome::AlreadyAttacked <==> (t < old(self).b_size && old(
                    self,
                ).side_of(defender).view@[t as int] != Mark::Unknown))
            }),
    {
        let attacker = match self.phase {
            Phase::Turn(side) => side,
            _ => Side::A,
        };
        let outcome = match attacker {
            Side::A => self.b.receive_attack(t, value, blinding),
            Side::B => self.a.receive_attack(t, value, blinding),
        };
        let defeated = match attacker {
            Side::A => self.b.is_defeated(),
            Side::B => self.a.is_defeated(),
        };
        self.phase = match outcome {
            TurnOutcome::Cheated => Phase::Finished(attacker),
            TurnOutcome::Hit | TurnOutcome::Miss => if defeated {
                Phase::Finished(attacker)
            } else {
                Phase::Turn(opponent(attacker))
            },
            _ => Phase::Turn(attacker),
        };
        outcome
    }
}

/// A turn ends the game, with the attacker as the winner, exactly when the
/// defender was caught cheating or the attack left the defender without any
/// ship cell; every authentic hit on a ship cell lowers the defender's count
/// of ship cells by exactly one, so the game ends once the last one is hit.
pub proof fn lemma_win_exactly_when_exhausted(
    attacker: Side,
    outcome: TurnOutcome,
    live: Seq<u8>,
    t: int,
)
    requires
        0 <= t < live.len(),
    ensures
        next_phase(attacker, outcome, live) is Finished ==> next_phase(attacker, outcome, live)
            == Phase::Finished(attacker),
        (outcome == TurnOutcome::Hit || outcome == TurnOutcome::Miss) ==> (next_phase(
            attacker,
            outcome,
            live,
        ) == Phase::Finished(attacker) <==> cells_sum(live) == 0),
        live[t] == 1 ==> cells_sum(live.update(t, 0)) == cells_sum(live) - 1,
        live[t] == 1 && cells_sum(live) == 1 ==> next_phase(
            attacker,
            TurnOutcome::Hit,
            live.update(t, 0),
        ) == Phase::Finished(attacker),
{
    lemma_cells_sum_update(live, t, 0);
}

/// On a board whose untouched tiles still hold their committed values, the
/// owner's opening of a tile not attacked yet always passes the opening check;
/// an opening that fails the check ends the game with the attacker as the
/// winner.
pub proof fn lemma_honest_opening_accepted(p: PlayerBoard, t: int, attacker: Side, live: Seq<u8>)
    requires
        p.wf(),
        p.honest(),
        0 <= t < p.live@.len(),
        p.view@[t] == Mark::Unknown,
    ensures
        opens_to(p.commitments@[t]@, p.live@[t], p.randomness@[t]@),
        next_phase(attacker, TurnOutcome::Cheated, live) == Phase::Finished(attacker),
{
}

} // verus!
