//! The 3-by-3 grid, its squares and the two players.
//!
//! A `Board` stores its nine squares row-major in a `Vec`, so the square at
//! `(row, column)` sits at flat index `row * 3 + column`. The view of a board
//! is the sequence of its nine squares.

use vstd::prelude::*;

verus! {

/// What one square of the grid holds: a player's marker, or nothing.
#[derive(Debug, PartialEq, Eq, Structural, Clone, Copy)]
pub enum SquareState {
    X,
    O,
    Empty,
}

/// One of the two players. Each is the other's opponent.
#[derive(Debug, PartialEq, Eq, Structural, Clone, Copy)]
pub enum PlayerState {
    X,
    O,
}

impl PlayerState {
    /// The marker this player leaves on a square.
    pub open spec fn spec_square(self) -> SquareState {
        match self {
            PlayerState::X => SquareState::X,
            PlayerState::O => SquareState::O,
        }
    }

    /// The opponent of this player.
    pub open spec fn spec_other(self) -> PlayerState {
        match self {
            PlayerState::X => PlayerState::O,
            PlayerState::O => PlayerState::X,
        }
    }

    pub fn convert_to_square_state(&self) -> (s: SquareState)
        ensures
            s == self.spec_square(),
    {
        match *self {
            PlayerState::X => SquareState::X,
            PlayerState::O => SquareState::O,
        }
    }

    pub fn get_other_player(&self) -> (p: PlayerState)
        ensures
            p == self.spec_other(),
    {
        match *self {
            PlayerState::X => PlayerState::O,
            PlayerState::O => PlayerState::X,
        }
    }
}

impl SquareState {
    /// The player whose marker occupies this square. An empty square holds no
    /// marker, so asking it for a player is a contract breach and aborts.
    pub fn convert_to_player_state(&self) -> (p: PlayerState)
        requires
            *self != SquareState::Empty,
        ensures
            p.spec_square() == *self,
    {
        match *self {
            SquareState::X => PlayerState::X,
            SquareState::O => PlayerState::O,
            SquareState::Empty => unreached(),
        }
    }
}

/// The game board: nine squares, row-major.
pub struct Board {
    pub cells: Vec<SquareState>,
}

impl View for Board {
    type V = Seq<SquareState>;

    open spec fn view(&self) -> Seq<SquareState> {
        self.cells@
    }
}

impl Board {
    /// A board is well formed when it holds exactly nine squares.
    pub open spec fn wf(self) -> bool {
        self@.len() == 9
    }

    /// The board at the start of a game: every square empty.
    pub fn new() -> (b: Board)
        ensures
            b.wf(),
            forall|i: int| 0 <= i < 9 ==> b@[i] == SquareState::Empty,
    {
        let mut cells: Vec<SquareState> = Vec::new();
        let mut i: usize = 0;
        while i < 9
            invariant
                i <= 9,
                cells@.len() == i,
                forall|j: int| 0 <= j < i ==> cells@[j] == SquareState::Empty,
            decreases 9 - i,
        {
            cells.push(SquareState::Empty);
            i = i + 1;
        }
        Board { cells }
    }

    /// A board built from nine given squares.
    pub fn from_cells(cells: Vec<SquareState>) -> (b: Board)
        requires
            cells@.len() == 9,
        ensures
            b.wf(),
            b@ == cells@,
    {
        Board { cells }
    }

    /// Read the square at `(row, column)`.
    pub fn get(&self, row: usize, column: usize) -> (s: SquareState)
        requires
            self.wf(),
            row < 3,
            column < 3,
        ensures
            s == self@[row * 3 + column],
    {
        self.cells[row * 3 + column]
    }

    /// Overwrite the square at `(row, column)`.
    pub fn set(&mut self, row: usize, column: usize, s: SquareState)
        requires
            old(self).wf(),
            row < 3,
            column < 3,
        ensures
            final(self).wf(),
            final(self)@ == old(self)@.update(row * 3 + column, s),
    {
        self.cells.set(row * 3 + column, s);
    }

    /// A square-for-square copy of this board.
    pub fn duplicate(&self) -> (b: Board)
        requires
            self.wf(),
        ensures
            b.wf(),
            b@ == self@,
    {
        let mut cells: Vec<SquareState> = Vec::new();
        let mut i: usize = 0;
        while i < 9
            invariant
                self.wf(),
                i <= 9,
                cells@.len() == i,
                forall|j: int| 0 <= j < i ==> cells@[j] == self@[j],
            decreases 9 - i,
        {
            cells.push(self.cells[i]);
            i = i + 1;
        }
        proof {
            assert(cells@ =~= self@);
        }
        Board { cells }
    }
}

/// How many of the first `i` squares of `b` are empty.
pub open spec fn count_empty_to(b: Seq<SquareState>, i: int) -> nat
    decreases i,
{
    if i <= 0 {
        0
    } else {
        count_empty_to(b, i - 1) + (if b[i - 1] == SquareState::Empty {
            1nat
        } else {
            0nat
        })
    }
}

/// How many of the nine squares of `b` are empty.
pub open spec fn count_empty(b: Seq<SquareState>) -> nat {
    count_empty_to(b, 9)
}

/// The empty-square count never exceeds the number of squares counted.
pub proof fn lemma_count_empty_to_le(b: Seq<SquareState>, i: int)
    requires
        0 <= i,
    ensures
        count_empty_to(b, i) <= i,
    decreases i,
{
    if i > 0 {
        lemma_count_empty_to_le(b, i - 1);
    }
}

/// Writing a marker over an empty square lowers the empty count of the first
/// `j` squares by one when the square lies among them, else leaves it alone.
pub proof fn lemma_count_empty_to_update(
    b: Seq<SquareState>,
    i: int,
    s: SquareState,
    j: int,
)
    requires
        0 <= i < b.len(),
        b[i] == SquareState::Empty,
        s != SquareState::Empty,
        0 <= j <= b.len(),
    ensures
        count_empty_to(b.update(i, s), j) == if i < j {
            count_empty_to(b, j) - 1
        } else {
            count_empty_to(b, j) as int
        },
    decreases j,
{
    if j > 0 {
        lemma_count_empty_to_update(b, i, s, j - 1);
    }
}

/// Writing a marker over an empty square lowers the board's empty count by one.
pub proof fn lemma_count_empty_update(b: Seq<SquareState>, i: int, s: SquareState)
    requires
        b.len() == 9,
        0 <= i < 9,
        b[i] == SquareState::Empty,
        s != SquareState::Empty,
    ensures
        count_empty(b.update(i, s)) == count_empty(b) - 1,
{
    lemma_count_empty_to_update(b, i, s, 9);
}

/// A board with an empty square has a positive empty count.
pub proof fn lemma_count_empty_pos(b: Seq<SquareState>, i: int)
    requires
        b.len() == 9,
        0 <= i < 9,
        b[i] == SquareState::Empty,
    ensures
        count_empty(b) >= 1,
{
    lemma_count_empty_to_ge_one(b, i, 9);
}

proof fn lemma_count_empty_to_ge_one(b: Seq<SquareState>, i: int, j: int)
    requires
        0 <= i < j,
        b[i] == SquareState::Empty,
    ensures
        count_empty_to(b, j) >= 1,
    decreases j,
{
    if i < j - 1 {
        lemma_count_empty_to_ge_one(b, i, j - 1);
    }
}

} // verus!
