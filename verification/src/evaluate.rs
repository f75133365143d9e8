//! Terminal evaluation: classify a position as won, lost, drawn or unfinished.
//!
//! A position is decided by a completed line of three equal markers. The
//! eight lines are scanned in a fixed order — the three rows, the three
//! columns, the main diagonal, the anti-diagonal — and the first completed
//! line found settles the result. Under legal alternating play at most one
//! line can be completed, so the order matters only on boards no real game
//! reaches.

use vstd::prelude::*;
use crate::board::{Board, PlayerState, SquareState};
use crate::tally::Outcome;

verus! {

/// The flat board index of square `k` (0, 1 or 2) of line `l` (0 to 7), in
/// scan order: rows 0..3, columns 3..6, main diagonal 6, anti-diagonal 7.
pub open spec fn line_idx(l: int, k: int) -> int {
    if l < 3 {
        3 * l + k
    } else if l < 6 {
        (l - 3) + 3 * k
    } else if l == 6 {
        4 * k
    } else {
        2 + 2 * k
    }
}

/// Line `l` is completed: its three squares hold one player's marker.
pub open spec fn line_won(b: Seq<SquareState>, l: int) -> bool {
    &&& b[line_idx(l, 0)] != SquareState::Empty
    &&& b[line_idx(l, 1)] == b[line_idx(l, 0)]
    &&& b[line_idx(l, 2)] == b[line_idx(l, 0)]
}

/// The marker a completed line `l` is made of.
pub open spec fn line_winner(b: Seq<SquareState>, l: int) -> SquareState {
    b[line_idx(l, 0)]
}

/// Some line of the board is completed.
pub open spec fn has_won_line(b: Seq<SquareState>) -> bool {
    exists|l: int| 0 <= l < 8 && line_won(b, l)
}

/// The first completed line at or after `l` in scan order; 8 when none is.
pub open spec fn first_won_line_from(b: Seq<SquareState>, l: int) -> int
    decreases 8 - l,
{
    if l < 0 || l >= 8 {
        8
    } else if line_won(b, l) {
        l
    } else {
        first_won_line_from(b, l + 1)
    }
}

/// The first completed line of the board in scan order; 8 when none is.
pub open spec fn first_won_line(b: Seq<SquareState>) -> int {
    first_won_line_from(b, 0)
}

/// Every square of the board is occupied.
pub open spec fn board_full(b: Seq<SquareState>) -> bool {
    forall|i: int| 0 <= i < 9 ==> b[i] != SquareState::Empty
}

/// What evaluation returns: Win or Loss as soon as some line is completed,
/// according to whether the first completed line belongs to `perspective`;
/// otherwise Unfinished while any square is empty, and Draw on a full board.
pub open spec fn spec_analyze(b: Seq<SquareState>, perspective: PlayerState) -> Outcome {
    if has_won_line(b) {
        if line_winner(b, first_won_line(b)) == perspective.spec_square() {
            Outcome::Win
        } else {
            Outcome::Loss
        }
    } else if !board_full(b) {
        Outcome::Unfinished
    } else {
        Outcome::Draw
    }
}

/// A scan that saw line `l` completed and nothing completed before it
/// identifies `l` as the first completed line.
pub proof fn lemma_first_won_line_is(b: Seq<SquareState>, l: int)
    requires
        0 <= l < 8,
        line_won(b, l),
        forall|k: int| 0 <= k < l ==> !line_won(b, k),
    ensures
        first_won_line(b) == l,
        has_won_line(b),
    decreases l,
{
    lemma_first_skips_prefix(b, 0, l);
}

proof fn lemma_first_skips_prefix(b: Seq<SquareState>, j: int, l: int)
    requires
        0 <= j <= l < 8,
        line_won(b, l),
        forall|k: int| j <= k < l ==> !line_won(b, k),
    ensures
        first_won_line_from(b, j) == l,
    decreases l - j,
{
    if j < l {
        lemma_first_skips_prefix(b, j + 1, l);
    }
}

/// The flat index of square `k` of line `l`.
fn line_index(l: usize, k: usize) -> (i: usize)
    requires
        l < 8,
        k < 3,
    ensures
        i == line_idx(l as int, k as int),
        i < 9,
{
    if l < 3 {
        3 * l + k
    } else if l < 6 {
        (l - 3) + 3 * k
    } else if l == 6 {
        4 * k
    } else {
        2 + 2 * k
    }
}

/// Classify the board from `current_player`'s perspective: scan the eight
/// lines in order and let the first completed one decide Win or Loss; with
/// no completed line, report Unfinished while a square is empty, else Draw.
pub fn analyze_board(board: &Board, current_player: PlayerState) -> (o: Outcome)
    requires
        board.wf(),
    ensures
        o == spec_analyze(board@, current_player),
{
    let mut l: usize = 0;
    while l < 8
        invariant
            board.wf(),
            l <= 8,
            forall|k: int| 0 <= k < l ==> !line_won(board@, k),
        decreases 8 - l,
    {
        let first = board.cells[line_index(l, 0)];
        let second = board.cells[line_index(l, 1)];
        let third = board.cells[line_index(l, 2)];
        if first != SquareState::Empty && second == first && third == first {
            proof {
                lemma_first_won_line_is(board@, l as int);
            }
            let winner = first.convert_to_player_state();
            if winner == current_player {
                return Outcome::Win;
            } else {
                return Outcome::Loss;
            }
        }
        l = l + 1;
    }
    proof {
        assert(!has_won_line(board@));
    }
    let mut i: usize = 0;
    while i < 9
        invariant
            board.wf(),
            i <= 9,
            !has_won_line(board@),
            forall|j: int| 0 <= j < i ==> board@[j] != SquareState::Empty,
        decreases 9 - i,
    {
        if board.cells[i] == SquareState::Empty {
            return Outcome::Unfinished;
        }
        i = i + 1;
    }
    Outcome::Draw
}

/// A position with a completed triple is already decided: the evaluation is
/// Win for the perspective whose marker fills the first completed line and
/// Loss for the other perspective, never Draw and never Unfinished.
pub proof fn lemma_triple_decides(b: Seq<SquareState>, perspective: PlayerState)
    requires
        b.len() == 9,
        crate::board::count_empty(b) % 2 == 1,
        crate::board::count_empty(b) >= 1,
        has_won_line(b),
    ensures
        spec_analyze(b, perspective) == if line_winner(b, first_won_line(b))
            == perspective.spec_square() {
            Outcome::Win
        } else {
            Outcome::Loss
        },
        spec_analyze(b, perspective) != Outcome::Draw,
        spec_analyze(b, perspective) != Outcome::Unfinished,
{
}

/// A fully occupied position with no completed triple evaluates to Draw,
/// for either perspective.
pub proof fn lemma_full_no_triple_is_draw(b: Seq<SquareState>, perspective: PlayerState)
    requires
        b.len() == 9,
        board_full(b),
        !has_won_line(b),
    ensures
        spec_analyze(b, perspective) == Outcome::Draw,
{
}

/// Evaluation is a pure function of the position and the perspective: any
/// two results that meet `analyze_board`'s contract on the same unchanged
/// position are identical, so evaluating twice yields the same outcome.
pub proof fn lemma_evaluate_idempotent(
    b: Seq<SquareState>,
    perspective: PlayerState,
    o1: Outcome,
    o2: Outcome,
)
    requires
        o1 == spec_analyze(b, perspective),
        o2 == spec_analyze(b, perspective),
    ensures
        o1 == o2,
{
}

} // verus!

