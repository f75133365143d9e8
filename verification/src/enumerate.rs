//! Outcome enumeration: the exhaustive search below an unfinished position.
//!
//! From an unfinished position the enumerator tries every empty square for
//! the side to move, alternates sides, and counts every terminal position
//! the game can reach. The tally is always kept from the fixed perspective
//! of the deciding agent, which is passed explicitly. The board never has
//! more than nine empty squares, so a tally can count at most 9! = 362880
//! leaves; the bounds below make every count fit comfortably in a `u64`.

use vstd::prelude::*;
use crate::board::{
    Board, PlayerState, SquareState, count_empty, count_empty_to, lemma_count_empty_pos,
    lemma_count_empty_to_le, lemma_count_empty_update,
};
use crate::evaluate::{analyze_board, spec_analyze};
use crate::tally::{
    Outcome, OutcomeTally, Tally, tally_add, tally_one, tally_total, tally_zero,
};

verus! {

/// The factorial of `n`, the worst-case leaf count of a search over `n`
/// empty squares.
pub open spec fn fact(n: nat) -> nat
    decreases n,
{
    if n == 0 {
        1
    } else {
        n * fact((n - 1) as nat)
    }
}

proof fn lemma_fact_pos(n: nat)
    ensures
        fact(n) >= 1,
    decreases n,
{
    if n > 0 {
        lemma_fact_pos((n - 1) as nat);
        assert(n * fact((n - 1) as nat) >= 1) by (nonlinear_arith)
            requires
                n >= 1,
                fact((n - 1) as nat) >= 1,
        ;
    }
}

proof fn lemma_fact_mono(m: nat, n: nat)
    requires
        m <= n,
    ensures
        fact(m) <= fact(n),
    decreases n,
{
    if m < n {
        lemma_fact_mono(m, (n - 1) as nat);
        lemma_fact_pos((n - 1) as nat);
        assert(fact((n - 1) as nat) <= n * fact((n - 1) as nat)) by (nonlinear_arith)
            requires
                n >= 1,
                fact((n - 1) as nat) >= 0,
        ;
    }
}

/// The tally of every terminal position reachable from `b` when `current`
/// moves next and results are judged from `agent`'s perspective: an already
/// decided or full board counts as the one leaf it is; otherwise each empty
/// square is tried in row-major order and the children's tallies are summed.
pub open spec fn spec_outcomes(b: Seq<SquareState>, current: PlayerState, agent: PlayerState) -> Tally
    decreases count_empty(b), 10int,
{
    if spec_analyze(b, agent) != Outcome::Unfinished {
        tally_one(spec_analyze(b, agent))
    } else {
        spec_outcomes_from(b, current, agent, 0)
    }
}

/// The part of `spec_outcomes` contributed by the empty squares at flat
/// index `i` and beyond.
pub open spec fn spec_outcomes_from(
    b: Seq<SquareState>,
    current: PlayerState,
    agent: PlayerState,
    i: int,
) -> Tally
    decreases count_empty(b), 9 - i,
    via spec_outcomes_from_dec
{
    if b.len() != 9 || i < 0 || i >= 9 {
        tally_zero()
    } else if b[i] != SquareState::Empty {
        spec_outcomes_from(b, current, agent, i + 1)
    } else {
        let b2 = b.update(i, current.spec_square());
        let child = if spec_analyze(b2, agent) != Outcome::Unfinished {
            tally_one(spec_analyze(b2, agent))
        } else {
            spec_outcomes(b2, current.spec_other(), agent)
        };
        tally_add(child, spec_outcomes_from(b, current, agent, i + 1))
    }
}

#[via_fn]
proof fn spec_outcomes_from_dec(
    b: Seq<SquareState>,
    current: PlayerState,
    agent: PlayerState,
    i: int,
) {
    if b.len() == 9 && 0 <= i < 9 && b[i] == SquareState::Empty {
        lemma_count_empty_update(b, i, current.spec_square());
    }
}

/// How many terminal positions legal alternating play can reach from `b`
/// with `current` to move: the reference count that a finished tally must
/// reproduce.
pub open spec fn leaf_count(b: Seq<SquareState>, current: PlayerState, agent: PlayerState) -> nat
    decreases count_empty(b), 10int,
{
    if spec_analyze(b, agent) != Outcome::Unfinished {
        1
    } else {
        leaf_count_from(b, current, agent, 0)
    }
}

/// The leaves reachable through the empty squares at flat index `i` and
/// beyond.
pub open spec fn leaf_count_from(
    b: Seq<SquareState>,
    current: PlayerState,
    agent: PlayerState,
    i: int,
) -> nat
    decreases count_empty(b), 9 - i,
    via leaf_count_from_dec
{
    if b.len() != 9 || i < 0 || i >= 9 {
        0
    } else if b[i] != SquareState::Empty {
        leaf_count_from(b, current, agent, i + 1)
    } else {
        let b2 = b.update(i, current.spec_square());
        let child = if spec_analyze(b2, agent) != Outcome::Unfinished {
            1nat
        } else {
            leaf_count(b2, current.spec_other(), agent)
        };
        child + leaf_count_from(b, current, agent, i + 1)
    }
}

#[via_fn]
proof fn leaf_count_from_dec(
    b: Seq<SquareState>,
    current: PlayerState,
    agent: PlayerState,
    i: int,
) {
    if b.len() == 9 && 0 <= i < 9 && b[i] == SquareState::Empty {
        lemma_count_empty_update(b, i, current.spec_square());
    }
}

/// Whether a position is terminal does not depend on the perspective it is
/// judged from: a completed line ends the game for both sides, and so does
/// a full board.
pub proof fn lemma_terminal_is_perspective_free(
    b: Seq<SquareState>,
    p: PlayerState,
    q: PlayerState,
)
    ensures
        (spec_analyze(b, p) == Outcome::Unfinished) == (spec_analyze(b, q)
            == Outcome::Unfinished),
{
}

/// Law: the number of reachable terminal leaves is a fact about the board
/// and the side to move alone; the perspective they are judged from plays
/// no part in it.
pub proof fn lemma_leaf_count_perspective_free(
    b: Seq<SquareState>,
    current: PlayerState,
    p: PlayerState,
    q: PlayerState,
)
    ensures
        leaf_count(b, current, p) == leaf_count(b, current, q),
    decreases count_empty(b), 10int,
{
    if spec_analyze(b, p) == Outcome::Unfinished {
        lemma_leaf_count_perspective_free_from(b, current, p, q, 0);
    }
}

proof fn lemma_leaf_count_perspective_free_from(
    b: Seq<SquareState>,
    current: PlayerState,
    p: PlayerState,
    q: PlayerState,
    i: int,
)
    ensures
        leaf_count_from(b, current, p, i) == leaf_count_from(b, current, q, i),
    decreases count_empty(b), 9 - i,
{
    if b.len() == 9 && 0 <= i < 9 {
        if b[i] == SquareState::Empty {
            lemma_count_empty_update(b, i, current.spec_square());
            let b2 = b.update(i, current.spec_square());
            if spec_analyze(b2, p) == Outcome::Unfinished {
                lemma_leaf_count_perspective_free(b2, current.spec_other(), p, q);
            }
        }
        lemma_leaf_count_perspective_free_from(b, current, p, q, i + 1);
    }
}

/// Law: an enumeration counts every reachable terminal position exactly
/// once — the Win, Loss and Draw counts of its tally sum to the number of
/// distinct terminal leaves reachable by legal alternating play.
pub proof fn lemma_tally_counts_leaves(b: Seq<SquareState>, current: PlayerState, agent: PlayerState)
    ensures
        tally_total(spec_outcomes(b, current, agent)) == leaf_count(b, current, agent),
    decreases count_empty(b), 10int,
{
    if spec_analyze(b, agent) == Outcome::Unfinished {
        lemma_tally_counts_leaves_from(b, current, agent, 0);
    }
}

proof fn lemma_tally_counts_leaves_from(
    b: Seq<SquareState>,
    current: PlayerState,
    agent: PlayerState,
    i: int,
)
    ensures
        tally_total(spec_outcomes_from(b, current, agent, i))
            == leaf_count_from(b, current, agent, i),
    decreases count_empty(b), 9 - i,
{
    if b.len() == 9 && 0 <= i < 9 {
        if b[i] == SquareState::Empty {
            lemma_count_empty_update(b, i, current.spec_square());
            let b2 = b.update(i, current.spec_square());
            if spec_analyze(b2, agent) == Outcome::Unfinished {
                lemma_tally_counts_leaves(b2, current.spec_other(), agent);
            }
        }
        lemma_tally_counts_leaves_from(b, current, agent, i + 1);
    }
}

proof fn lemma_outcomes_from_bound(
    b: Seq<SquareState>,
    current: PlayerState,
    agent: PlayerState,
    i: int,
)
    requires
        b.len() == 9,
        0 <= i <= 9,
        spec_analyze(b, agent) == Outcome::Unfinished,
    ensures
        count_empty_to(b, i) <= count_empty(b),
        tally_total(spec_outcomes_from(b, current, agent, i)) >= count_empty(b) - count_empty_to(
            b,
            i,
        ),
        tally_total(spec_outcomes_from(b, current, agent, i)) <= (count_empty(b) - count_empty_to(
            b,
            i,
        )) * fact((count_empty(b) - 1) as nat),
    decreases count_empty(b), 9 - i,
{
    let ghost e = count_empty(b);
    let ghost f = fact((e - 1) as nat);
    if i == 9 {
        assert(count_empty_to(b, 9) == e);
        assert((e - e) * f == 0) by (nonlinear_arith);
    } else if b[i] != SquareState::Empty {
        lemma_outcomes_from_bound(b, current, agent, i + 1);
        assert(count_empty_to(b, i + 1) == count_empty_to(b, i));
    } else {
        lemma_count_empty_update(b, i, current.spec_square());
        let b2 = b.update(i, current.spec_square());
        lemma_outcomes_from_bound(b, current, agent, i + 1);
        assert(count_empty_to(b, i + 1) == count_empty_to(b, i) + 1);
        let ghost tchild = if spec_analyze(b2, agent) != Outcome::Unfinished {
            tally_total(tally_one(spec_analyze(b2, agent)))
        } else {
            tally_total(spec_outcomes(b2, current.spec_other(), agent))
        };
        if spec_analyze(b2, agent) != Outcome::Unfinished {
            lemma_fact_pos((e - 1) as nat);
            assert(tchild == 1);
        } else {
            lemma_outcomes_bound(b2, current.spec_other(), agent);
            assert(count_empty(b2) == e - 1);
            assert(tchild <= f && tchild >= 1);
        }
        let ghost trest = tally_total(spec_outcomes_from(b, current, agent, i + 1));
        let ghost k = e - count_empty_to(b, i);
        assert(trest <= (k - 1) * f);
        assert(tchild + trest <= k * f) by (nonlinear_arith)
            requires
                tchild <= f,
                trest <= (k - 1) * f,
                k >= 1,
        ;
        assert(tally_total(spec_outcomes_from(b, current, agent, i)) == tchild + trest);
    }
}

/// Law: an enumeration never returns an all-zero tally, and it can count at
/// most one leaf for each ordering of the board's empty squares: the total
/// lies between 1 and the factorial of the number of empty squares.
pub proof fn lemma_outcomes_bound(b: Seq<SquareState>, current: PlayerState, agent: PlayerState)
    requires
        b.len() == 9,
    ensures
        1 <= tally_total(spec_outcomes(b, current, agent)),
        tally_total(spec_outcomes(b, current, agent)) <= fact(count_empty(b)),
    decreases count_empty(b), 10int,
{
    if spec_analyze(b, agent) != Outcome::Unfinished {
        lemma_fact_pos(count_empty(b));
    } else {
        assert(exists|j: int| 0 <= j < 9 && b[j] == SquareState::Empty);
        let j = choose|j: int| 0 <= j < 9 && b[j] == SquareState::Empty;
        lemma_count_empty_pos(b, j);
        lemma_outcomes_from_bound(b, current, agent, 0);
        let ghost e = count_empty(b);
        assert(count_empty_to(b, 0) == 0);
        assert(fact(e) == e * fact((e - 1) as nat));
    }
}

/// Law: whatever the position, the total of an enumeration's tally lies
/// between 1 and 9! = 362880, so every count fits far below `u64::MAX`.
pub proof fn lemma_outcomes_total_range(b: Seq<SquareState>, current: PlayerState, agent: PlayerState)
    requires
        b.len() == 9,
    ensures
        1 <= tally_total(spec_outcomes(b, current, agent)),
        tally_total(spec_outcomes(b, current, agent)) <= 362880,
{
    lemma_outcomes_bound(b, current, agent);
    lemma_count_empty_to_le(b, 9);
    lemma_fact_mono(count_empty(b), 9);
    assert(fact(9) == 362880) by {
        reveal_with_fuel(fact, 10);
    };
}

/// Enumerate every terminal position reachable from `board` when
/// `current_player` moves next, judging results from `agent`'s perspective,
/// and return the exact counts. The given board is only read, never changed.
pub fn find_outcomes(board: &Board, current_player: PlayerState, agent: PlayerState) -> (t:
    OutcomeTally)
    requires
        board.wf(),
    ensures
        t@ == spec_outcomes(board@, current_player, agent),
    decreases count_empty(board@),
{
    let first = analyze_board(board, agent);
    if first != Outcome::Unfinished {
        let mut t = OutcomeTally::new();
        t.record(first);
        return t;
    }
    proof {
        lemma_outcomes_total_range(board@, current_player, agent);
    }
    let mut scratch = board.duplicate();
    let mut acc = OutcomeTally::new();
    let marker = current_player.convert_to_square_state();
    let other = current_player.get_other_player();
    let mut i: usize = 0;
    while i < 9
        invariant
            board.wf(),
            scratch.wf(),
            scratch@ == board@,
            i <= 9,
            marker == current_player.spec_square(),
            other == current_player.spec_other(),
            spec_analyze(board@, agent) == Outcome::Unfinished,
            tally_add(acc@, spec_outcomes_from(board@, current_player, agent, i as int))
                == spec_outcomes_from(board@, current_player, agent, 0),
            tally_total(spec_outcomes_from(board@, current_player, agent, 0)) <= 362880,
        decreases 9 - i,
    {
        if scratch.cells[i] == SquareState::Empty {
            scratch.cells.set(i, marker);
            proof {
                lemma_count_empty_update(board@, i as int, marker);
            }
            let child = analyze_board(&scratch, agent);
            if child != Outcome::Unfinished {
                acc.record(child);
            } else {
                let sub = find_outcomes(&scratch, other, agent);
                acc.merge(&sub);
            }
            scratch.cells.set(i, SquareState::Empty);
            proof {
                assert(scratch@ =~= board@);
            }
        }
        i = i + 1;
    }
    acc
}

} // verus!
