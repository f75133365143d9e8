//! Move selection: pick the agent's best move by exhaustive enumeration.
//!
//! Every empty square is tried in row-major order. A candidate is scored by
//! its subtree tally as `winShare + drawShare / 4`, where the shares are the
//! Win and Draw fractions of the tally; a candidate replaces the best so far
//! when its score is strictly higher, or when the scores are equal and its
//! loss share is strictly lower. The running best starts at the sentinel
//! "score zero, loss share one", so a candidate whose leaves are all losses
//! never gets adopted and a board with such candidates only yields no move.
//! Scores are fractions of two bounded integers, so the comparisons are done
//! exactly, by cross-multiplication, with no rounding anywhere.

use vstd::prelude::*;
use crate::board::{Board, PlayerState, SquareState};
use crate::enumerate::{find_outcomes, lemma_outcomes_total_range, spec_outcomes};
use crate::tally::{Tally, tally_total};

verus! {

/// A candidate decision: the flat index of the chosen square and the tally
/// that earned it.
pub ghost struct Choice {
    pub cell: int,
    pub tally: Tally,
}

/// The tally the running best starts from: score zero and loss share one,
/// so that it loses to any candidate that can still win or draw.
pub open spec fn sentinel_tally() -> Tally {
    Tally { wins: 0, losses: 1, draws: 0 }
}

/// Four times a tally's score numerator: a candidate's score is
/// `(4 * wins + draws) / (4 * total)` of the maximum.
pub open spec fn score_num(t: Tally) -> nat {
    4 * t.wins + t.draws
}

/// The candidate tally `t` replaces the best tally `best`: a strictly
/// higher score, or an equal score and a strictly lower loss share. Both
/// fractions are compared by cross-multiplication.
pub open spec fn beats(t: Tally, best: Tally) -> bool {
    ||| score_num(t) * tally_total(best) > score_num(best) * tally_total(t)
    ||| (score_num(t) * tally_total(best) == score_num(best) * tally_total(t)
        && t.losses * tally_total(best) < best.losses * tally_total(t))
}

/// The tally the running best stands for: the sentinel until a candidate
/// has been adopted.
pub open spec fn best_tally(best: Option<Choice>) -> Tally {
    match best {
        Option::None => sentinel_tally(),
        Option::Some(c) => c.tally,
    }
}

/// The running best after scanning the empty squares at flat index `i` and
/// beyond, starting from `best`.
pub open spec fn spec_select_from(
    b: Seq<SquareState>,
    agent: PlayerState,
    i: int,
    best: Option<Choice>,
) -> Option<Choice>
    decreases 9 - i,
{
    if i < 0 || i >= 9 {
        best
    } else if b[i] != SquareState::Empty {
        spec_select_from(b, agent, i + 1, best)
    } else {
        let t = spec_outcomes(b.update(i, agent.spec_square()), agent.spec_other(), agent);
        let next = if beats(t, best_tally(best)) {
            Option::Some(Choice { cell: i, tally: t })
        } else {
            best
        };
        spec_select_from(b, agent, i + 1, next)
    }
}

/// The move the selector settles on for `agent` on board `b`, with the
/// tally that earned it; `None` when no empty square has a candidate that
/// can still win or draw.
pub open spec fn spec_select(b: Seq<SquareState>, agent: PlayerState) -> Option<Choice> {
    spec_select_from(b, agent, 0, Option::None)
}

/// The tally of the candidate move that puts `agent`'s marker on square `i`.
pub open spec fn candidate_tally(b: Seq<SquareState>, agent: PlayerState, i: int) -> Tally {
    spec_outcomes(b.update(i, agent.spec_square()), agent.spec_other(), agent)
}

/// A candidate that can still win or draw: only such a candidate ever beats
/// the sentinel and gets adopted.
pub open spec fn viable(b: Seq<SquareState>, agent: PlayerState, i: int) -> bool {
    candidate_tally(b, agent, i).wins + candidate_tally(b, agent, i).draws > 0
}

/// Law: the selector settles on a move exactly when some empty square's
/// candidate can still win or draw; on a board whose every candidate loses
/// all its leaves — and on a board with no empty square — it yields no move.
pub proof fn lemma_select_some_iff_viable(b: Seq<SquareState>, agent: PlayerState)
    ensures
        (spec_select(b, agent) is Some) <==> exists|i: int|
            0 <= i < 9 && b[i] == SquareState::Empty && viable(b, agent, i),
{
    lemma_select_from_some_iff(b, agent, 0, Option::None);
}

proof fn lemma_beats_sentinel(t: Tally)
    ensures
        beats(t, sentinel_tally()) == (t.wins + t.draws > 0),
{
    assert(tally_total(sentinel_tally()) == 1);
    assert(score_num(sentinel_tally()) == 0);
    assert(score_num(t) * tally_total(sentinel_tally()) == score_num(t));
    assert(t.losses * tally_total(sentinel_tally()) == t.losses);
    assert(sentinel_tally().losses * tally_total(t) == tally_total(t));
}

proof fn lemma_select_from_some_iff(
    b: Seq<SquareState>,
    agent: PlayerState,
    i: int,
    best: Option<Choice>,
)
    requires
        0 <= i,
    ensures
        (spec_select_from(b, agent, i, best) is Some) <==> (best is Some || exists|j: int|
            i <= j < 9 && b[j] == SquareState::Empty && viable(b, agent, j)),
    decreases 9 - i,
{
    if i < 0 || i >= 9 {
    } else if b[i] != SquareState::Empty {
        lemma_select_from_some_iff(b, agent, i + 1, best);
        assert(forall|j: int|
            i <= j < 9 && b[j] == SquareState::Empty && viable(b, agent, j) ==> i + 1 <= j);
    } else {
        let t = candidate_tally(b, agent, i);
        let next = if beats(t, best_tally(best)) {
            Option::Some(Choice { cell: i, tally: t })
        } else {
            best
        };
        lemma_select_from_some_iff(b, agent, i + 1, next);
        if best is None {
            lemma_beats_sentinel(t);
            if viable(b, agent, i) {
                assert(b[i] == SquareState::Empty && viable(b, agent, i));
            }
        }
    }
}

/// The move the selector picked: the square to play and the tally behind it.
pub struct MoveChoice {
    pub row: usize,
    pub column: usize,
    pub wins: u64,
    pub losses: u64,
    pub draws: u64,
    pub total: u64,
}

/// The decision a `MoveChoice` stands for.
pub open spec fn choice_of(mc: MoveChoice) -> Choice {
    Choice {
        cell: 3 * mc.row + mc.column,
        tally: Tally { wins: mc.wins as nat, losses: mc.losses as nat, draws: mc.draws as nat },
    }
}

/// The decision an optional `MoveChoice` stands for.
pub open spec fn abs_choice(r: Option<MoveChoice>) -> Option<Choice> {
    match r {
        Option::None => Option::None,
        Option::Some(mc) => Option::Some(choice_of(mc)),
    }
}

/// Scan the empty squares in row-major order, enumerate the subtree of each
/// candidate move for `agent`, and keep the best under the score-then-loss
/// rule. Returns the chosen square with its exact counts, or `None` when no
/// candidate can still win or draw (in particular on a board with no empty
/// square). The given board is only read, never changed.
pub fn select_move(board: &Board, agent: PlayerState) -> (r: Option<MoveChoice>)
    requires
        board.wf(),
    ensures
        abs_choice(r) == spec_select(board@, agent),
        r matches Option::Some(mc) ==> mc.row < 3 && mc.column < 3 && board@[3 * mc.row
            + mc.column] == SquareState::Empty && mc.total == tally_total(choice_of(mc).tally)
            && 1 <= mc.total <= 362880,
{
    let mut scratch = board.duplicate();
    let marker = agent.convert_to_square_state();
    let opponent = agent.get_other_player();
    let mut best: Option<MoveChoice> = None;
    let mut i: usize = 0;
    while i < 9
        invariant
            board.wf(),
            scratch.wf(),
            scratch@ == board@,
            i <= 9,
            marker == agent.spec_square(),
            opponent == agent.spec_other(),
            spec_select_from(board@, agent, i as int, abs_choice(best)) == spec_select(
                board@,
                agent,
            ),
            best matches Option::Some(mc) ==> mc.row < 3 && mc.column < 3 && board@[3 * mc.row
                + mc.column] == SquareState::Empty && mc.total == tally_total(choice_of(mc).tally)
                && 1 <= mc.total <= 362880 && mc.wins <= mc.total && mc.losses <= mc.total
                && mc.draws <= mc.total,
        decreases 9 - i,
    {
        if scratch.cells[i] == SquareState::Empty {
            scratch.cells.set(i, marker);
            let t = find_outcomes(&scratch, opponent, agent);
            proof {
                lemma_outcomes_total_range(scratch@, opponent, agent);
            }
            let total = t.total();
            let bw: u64;
            let bl: u64;
            let bd: u64;
            let bt: u64;
            match &best {
                None => {
                    bw = 0;
                    bl = 1;
                    bd = 0;
                    bt = 1;
                },
                Some(mc) => {
                    bw = mc.wins;
                    bl = mc.losses;
                    bd = mc.draws;
                    bt = mc.total;
                },
            }
            let cand_score = 4 * t.wins + t.draws;
            let best_score = 4 * bw + bd;
            proof {
                assert(cand_score * bt <= 1814400 * 362880) by (nonlinear_arith)
                    requires
                        cand_score <= 1814400,
                        bt <= 362880,
                ;
                assert(best_score * total <= 1814400 * 362880) by (nonlinear_arith)
                    requires
                        best_score <= 1814400,
                        total <= 362880,
                ;
                assert(t.losses * bt <= 362880 * 362880) by (nonlinear_arith)
                    requires
                        t.losses <= 362880,
                        bt <= 362880,
                ;
                assert(bl * total <= 362880 * 362880) by (nonlinear_arith)
                    requires
                        bl <= 362880,
                        total <= 362880,
                ;
            }
            let replaces = cand_score * bt > best_score * total || (cand_score * bt == best_score
                * total && t.losses * bt < bl * total);
            proof {
                assert(replaces == beats(t@, best_tally(abs_choice(best))));
                assert(i / 3 < 3 && i % 3 < 3 && 3 * (i / 3) + i % 3 == i) by {
                    vstd::arithmetic::div_mod::lemma_fundamental_div_mod(i as int, 3);
                };
            }
            if replaces {
                best = Some(
                    MoveChoice {
                        row: i / 3,
                        column: i % 3,
                        wins: t.wins,
                        losses: t.losses,
                        draws: t.draws,
                        total,
                    },
                );
            }
            scratch.cells.set(i, SquareState::Empty);
            proof {
                assert(scratch@ =~= board@);
            }
        }
        i = i + 1;
    }
    best
}

} // verus!

