use tictactoe::board::{Board, PlayerState, SquareState};
use tictactoe::enumerate::find_outcomes;
use tictactoe::evaluate::analyze_board;
use tictactoe::select::select_move;
use tictactoe::tally::{Outcome, OutcomeTally};

fn board_of(pattern: [char; 9]) -> Board {
    let mut cells: Vec<SquareState> = Vec::new();
    for c in pattern.iter() {
        cells.push(match c {
            'X' => SquareState::X,
            'O' => SquareState::O,
            _ => SquareState::Empty,
        });
    }
    Board::from_cells(cells)
}

const LINES: [[usize; 3]; 8] = [
    [0, 1, 2],
    [3, 4, 5],
    [6, 7, 8],
    [0, 3, 6],
    [1, 4, 7],
    [2, 5, 8],
    [0, 4, 8],
    [2, 4, 6],
];

// An independent terminal check, written directly from the rules of the game.
fn ref_analyze(cells: &[SquareState], perspective: PlayerState) -> Outcome {
    for line in LINES.iter() {
        let first = cells[line[0]];
        if first != SquareState::Empty && cells[line[1]] == first && cells[line[2]] == first {
            let owner = match first {
                SquareState::X => PlayerState::X,
                _ => PlayerState::O,
            };
            return if owner == perspective { Outcome::Win } else { Outcome::Loss };
        }
    }
    if cells.iter().any(|&c| c == SquareState::Empty) {
        Outcome::Unfinished
    } else {
        Outcome::Draw
    }
}

// A brute-force reference recursion that only counts terminal leaves.
fn ref_leaves(cells: &mut Vec<SquareState>, current: PlayerState, agent: PlayerState) -> u64 {
    if ref_analyze(cells, agent) != Outcome::Unfinished {
        return 1;
    }
    let marker = match current {
        PlayerState::X => SquareState::X,
        PlayerState::O => SquareState::O,
    };
    let next = match current {
        PlayerState::X => PlayerState::O,
        PlayerState::O => PlayerState::X,
    };
    let mut leaves: u64 = 0;
    for i in 0..9 {
        if cells[i] != SquareState::Empty {
            continue;
        }
        cells[i] = marker;
        if ref_analyze(cells, agent) != Outcome::Unfinished {
            leaves += 1;
        } else {
            leaves += ref_leaves(cells, next, agent);
        }
        cells[i] = SquareState::Empty;
    }
    leaves
}

#[test]
fn empty_board_is_unfinished() {
    let board = Board::new();
    assert_eq!(analyze_board(&board, PlayerState::X), Outcome::Unfinished);
    assert_eq!(analyze_board(&board, PlayerState::O), Outcome::Unfinished);
}

#[test]
fn full_board_without_triple_is_draw() {
    let board = board_of(['X', 'O', 'X', 'X', 'O', 'O', 'O', 'X', 'X']);
    assert_eq!(analyze_board(&board, PlayerState::X), Outcome::Draw);
    assert_eq!(analyze_board(&board, PlayerState::O), Outcome::Draw);
}

#[test]
fn completed_triple_decides() {
    // Five empty squares (an odd number) remain beside a completed X row.
    let board = board_of(['X', 'X', 'X', 'O', '.', '.', '.', '.', 'O']);
    assert_eq!(analyze_board(&board, PlayerState::X), Outcome::Win);
    assert_eq!(analyze_board(&board, PlayerState::O), Outcome::Loss);

    // A completed O column, seen from both sides.
    let column = board_of(['O', 'X', '.', 'O', 'X', '.', 'O', '.', 'X']);
    assert_eq!(analyze_board(&column, PlayerState::O), Outcome::Win);
    assert_eq!(analyze_board(&column, PlayerState::X), Outcome::Loss);
}

#[test]
fn evaluate_is_idempotent() {
    let board = board_of(['X', 'O', '.', '.', 'X', '.', '.', '.', 'O']);
    let first = analyze_board(&board, PlayerState::X);
    let second = analyze_board(&board, PlayerState::X);
    assert_eq!(first, second);
}

#[test]
fn enumerate_counts_terminal_leaves() {
    let boards = [
        ['.', '.', '.', '.', '.', '.', '.', '.', '.'],
        ['X', 'X', '.', 'O', 'O', '.', '.', '.', '.'],
        ['X', 'O', 'X', '.', 'O', '.', '.', 'X', '.'],
        ['X', 'X', 'X', 'O', 'O', '.', '.', '.', '.'],
    ];
    for pattern in boards.iter() {
        let board = board_of(*pattern);
        let tally = find_outcomes(&board, PlayerState::X, PlayerState::X);
        let mut cells = board.cells.clone();
        let expected = ref_leaves(&mut cells, PlayerState::X, PlayerState::X);
        assert_eq!(tally.wins + tally.losses + tally.draws, expected);
        assert!(tally.wins + tally.losses + tally.draws >= 1);
    }
}

#[test]
fn single_forced_draw_is_tallied_once() {
    // One move from a forced draw: eight squares filled, no completed triple.
    let board = board_of(['X', 'O', 'X', 'X', 'O', 'O', 'O', 'X', '.']);
    let tally = find_outcomes(&board, PlayerState::X, PlayerState::X);
    assert_eq!(tally.draws, 1);
    assert_eq!(tally.wins, 0);
    assert_eq!(tally.losses, 0);
}

#[test]
fn enumeration_and_selection_leave_board_unchanged() {
    let board = board_of(['X', 'X', '.', 'O', 'O', '.', '.', '.', '.']);
    let snapshot = board.cells.clone();
    let _ = find_outcomes(&board, PlayerState::O, PlayerState::X);
    assert_eq!(board.cells, snapshot);
    let _ = select_move(&board, PlayerState::X);
    assert_eq!(board.cells, snapshot);
}

#[test]
fn empty_board_candidates_can_draw() {
    // From the empty board, every candidate first move for X keeps some
    // drawn continuation among its leaves.
    let board = Board::new();
    for i in 0..9 {
        let mut with_move = Board::new();
        with_move.set(i / 3, i % 3, SquareState::X);
        let tally = find_outcomes(&with_move, PlayerState::O, PlayerState::X);
        assert!(tally.draws > 0);
        assert!(tally.wins + tally.losses + tally.draws >= 1);
    }
    // The selection from the empty board follows the documented score rule.
    let picked = select_move(&board, PlayerState::X).expect("the empty board offers a move");
    let reference = ref_best_cell(&board, PlayerState::X).expect("reference finds a move");
    assert_eq!(3 * picked.row + picked.column, reference);
}

// An independent selection pass: score each candidate by its win share plus
// a quarter of its draw share, tie-break on the lower loss share, compare
// the fractions exactly by cross-multiplication.
fn ref_best_cell(board: &Board, agent: PlayerState) -> Option<usize> {
    let marker = match agent {
        PlayerState::X => SquareState::X,
        PlayerState::O => SquareState::O,
    };
    let opponent = match agent {
        PlayerState::X => PlayerState::O,
        PlayerState::O => PlayerState::X,
    };
    let mut best: Option<usize> = None;
    let (mut bw, mut bl, mut bd, mut bt): (u128, u128, u128, u128) = (0, 1, 0, 1);
    for i in 0..9 {
        if board.cells[i] != SquareState::Empty {
            continue;
        }
        let mut trial = Board::from_cells(board.cells.clone());
        trial.set(i / 3, i % 3, marker);
        let t = find_outcomes(&trial, opponent, agent);
        let (w, l, d) = (t.wins as u128, t.losses as u128, t.draws as u128);
        let total = w + l + d;
        let score = 4 * w + d;
        let best_score = 4 * bw + bd;
        if score * bt > best_score * total
            || (score * bt == best_score * total && l * bt < bl * total)
        {
            best = Some(i);
            bw = w;
            bl = l;
            bd = d;
            bt = total;
        }
    }
    best
}

#[test]
fn winning_move_is_selected() {
    let board = board_of(['X', 'X', '.', 'O', 'O', '.', '.', '.', '.']);
    // Placing X on the open end of its row finishes the game at once.
    let mut finished = board_of(['X', 'X', '.', 'O', 'O', '.', '.', '.', '.']);
    finished.set(0, 2, SquareState::X);
    assert_eq!(analyze_board(&finished, PlayerState::X), Outcome::Win);
    // The selector must pick that square.
    let picked = select_move(&board, PlayerState::X).expect("a move must be picked");
    assert_eq!((picked.row, picked.column), (0, 2));
    assert_eq!(picked.wins, 1);
    assert_eq!(picked.losses, 0);
    assert_eq!(picked.draws, 0);
    assert_eq!(picked.total, 1);
}

#[test]
fn selection_matches_reference_on_midgame_boards() {
    let boards = [
        ['X', 'O', '.', '.', 'X', '.', '.', '.', 'O'],
        ['O', '.', '.', '.', 'X', '.', '.', '.', '.'],
        ['X', 'O', 'X', '.', 'O', '.', '.', 'X', '.'],
    ];
    for pattern in boards.iter() {
        let board = board_of(*pattern);
        let picked = select_move(&board, PlayerState::X).map(|mc| 3 * mc.row + mc.column);
        let reference = ref_best_cell(&board, PlayerState::X);
        assert_eq!(picked, reference);
    }
}

#[test]
fn hopeless_position_yields_no_move() {
    // Whichever of the two open squares X takes, O answers on the other and
    // completes a diagonal: every candidate's leaves are all losses, and a
    // candidate that cannot win or draw is never adopted.
    let board = board_of(['O', 'X', 'O', 'X', 'O', 'X', '.', 'X', '.']);
    assert_eq!(analyze_board(&board, PlayerState::X), Outcome::Unfinished);
    let t6 = {
        let mut trial = board_of(['O', 'X', 'O', 'X', 'O', 'X', '.', 'X', '.']);
        trial.set(2, 0, SquareState::X);
        find_outcomes(&trial, PlayerState::O, PlayerState::X)
    };
    assert_eq!((t6.wins, t6.losses, t6.draws), (0, 1, 0));
    assert!(select_move(&board, PlayerState::X).is_none());
}

#[test]
fn full_board_has_no_move() {
    let board = board_of(['X', 'O', 'X', 'X', 'O', 'O', 'O', 'X', 'X']);
    assert!(select_move(&board, PlayerState::X).is_none());
}

#[test]
fn marker_conversions_round_trip() {
    assert_eq!(PlayerState::X.convert_to_square_state(), SquareState::X);
    assert_eq!(PlayerState::O.convert_to_square_state(), SquareState::O);
    assert_eq!(SquareState::X.convert_to_player_state(), PlayerState::X);
    assert_eq!(SquareState::O.convert_to_player_state(), PlayerState::O);
    assert_eq!(PlayerState::X.get_other_player(), PlayerState::O);
    assert_eq!(PlayerState::O.get_other_player(), PlayerState::X);
    assert_eq!(PlayerState::X.get_other_player().get_other_player(), PlayerState::X);
}

#[test]
fn tally_records_and_merges() {
    let mut a = OutcomeTally::new();
    a.record(Outcome::Win);
    a.record(Outcome::Draw);
    a.record(Outcome::Draw);
    assert_eq!((a.wins, a.losses, a.draws), (1, 0, 2));
    let mut b = OutcomeTally::new();
    b.record(Outcome::Loss);
    b.record(Outcome::Win);
    a.merge(&b);
    assert_eq!((a.wins, a.losses, a.draws), (2, 1, 2));
    assert_eq!(a.total(), 5);
}

#[test]
fn board_reads_back_what_was_set() {
    let mut board = Board::new();
    board.set(1, 2, SquareState::O);
    assert_eq!(board.get(1, 2), SquareState::O);
    assert_eq!(board.get(0, 0), SquareState::Empty);
    let copy = board.duplicate();
    assert_eq!(copy.cells, board.cells);
}
