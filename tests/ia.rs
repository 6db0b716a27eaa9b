use tictactoe::board::{Board, Tile, TileState};
use tictactoe::game::{cell_index_from_code, get_move_from_ia, parse_arguments, CellCodeError};
use tictactoe::ia::{fill_in_segment_or_block_opponent, get_move, StrategyType};

const E: TileState = TileState::TileStateEmpty;
const X: TileState = TileState::TileStateCross;
const O: TileState = TileState::TileStateRound;

fn board_of(states: [TileState; 9]) -> Board {
    let mut board = Board::default();
    for (i, s) in states.iter().enumerate() {
        board.board[i] = Tile { tile_state: *s, index_in_board: i };
    }
    board
}

#[test]
fn test_sequence_a1_a3_b2() {
    let board = Board {
        board: [
            Tile { tile_state: TileState::TileStateCross, index_in_board: 0 },
            Tile { tile_state: TileState::TileStateRound, index_in_board: 1 },
            Tile { tile_state: TileState::TileStateCross, index_in_board: 2 },
            Tile { tile_state: TileState::TileStateRound, index_in_board: 3 },
            Tile { tile_state: TileState::TileStateCross, index_in_board: 4 },
            Tile { tile_state: TileState::TileStateEmpty, index_in_board: 5 },
            Tile { tile_state: TileState::TileStateEmpty, index_in_board: 6 },
            Tile { tile_state: TileState::TileStateEmpty, index_in_board: 7 },
            Tile { tile_state: TileState::TileStateEmpty, index_in_board: 8 },
        ],
    };

    let next_move = get_move(&board, TileState::TileStateRound);

    assert_eq!(next_move, 6);
}

#[test]
fn empty_board_first_cell_for_either_side() {
    let board = Board::default();
    assert_eq!(get_move(&board, X), 0);
    assert_eq!(get_move(&board, O), 0);
}

#[test]
fn full_board_without_line_is_a_draw() {
    let board = board_of([X, O, X, X, O, O, O, X, X]);
    assert!(board.is_board_full());
    assert!(!board.is_line_achieved());
}

#[test]
fn immediate_win_on_row_zero() {
    let board = board_of([X, X, E, E, E, E, E, E, E]);
    assert_eq!(get_move(&board, X), 2);
}

#[test]
fn win_preferred_over_earlier_block() {
    // round threatens row 0, cross can complete a later row
    let board = board_of([O, O, E, E, E, E, X, X, E]);
    assert_eq!(get_move(&board, X), 8);
    assert_eq!(get_move(&board, O), 2);
    let board = board_of([O, O, E, X, X, E, E, E, E]);
    assert_eq!(get_move(&board, X), 5);
}

#[test]
fn last_block_in_scan_order_is_chosen() {
    // round threatens row 0 (cell 2) and column 0 (cell 6): the column comes later
    let board = board_of([O, O, E, O, X, E, E, E, X]);
    assert_eq!(get_move(&board, X), 6);
    assert_eq!(fill_in_segment_or_block_opponent(&board, X), Some(6));
}

#[test]
fn block_on_a_diagonal() {
    let board = board_of([E, X, E, E, O, X, O, E, E]);
    assert_eq!(get_move(&board, X), 2);
}

#[test]
fn first_free_cell_when_nothing_to_complete() {
    let board = board_of([X, O, E, E, E, E, E, E, E]);
    assert_eq!(get_move(&board, X), 2);
    assert_eq!(fill_in_segment_or_block_opponent(&board, X), None);
}

#[test]
fn strategies_on_their_own() {
    let board = board_of([X, O, X, O, E, E, E, E, E]);
    let completion = StrategyType::StrategyManageLastTileOnSegment;
    let first_free = StrategyType::StrategyFirstFreeTile;
    assert_eq!(completion.get_index_using_strategy(&board, X), None);
    assert_eq!(first_free.get_index_using_strategy(&board, X), Some(4));
    let full = board_of([X, O, X, X, O, O, O, X, X]);
    assert_eq!(first_free.get_index_using_strategy(&full, X), None);
}

#[test]
fn is_board_full_needs_every_cell() {
    assert!(!Board::default().is_board_full());
    assert!(!board_of([X, O, X, X, O, O, O, X, E]).is_board_full());
    assert!(!board_of([E, O, X, X, O, O, O, X, X]).is_board_full());
}

#[test]
fn every_segment_can_be_achieved() {
    let segments: [[usize; 3]; 8] = [
        [0, 1, 2],
        [3, 4, 5],
        [6, 7, 8],
        [0, 3, 6],
        [1, 4, 7],
        [2, 5, 8],
        [0, 4, 8],
        [2, 4, 6],
    ];
    for seg in segments.iter() {
        for side in [X, O] {
            let mut states = [E; 9];
            for i in seg.iter() {
                states[*i] = side;
            }
            assert!(board_of(states).is_line_achieved());
        }
    }
    assert!(!Board::default().is_line_achieved());
    assert!(!board_of([X, X, O, E, E, E, E, E, E]).is_line_achieved());
}

#[test]
fn segment_views() {
    let board = board_of([X, O, E, E, X, O, O, E, X]);
    let row = board.get_line(1).unwrap();
    assert_eq!([row[0].index_in_board, row[1].index_in_board, row[2].index_in_board], [3, 4, 5]);
    let col = board.get_column(2).unwrap();
    assert_eq!([col[0].index_in_board, col[1].index_in_board, col[2].index_in_board], [2, 5, 8]);
    let diag = board.get_diagonal(1).unwrap();
    assert_eq!([diag[0].index_in_board, diag[1].index_in_board, diag[2].index_in_board], [2, 4, 6]);
    assert_eq!(diag[1].tile_state, X);
    assert!(board.get_line(3).is_none());
    assert!(board.get_column(3).is_none());
    assert!(board.get_diagonal(2).is_none());
    let seg = board.get_segment(6);
    assert_eq!([seg[0].index_in_board, seg[1].index_in_board, seg[2].index_in_board], [0, 4, 8]);
}

#[test]
fn apply_move_refuses_occupied_cell() {
    let mut board = Board::default();
    assert!(board.apply_move(4, X));
    assert_eq!(board.board[4].tile_state, X);
    assert!(!board.apply_move(4, O));
    assert_eq!(board.board[4].tile_state, X);
    assert_eq!(board.board[4].index_in_board, 4);
}

#[test]
fn selected_move_is_always_empty() {
    let boards = [
        board_of([X, O, X, O, X, O, E, E, E]),
        board_of([X, X, X, O, O, E, E, E, E]),
        board_of([O, X, O, X, O, X, X, O, E]),
    ];
    for board in boards.iter() {
        for side in [X, O] {
            let m = get_move(board, side);
            assert!(m < 9);
            assert_eq!(board.board[m].tile_state, E);
        }
    }
}

#[test]
fn automated_move_is_checked() {
    let board = board_of([X, X, E, E, E, E, E, E, E]);
    assert_eq!(get_move_from_ia(&board, O), Ok(2));
}

#[test]
fn cell_codes() {
    assert_eq!(cell_index_from_code('A', '1'), Ok(0));
    assert_eq!(cell_index_from_code('A', '3'), Ok(2));
    assert_eq!(cell_index_from_code('B', '2'), Ok(4));
    assert_eq!(cell_index_from_code('C', '1'), Ok(6));
    assert_eq!(cell_index_from_code('C', '3'), Ok(8));
    assert_eq!(cell_index_from_code('D', '1'), Err(CellCodeError::InvalidLine));
    assert_eq!(cell_index_from_code('A', '4'), Err(CellCodeError::InvalidColumn));
    assert_eq!(cell_index_from_code('a', '0'), Err(CellCodeError::InvalidLine));
}

#[test]
fn solo_argument_turns_on_the_opponent() {
    let args = vec!["game".to_string(), "solo".to_string()];
    assert!(parse_arguments(args).ia_opponent);
    let args = vec!["game".to_string(), "sol".to_string(), "solo2".to_string()];
    assert!(!parse_arguments(args).ia_opponent);
    assert!(!parse_arguments(Vec::new()).ia_opponent);
}

#[test]
fn state_symbols() {
    assert_eq!(E.symbol(), ' ');
    assert_eq!(X.symbol(), 'X');
    assert_eq!(O.symbol(), 'O');
}
