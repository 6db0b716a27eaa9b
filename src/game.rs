use vstd::prelude::*;
use crate::board::{Board, TileState};
use crate::ia::{get_move, selected_move};

verus! {

/// How a game is played: whether the round side is the automated opponent.
#[derive(Copy, Clone, Debug, PartialEq, Eq, Structural)]
pub struct GameSettings {
    pub ia_opponent: bool,
}

/// Why a cell code was refused.
#[derive(Copy, Clone, Debug, PartialEq, Eq, Structural)]
pub enum CellCodeError {
    InvalidLine,
    InvalidColumn,
}

/// The settings that the command-line arguments ask for: the automated
/// opponent plays when one argument is exactly `solo`.
pub fn parse_arguments(args: Vec<String>) -> (r: GameSettings)
    ensures
        r.ia_opponent == exists|i: int| 0 <= i < args.len() && #[trigger] args@[i]@ == "solo"@,
{
    let solo = String::from_str("solo");
    let mut found = false;
    let mut i: usize = 0;
    while i < args.len()
        invariant
            i <= args.len(),
            solo@ == "solo"@,
            found == exists|j: int| 0 <= j < i && #[trigger] args@[j]@ == "solo"@,
        decreases args.len() - i,
    {
        if args[i] == solo {
            found = true;
        }
        i += 1;
    }
    GameSettings { ia_opponent: found }
}

/// The cell named by a line letter (`A` to `C`, top to bottom) and a column
/// digit (`1` to `3`, left to right).
pub fn cell_index_from_code(line: char, column: char) -> (r: Result<usize, CellCodeError>)
    ensures
        !('A' <= line <= 'C') <==> r == Err::<usize, CellCodeError>(CellCodeError::InvalidLine),
        ('A' <= line <= 'C' && !('1' <= column <= '3')) <==> r == Err::<usize, CellCodeError>(
            CellCodeError::InvalidColumn,
        ),
        r matches Ok(i) ==> i == 3 * (line as int - 'A' as int) + (column as int - '1' as int),
{
    let row: usize = if line == 'A' {
        0
    } else if line == 'B' {
        1
    } else if line == 'C' {
        2
    } else {
        return Err(CellCodeError::InvalidLine);
    };
    let col: usize = if column == '1' {
        0
    } else if column == '2' {
        1
    } else if column == '3' {
        2
    } else {
        return Err(CellCodeError::InvalidColumn);
    };
    Ok(3 * row + col)
}

/// The automated side's move, checked to name a cell of the board.
pub fn get_move_from_ia(board: &Board, ia_tile_state: TileState) -> (r: Result<usize, String>)
    requires
        board.wf(),
        !board.full(),
    ensures
        r matches Ok(i) && i < 9 && board.state(i as int) == TileState::TileStateEmpty
            && selected_move(*board, ia_tile_state, i),
{
    let index = get_move(board, ia_tile_state);
    if index <= 8 {
        Ok(index)
    } else {
        Err(String::from_str("Invalid index returned by IA engine"))
    }
}

} // verus!
