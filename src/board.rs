use vstd::prelude::*;

verus! {

/// What a cell of the grid holds.
#[derive(Copy, Clone, Debug, PartialEq, Eq, Structural)]
pub enum TileState {
    TileStateEmpty,
    TileStateCross,
    TileStateRound,
}

impl TileState {
    /// The character that shows this state on a printed board.
    pub fn symbol(&self) -> (c: char)
        ensures
            c == match *self {
                TileState::TileStateEmpty => ' ',
                TileState::TileStateCross => 'X',
                TileState::TileStateRound => 'O',
            },
    {
        match self {
            TileState::TileStateEmpty => ' ',
            TileState::TileStateCross => 'X',
            TileState::TileStateRound => 'O',
        }
    }
}

/// One cell of the grid: its content and its fixed place in row-major order.
#[derive(Copy, Clone, Debug)]
pub struct Tile {
    pub tile_state: TileState,
    pub index_in_board: usize,
}

/// The 3x3 grid, cells numbered 0 to 8 row by row.
#[derive(Copy, Clone, Debug)]
pub struct Board {
    pub board: [Tile; 9],
}

/// The flat index of the `j`-th cell of segment `k`, segments numbered in scan
/// order: rows 0 to 2, then columns (3 to 5), then the two diagonals (6 and 7).
pub open spec fn segment_cell(k: int, j: int) -> int {
    if k < 3 {
        3 * k + j
    } else if k < 6 {
        (k - 3) + 3 * j
    } else if k == 6 {
        4 * j
    } else {
        2 + 2 * j
    }
}

impl Default for Board {
    /// A board whose nine cells are all empty.
    fn default() -> (r: Self)
        ensures
            r.wf(),
            forall|i: int| 0 <= i < 9 ==> #[trigger] r.state(i) == TileState::TileStateEmpty,
    {
        let e = TileState::TileStateEmpty;
        Board {
            board: [
                Tile { tile_state: e, index_in_board: 0 },
                Tile { tile_state: e, index_in_board: 1 },
                Tile { tile_state: e, index_in_board: 2 },
                Tile { tile_state: e, index_in_board: 3 },
                Tile { tile_state: e, index_in_board: 4 },
                Tile { tile_state: e, index_in_board: 5 },
                Tile { tile_state: e, index_in_board: 6 },
                Tile { tile_state: e, index_in_board: 7 },
                Tile { tile_state: e, index_in_board: 8 },
            ],
        }
    }
}

impl Board {
    /// Every cell remembers its own position.
    pub open spec fn wf(&self) -> bool {
        forall|i: int| 0 <= i < 9 ==> #[trigger] self.board[i].index_in_board == i
    }

    /// The content of cell `i`.
    pub open spec fn state(&self, i: int) -> TileState {
        self.board[i].tile_state
    }

    /// No cell is empty.
    pub open spec fn full(&self) -> bool {
        forall|i: int| 0 <= i < 9 ==> #[trigger] self.state(i) != TileState::TileStateEmpty
    }

    /// Segment `k` holds three equal non-empty states.
    pub open spec fn segment_completed(&self, k: int) -> bool {
        &&& self.state(segment_cell(k, 0)) != TileState::TileStateEmpty
        &&& self.state(segment_cell(k, 0)) == self.state(segment_cell(k, 1))
        &&& self.state(segment_cell(k, 1)) == self.state(segment_cell(k, 2))
    }

    /// Some segment is completed.
    pub open spec fn line_achieved(&self) -> bool {
        exists|k: int| 0 <= k < 8 && #[trigger] self.segment_completed(k)
    }

    /// Row `line_index` (0 to 2), left to right; nothing for another index.
    pub fn get_line<'a>(&'a self, line_index: usize) -> (r: Option<[&'a Tile; 3]>)
        ensures
            r.is_some() == (line_index < 3),
            r matches Some(a) ==> forall|j: int| 0 <= j < 3 ==> *#[trigger] a[j] == self.board[3 * line_index + j],
    {
        if line_index < 3 {
            Some([&self.board[3 * line_index], &self.board[3 * line_index + 1], &self.board[3 * line_index + 2]])
        } else {
            None
        }
    }

    /// Column `column_index` (0 to 2), top to bottom; nothing for another index.
    pub fn get_column<'a>(&'a self, column_index: usize) -> (r: Option<[&'a Tile; 3]>)
        ensures
            r.is_some() == (column_index < 3),
            r matches Some(a) ==> forall|j: int| 0 <= j < 3 ==> *#[trigger] a[j] == self.board[column_index + 3 * j],
    {
        if column_index < 3 {
            Some([&self.board[column_index], &self.board[column_index + 3], &self.board[column_index + 6]])
        } else {
            None
        }
    }

    /// Diagonal 0 runs from the top left corner, diagonal 1 from the top right
    /// one; nothing for another index.
    pub fn get_diagonal<'a>(&'a self, diagonal_index: usize) -> (r: Option<[&'a Tile; 3]>)
        ensures
            r.is_some() == (diagonal_index < 2),
            r matches Some(a) ==> forall|j: int| 0 <= j < 3 ==> *#[trigger] a[j] == self.board[segment_cell(6 + diagonal_index, j)],
    {
        if diagonal_index == 0 {
            Some([&self.board[0], &self.board[4], &self.board[8]])
        } else if diagonal_index == 1 {
            Some([&self.board[2], &self.board[4], &self.board[6]])
        } else {
            None
        }
    }

    /// Segment `k` in scan order: rows, then columns, then diagonals.
    pub fn get_segment<'a>(&'a self, k: usize) -> (a: [&'a Tile; 3])
        requires
            k < 8,
        ensures
            forall|j: int| 0 <= j < 3 ==> *#[trigger] a[j] == self.board[segment_cell(k as int, j)],
    {
        let r = if k < 3 {
            self.get_line(k)
        } else if k < 6 {
            self.get_column(k - 3)
        } else {
            self.get_diagonal(k - 6)
        };
        match r {
            Some(a) => a,
            None => {
                assert(false);
                [&self.board[0], &self.board[0], &self.board[0]]
            },
        }
    }

    /// No cell is empty.
    pub fn is_board_full(&self) -> (r: bool)
        ensures
            r == self.full(),
    {
        let mut i: usize = 0;
        while i < 9
            invariant
                i <= 9,
                forall|j: int| 0 <= j < i ==> #[trigger] self.state(j) != TileState::TileStateEmpty,
            decreases 9 - i,
        {
            if self.board[i].tile_state == TileState::TileStateEmpty {
                assert(self.state(i as int) == TileState::TileStateEmpty);
                return false;
            }
            i += 1;
        }
        true
    }

    /// Puts `side` on cell `index` if that cell is empty; an occupied cell is
    /// left as it is, and the result tells which happened.
    pub fn apply_move(&mut self, index: usize, side: TileState) -> (r: bool)
        requires
            index < 9,
        ensures
            r == (old(self).state(index as int) == TileState::TileStateEmpty),
            r ==> final(self).board@ == old(self).board@.update(
                index as int,
                Tile { tile_state: side, index_in_board: old(self).board[index as int].index_in_board },
            ),
            !r ==> *final(self) == *old(self),
            old(self).wf() ==> final(self).wf(),
    {
        if self.board[index].tile_state != TileState::TileStateEmpty {
            return false;
        }
        self.board[index].tile_state = side;
        true
    }

    /// Some row, column or diagonal holds three equal non-empty states.
    pub fn is_line_achieved(&self) -> (r: bool)
        ensures
            r == self.line_achieved(),
    {
        let mut k: usize = 0;
        while k < 8
            invariant
                k <= 8,
                forall|j: int| 0 <= j < k ==> !#[trigger] self.segment_completed(j),
            decreases 8 - k,
        {
            let s = self.get_segment(k);
            let first = s[0].tile_state;
            if first != TileState::TileStateEmpty && first == s[1].tile_state && first == s[2].tile_state {
                assert(self.segment_completed(k as int));
                return true;
            }
            k += 1;
        }
        false
    }
}

} // verus!
