use vstd::prelude::*;
use crate::board::{segment_cell, Board, Tile, TileState};

verus! {

/// Segment `k` has exactly one empty cell, and its two other cells hold the same state.
pub open spec fn one_short(b: Board, k: int) -> bool {
    let s0 = b.state(segment_cell(k, 0));
    let s1 = b.state(segment_cell(k, 1));
    let s2 = b.state(segment_cell(k, 2));
    let e = TileState::TileStateEmpty;
    ||| s0 == e && s1 != e && s1 == s2
    ||| s1 == e && s0 != e && s0 == s2
    ||| s2 == e && s0 != e && s0 == s1
}

/// The empty cell of a segment that is one move short of completion.
pub open spec fn open_cell(b: Board, k: int) -> int {
    if b.state(segment_cell(k, 0)) == TileState::TileStateEmpty {
        segment_cell(k, 0)
    } else if b.state(segment_cell(k, 1)) == TileState::TileStateEmpty {
        segment_cell(k, 1)
    } else {
        segment_cell(k, 2)
    }
}

/// The state held by the occupied cells of a segment that is one move short.
pub open spec fn holder(b: Board, k: int) -> TileState {
    if b.state(segment_cell(k, 0)) == TileState::TileStateEmpty {
        b.state(segment_cell(k, 1))
    } else {
        b.state(segment_cell(k, 0))
    }
}

/// Playing the open cell of segment `k` completes it for `side`.
pub open spec fn winning(b: Board, side: TileState, k: int) -> bool {
    one_short(b, k) && holder(b, k) == side
}

/// The opponent of `side` completes segment `k` by playing its open cell.
pub open spec fn blocking(b: Board, side: TileState, k: int) -> bool {
    one_short(b, k) && holder(b, k) != side
}

pub open spec fn can_win(b: Board, side: TileState) -> bool {
    exists|k: int| 0 <= k < 8 && #[trigger] winning(b, side, k)
}

pub open spec fn can_block(b: Board, side: TileState) -> bool {
    exists|k: int| 0 <= k < 8 && #[trigger] blocking(b, side, k)
}

/// `k` is the first winning segment in scan order.
pub open spec fn first_win(b: Board, side: TileState, k: int) -> bool {
    &&& 0 <= k < 8
    &&& winning(b, side, k)
    &&& forall|j: int| 0 <= j < k ==> !#[trigger] winning(b, side, j)
}

/// `k` is the last blocking segment in scan order.
pub open spec fn last_block(b: Board, side: TileState, k: int) -> bool {
    &&& 0 <= k < 8
    &&& blocking(b, side, k)
    &&& forall|j: int| k < j < 8 ==> !#[trigger] blocking(b, side, j)
}

/// What the segment-completion strategy yields: the open cell of the first
/// winning segment, else that of the last blocking one, else nothing.
pub open spec fn completion_move(b: Board, side: TileState, r: Option<usize>) -> bool {
    if can_win(b, side) {
        exists|k: int| #[trigger] first_win(b, side, k) && r == Some(open_cell(b, k) as usize)
    } else if can_block(b, side) {
        exists|k: int| #[trigger] last_block(b, side, k) && r == Some(open_cell(b, k) as usize)
    } else {
        r is None
    }
}

/// What the first-free-cell strategy yields: the lowest empty cell, nothing on a full board.
pub open spec fn first_free_move(b: Board, r: Option<usize>) -> bool {
    match r {
        Some(i) => {
            &&& i < 9
            &&& b.state(i as int) == TileState::TileStateEmpty
            &&& forall|j: int| 0 <= j < i ==> #[trigger] b.state(j) != TileState::TileStateEmpty
        },
        None => b.full(),
    }
}

/// The move chosen for `side`: a winning cell if there is one, else a blocking
/// cell, else the lowest empty cell.
pub open spec fn selected_move(b: Board, side: TileState, r: usize) -> bool {
    if can_win(b, side) || can_block(b, side) {
        completion_move(b, side, Some(r))
    } else {
        first_free_move(b, Some(r))
    }
}

/// The strategies, listed in the order in which they are tried.
#[derive(Copy, Clone, Debug, PartialEq, Eq, Structural)]
pub enum StrategyType {
    StrategyManageLastTileOnSegment,
    StrategyFirstFreeTile,
}

impl StrategyType {
    /// `r` is what this strategy yields for `side` on `b`.
    pub open spec fn yields(self, b: Board, side: TileState, r: Option<usize>) -> bool {
        match self {
            StrategyType::StrategyManageLastTileOnSegment => completion_move(b, side, r),
            StrategyType::StrategyFirstFreeTile => first_free_move(b, r),
        }
    }

    /// The cell this strategy picks for `ia_tile_state`, if it picks one.
    pub fn get_index_using_strategy(&self, board: &Board, ia_tile_state: TileState) -> (r: Option<usize>)
        requires
            board.wf(),
        ensures
            self.yields(*board, ia_tile_state, r),
    {
        match self {
            StrategyType::StrategyManageLastTileOnSegment => fill_in_segment_or_block_opponent(board, ia_tile_state),
            StrategyType::StrategyFirstFreeTile => first_free_tile(board),
        }
    }
}

/// The lowest empty cell, if any.
fn first_free_tile(board: &Board) -> (r: Option<usize>)
    ensures
        first_free_move(*board, r),
{
    let mut i: usize = 0;
    while i < 9
        invariant
            i <= 9,
            forall|j: int| 0 <= j < i ==> #[trigger] board.state(j) != TileState::TileStateEmpty,
        decreases 9 - i,
    {
        if board.board[i].tile_state == TileState::TileStateEmpty {
            return Some(i);
        }
        i += 1;
    }
    None
}

/// If segment `k` is one move short, its open cell and the state of its two other cells.
fn one_short_segment(board: &Board, k: usize) -> (r: Option<(usize, TileState)>)
    requires
        board.wf(),
        k < 8,
    ensures
        r.is_some() == one_short(*board, k as int),
        r matches Some((i, s)) ==> i == open_cell(*board, k as int) && s == holder(*board, k as int),
{
    let seg = board.get_segment(k);
    let e = TileState::TileStateEmpty;
    let (empty, a, b) = if seg[0].tile_state == e {
        (seg[0], seg[1], seg[2])
    } else if seg[1].tile_state == e {
        (seg[1], seg[0], seg[2])
    } else {
        (seg[2], seg[0], seg[1])
    };
    if empty.tile_state != e || a.tile_state == e || b.tile_state == e {
        return None;
    }
    if a.tile_state != b.tile_state {
        return None;
    }
    Some((empty.index_in_board, a.tile_state))
}

/// Complete a segment, to win or else to keep the opponent from winning.
pub fn fill_in_segment_or_block_opponent(board: &Board, ia_tile_state: TileState) -> (r: Option<usize>)
    requires
        board.wf(),
    ensures
        completion_move(*board, ia_tile_state, r),
{
    let mut returned_index: Option<usize> = None;
    let mut k: usize = 0;
    while k < 8
        invariant
            board.wf(),
            k <= 8,
            forall|j: int| 0 <= j < k ==> !#[trigger] winning(*board, ia_tile_state, j),
            returned_index is None ==> forall|j: int| 0 <= j < k ==> !#[trigger] blocking(*board, ia_tile_state, j),
            returned_index matches Some(i) ==> exists|m: int|
                0 <= m < k && #[trigger] blocking(*board, ia_tile_state, m) && i == open_cell(*board, m)
                && forall|j: int| m < j < k ==> !#[trigger] blocking(*board, ia_tile_state, j),
        decreases 8 - k,
    {
        if let Some((index, holder_state)) = one_short_segment(board, k) {
            if holder_state == ia_tile_state {
                assert(first_win(*board, ia_tile_state, k as int));
                return Some(index);
            }
            assert(blocking(*board, ia_tile_state, k as int));
            returned_index = Some(index);
        } else {
            assert(!blocking(*board, ia_tile_state, k as int));
        }
        k += 1;
    }
    proof {
        if let Some(i) = returned_index {
            let m = choose|m: int|
                0 <= m < k && #[trigger] blocking(*board, ia_tile_state, m) && i == open_cell(*board, m)
                && forall|j: int| m < j < k ==> !#[trigger] blocking(*board, ia_tile_state, j);
            assert(last_block(*board, ia_tile_state, m));
        }
    }
    returned_index
}

/// The cell the automated side plays: the strategies are tried in order and
/// the first one that yields a cell decides.
pub fn get_move(board: &Board, ia_tile_state: TileState) -> (r: usize)
    requires
        board.wf(),
        !board.full(),
    ensures
        r < 9,
        board.state(r as int) == TileState::TileStateEmpty,
        selected_move(*board, ia_tile_state, r),
{
    let order = [StrategyType::StrategyManageLastTileOnSegment, StrategyType::StrategyFirstFreeTile];
    let mut n: usize = 0;
    while n < 2
        invariant
            n <= 2,
            board.wf(),
            !board.full(),
            order@ == seq![StrategyType::StrategyManageLastTileOnSegment, StrategyType::StrategyFirstFreeTile],
            forall|m: int| 0 <= m < n ==> #[trigger] order[m].yields(*board, ia_tile_state, None),
        decreases 2 - n,
    {
        let strategy = order[n];
        if let Some(index) = strategy.get_index_using_strategy(board, ia_tile_state) {
            proof {
                if n == 0 {
                    lemma_completion_move_is_empty(*board, ia_tile_state, index);
                } else {
                    assert(order[0].yields(*board, ia_tile_state, None));
                }
            }
            return index;
        }
        n += 1;
    }
    assert(order[1].yields(*board, ia_tile_state, None));
    assert(false);
    0
}

/// A cell yielded by the segment-completion strategy is an empty cell of the board.
proof fn lemma_completion_move_is_empty(b: Board, side: TileState, i: usize)
    requires
        completion_move(b, side, Some(i)),
    ensures
        can_win(b, side) || can_block(b, side),
        i < 9,
        b.state(i as int) == TileState::TileStateEmpty,
{
    if can_win(b, side) {
        let k = choose|k: int| #[trigger] first_win(b, side, k) && Some(i) == Some(open_cell(b, k) as usize);
    } else {
        let k = choose|k: int| #[trigger] last_block(b, side, k) && Some(i) == Some(open_cell(b, k) as usize);
    }
}

/// Playing the open cell of a winning segment completes that segment for the
/// side that plays it.
pub proof fn lemma_winning_cell_completes(b: Board, after: Board, side: TileState, k: int)
    requires
        0 <= k < 8,
        winning(b, side, k),
        after.board@ == b.board@.update(
            open_cell(b, k),
            Tile { tile_state: side, index_in_board: b.board[open_cell(b, k)].index_in_board },
        ),
    ensures
        after.segment_completed(k),
{
}

/// Whenever the acting side can complete a segment in one move, the move
/// selected for it is the open cell of the first such segment in scan order,
/// whatever blocks are available elsewhere.
pub proof fn lemma_win_comes_first(b: Board, side: TileState, r: usize)
    requires
        selected_move(b, side, r),
        can_win(b, side),
    ensures
        exists|k: int| #[trigger] first_win(b, side, k) && r == open_cell(b, k),
{
}

/// Without a winning move but with a threat of the opponent, the move selected
/// blocks the last threatened segment in scan order.
pub proof fn lemma_block_comes_second(b: Board, side: TileState, r: usize)
    requires
        selected_move(b, side, r),
        !can_win(b, side),
        can_block(b, side),
    ensures
        exists|k: int| #[trigger] last_block(b, side, k) && r == open_cell(b, k),
{
}

/// With neither a winning nor a blocking move, the move selected is the lowest
/// empty cell.
pub proof fn lemma_first_free_otherwise(b: Board, side: TileState, r: usize)
    requires
        selected_move(b, side, r),
        !can_win(b, side),
        !can_block(b, side),
    ensures
        r < 9,
        b.state(r as int) == TileState::TileStateEmpty,
        forall|j: int| 0 <= j < r ==> #[trigger] b.state(j) != TileState::TileStateEmpty,
{
}

} // verus!
