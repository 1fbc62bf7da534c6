use vstd::prelude::*;
use crate::board::{
    cell_at, has_full_line, in_range, place_outcome, placed, some_line_full, wins_through, Cell,
    Grid, Move, PlaceError, Player,
};
use crate::turn::{opponent, NextPlayer};
use crate::win::{lemma_win_check_exact, lemma_win_is_full_line};

verus! {

/// Where a game stands: still being played, or won by a player.
#[derive(Clone, Copy, Debug, PartialEq, Eq, Structural)]
pub enum Status {
    InProgress,
    Won(Player),
}

/// What an accepted move led to.
#[derive(Clone, Copy, Debug, PartialEq, Eq, Structural)]
pub enum Progress {
    Continuing,
    Won(Player),
}

/// Why a move was refused; a refused move changes nothing.
#[derive(Clone, Copy, Debug, PartialEq, Eq, Structural)]
pub enum MoveError {
    OutOfBounds,
    CellOccupied,
    GameAlreadyOver,
}

/// The error of a refused placement.
pub open spec fn move_error_of(e: PlaceError) -> MoveError {
    match e {
        PlaceError::OutOfBounds => MoveError::OutOfBounds,
        PlaceError::CellOccupied => MoveError::CellOccupied,
    }
}

/// One game: its board, whose turn it is, and whether it has been won.
pub struct GameSession {
    grid: Grid,
    next: NextPlayer,
    status: Status,
}

impl GameSession {
    /// The board's cells, row by row.
    pub closed spec fn board(&self) -> Seq<Cell> {
        self.grid@
    }

    pub closed spec fn spec_size(&self) -> int {
        self.grid.spec_size()
    }

    pub closed spec fn turn(&self) -> Player {
        self.next.mark
    }

    pub closed spec fn spec_status(&self) -> Status {
        self.status
    }

    /// The board is well formed; a game in progress has no full line, and a
    /// won game has a line full of the winner's mark.
    pub closed spec fn wf(&self) -> bool {
        &&& self.grid.wf()
        &&& self.status == Status::InProgress ==> !has_full_line(self.grid@, self.grid.spec_size())
        &&& self.status matches Status::Won(p) ==> some_line_full(self.grid@, self.grid.spec_size(), p)
    }

    /// A game in progress on an empty `size × size` board, `X` to play.
    pub fn new(size: usize) -> (r: GameSession)
        requires
            size >= 1,
            size * size <= usize::MAX,
        ensures
            r.wf(),
            r.spec_size() == size,
            r.board().len() == size * size,
            forall|x: int, y: int| in_range(size as int, x, y) ==> #[trigger] cell_at(r.board(), size as int, x, y) == Cell::Empty,
            r.turn() == Player::X,
            r.spec_status() == Status::InProgress,
    {
        let grid = Grid::new(size);
        let r = GameSession { grid, next: NextPlayer::new(), status: Status::InProgress };
        proof {
            let s = r.grid@;
            let n = size as int;
            if has_full_line(s, n) {
                let p = if some_line_full(s, n, Player::X) { Player::X } else { Player::O };
                assert(cell_at(s, n, 0, 0) == Cell::Empty);
                if exists|j: int| 0 <= j < n && #[trigger] crate::board::row_full(s, n, j, p) {
                    let j = choose|j: int| 0 <= j < n && #[trigger] crate::board::row_full(s, n, j, p);
                    assert(cell_at(s, n, 0, j) == Cell::Empty);
                } else if exists|j: int| 0 <= j < n && #[trigger] crate::board::col_full(s, n, j, p) {
                    let j = choose|j: int| 0 <= j < n && #[trigger] crate::board::col_full(s, n, j, p);
                    assert(cell_at(s, n, j, 0) == Cell::Empty);
                } else {
                    assert(cell_at(s, n, 0, n - 1 - 0) == Cell::Empty);
                }
            }
        }
        r
    }

    /// Plays the current player's mark at column `x`, row `y`.
    ///
    /// A won game refuses every move. Otherwise a move off the board or onto
    /// a written cell is refused and changes nothing. An accepted move writes
    /// the mark; if it completes a line of the four through `(x, y)` the game
    /// is won by the mover and the turn stays, else the turn passes.
    pub fn apply_move(&mut self, x: usize, y: usize) -> (r: Result<Progress, MoveError>)
        requires
            old(self).wf(),
        ensures
            final(self).wf(),
            final(self).spec_size() == old(self).spec_size(),
            ({
                let n = old(self).spec_size();
                let s = old(self).board();
                let m = old(self).turn();
                let t = placed(s, n, x as int, y as int, m);
                if old(self).spec_status() != Status::InProgress {
                    &&& r == Err::<Progress, MoveError>(MoveError::GameAlreadyOver)
                    &&& final(self).board() == s
                    &&& final(self).turn() == m
                    &&& final(self).spec_status() == old(self).spec_status()
                } else if let Err(e) = place_outcome(s, n, x as int, y as int) {
                    &&& r == Err::<Progress, MoveError>(move_error_of(e))
                    &&& final(self).board() == s
                    &&& final(self).turn() == m
                    &&& final(self).spec_status() == Status::InProgress
                } else if wins_through(t, n, x as int, y as int, m) {
                    &&& r == Ok::<Progress, MoveError>(Progress::Won(m))
                    &&& final(self).board() == t
                    &&& final(self).turn() == m
                    &&& final(self).spec_status() == Status::Won(m)
                } else {
                    &&& r == Ok::<Progress, MoveError>(Progress::Continuing)
                    &&& final(self).board() == t
                    &&& final(self).turn() == opponent(m)
                    &&& final(self).spec_status() == Status::InProgress
                }
            }),
            old(self).spec_status() == Status::InProgress && r is Ok ==> (r == Ok::<Progress, MoveError>(
                Progress::Won(old(self).turn()),
            )) == has_full_line(final(self).board(), final(self).spec_size()),
    {
        if self.status != Status::InProgress {
            return Err(MoveError::GameAlreadyOver);
        }
        let mark = self.next.current();
        let mov = Move { x, y };
        match self.grid.place(x, y, mark) {
            Err(PlaceError::OutOfBounds) => {
                return Err(MoveError::OutOfBounds);
            },
            Err(PlaceError::CellOccupied) => {
                return Err(MoveError::CellOccupied);
            },
            Ok(()) => {},
        }
        proof {
            old(self).grid.lemma_wf();
            lemma_win_check_exact(old(self).grid@, old(self).grid.spec_size(), x as int, y as int, mark);
        }
        if self.grid.check_game(&mov, mark) {
            proof {
                lemma_win_is_full_line(self.grid@, self.grid.spec_size(), x as int, y as int, mark);
            }
            self.status = Status::Won(mark);
            Ok(Progress::Won(mark))
        } else {
            self.next.switch();
            Ok(Progress::Continuing)
        }
    }

    /// Where the game stands.
    pub fn status(&self) -> (r: Status)
        ensures
            r == self.spec_status(),
    {
        self.status
    }

    /// The player whose mark the next move writes.
    pub fn current_player(&self) -> (r: Player)
        ensures
            r == self.turn(),
    {
        self.next.current()
    }

    /// The side length of the board.
    pub fn size(&self) -> (r: usize)
        ensures
            r == self.spec_size(),
    {
        self.grid.size()
    }

    /// The cell in column `x` of row `y`, or `None` off the board.
    pub fn cell(&self, x: usize, y: usize) -> (r: Option<Cell>)
        requires
            self.wf(),
        ensures
            in_range(self.spec_size(), x as int, y as int) ==> r == Some(cell_at(self.board(), self.spec_size(), x as int, y as int)),
            !in_range(self.spec_size(), x as int, y as int) ==> r is None,
    {
        self.grid.cell(x, y)
    }

    /// The board itself, for reading.
    pub fn grid(&self) -> (r: &Grid)
        ensures
            r@ == self.board(),
            r.spec_size() == self.spec_size(),
            self.wf() ==> r.wf(),
    {
        &self.grid
    }
}

} // verus!
