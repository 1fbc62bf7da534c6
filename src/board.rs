use vstd::prelude::*;

verus! {

/// One of the two players, and the mark that player writes.
#[derive(Clone, Copy, Debug, PartialEq, Eq, Structural)]
pub enum Player {
    X,
    O,
}

/// The row-major index `y * n + x` of a cell of an `n × n` board lies in `0 .. n * n`.
pub proof fn lemma_index_in_range(x: int, y: int, n: int)
    requires
        0 <= x < n,
        0 <= y < n,
    ensures
        0 <= y * n + x < n * n,
{
    assert(0 <= y * n + x < n * n) by (nonlinear_arith)
        requires
            0 <= x < n,
            0 <= y < n,
    ;
}

/// Two in-range cells of an `n × n` board with one row-major index are one cell.
pub proof fn lemma_index_unique(x1: int, y1: int, x2: int, y2: int, n: int)
    requires
        in_range(n, x1, y1),
        in_range(n, x2, y2),
        index_of(n, x1, y1) == index_of(n, x2, y2),
    ensures
        x1 == x2,
        y1 == y2,
{
    if y1 < y2 {
        assert(y1 * n + n <= y2 * n) by (nonlinear_arith)
            requires
                y1 < y2,
                n >= 0,
        ;
    } else if y2 < y1 {
        assert(y2 * n + n <= y1 * n) by (nonlinear_arith)
            requires
                y2 < y1,
                n >= 0,
        ;
    }
}

/// After a write at `(x, y)`, that cell holds the mark and every other cell
/// is as before.
pub proof fn lemma_placed_cell(s: Seq<Cell>, n: int, x: int, y: int, m: Player, i: int, j: int)
    requires
        s.len() == n * n,
        in_range(n, x, y),
        in_range(n, i, j),
    ensures
        cell_at(placed(s, n, x, y, m), n, i, j) == if i == x && j == y {
            Cell::Mark(m)
        } else {
            cell_at(s, n, i, j)
        },
{
    lemma_index_in_range(x, y, n);
    lemma_index_in_range(i, j, n);
    if index_of(n, x, y) == index_of(n, i, j) {
        lemma_index_unique(x, y, i, j, n);
    }
}

/// One position of the board.
#[derive(Clone, Copy, Debug, PartialEq, Eq, Structural)]
pub enum Cell {
    Empty,
    Mark(Player),
}

/// Why a placement was refused.
#[derive(Clone, Copy, Debug, PartialEq, Eq, Structural)]
pub enum PlaceError {
    OutOfBounds,
    CellOccupied,
}

/// Row-major index of column `x` of row `y` on an `n × n` board.
pub open spec fn index_of(n: int, x: int, y: int) -> int {
    y * n + x
}

/// The cell in column `x` of row `y` of the row-major cells `s` of an `n × n` board.
pub open spec fn cell_at(s: Seq<Cell>, n: int, x: int, y: int) -> Cell {
    s[index_of(n, x, y)]
}

pub open spec fn in_range(n: int, x: int, y: int) -> bool {
    0 <= x < n && 0 <= y < n
}

/// The outcome of writing a mark at `(x, y)`: out of the board, onto a
/// written cell, or accepted.
pub open spec fn place_outcome(s: Seq<Cell>, n: int, x: int, y: int) -> Result<(), PlaceError> {
    if !in_range(n, x, y) {
        Err(PlaceError::OutOfBounds)
    } else if cell_at(s, n, x, y) != Cell::Empty {
        Err(PlaceError::CellOccupied)
    } else {
        Ok(())
    }
}

/// The cells after mark `m` is written at `(x, y)`.
pub open spec fn placed(s: Seq<Cell>, n: int, x: int, y: int, m: Player) -> Seq<Cell> {
    s.update(index_of(n, x, y), Cell::Mark(m))
}

/// Every cell of row `y` bears `m`.
pub open spec fn row_full(s: Seq<Cell>, n: int, y: int, m: Player) -> bool {
    forall|i: int| 0 <= i < n ==> #[trigger] cell_at(s, n, i, y) == Cell::Mark(m)
}

/// Every cell of column `x` bears `m`.
pub open spec fn col_full(s: Seq<Cell>, n: int, x: int, m: Player) -> bool {
    forall|i: int| 0 <= i < n ==> #[trigger] cell_at(s, n, x, i) == Cell::Mark(m)
}

/// Every cell `(i, i)` bears `m`.
pub open spec fn diag_full(s: Seq<Cell>, n: int, m: Player) -> bool {
    forall|i: int| 0 <= i < n ==> #[trigger] cell_at(s, n, i, i) == Cell::Mark(m)
}

/// Every cell `(i, n - 1 - i)` bears `m`.
pub open spec fn anti_full(s: Seq<Cell>, n: int, m: Player) -> bool {
    forall|i: int| 0 <= i < n ==> #[trigger] cell_at(s, n, i, n - 1 - i) == Cell::Mark(m)
}

/// One of the four lines through `(x, y)` bears `m` in every cell: its row,
/// its column, or either diagonal (checked whether or not it holds `(x, y)`).
pub open spec fn wins_through(s: Seq<Cell>, n: int, x: int, y: int, m: Player) -> bool {
    row_full(s, n, y, m) || col_full(s, n, x, m) || diag_full(s, n, m) || anti_full(s, n, m)
}

/// Some row, column or diagonal of the board bears `m` in every cell.
pub open spec fn some_line_full(s: Seq<Cell>, n: int, m: Player) -> bool {
    ||| exists|y: int| 0 <= y < n && #[trigger] row_full(s, n, y, m)
    ||| exists|x: int| 0 <= x < n && #[trigger] col_full(s, n, x, m)
    ||| diag_full(s, n, m)
    ||| anti_full(s, n, m)
}

/// Some row, column or diagonal of the board bears one mark in every cell.
pub open spec fn has_full_line(s: Seq<Cell>, n: int) -> bool {
    some_line_full(s, n, Player::X) || some_line_full(s, n, Player::O)
}

/// On any board, writing on an empty in-range cell is accepted, and the
/// cell then reads back the written mark.
pub proof fn lemma_place_then_read(s: Seq<Cell>, n: int, x: int, y: int, m: Player)
    requires
        s.len() == n * n,
        in_range(n, x, y),
        cell_at(s, n, x, y) == Cell::Empty,
    ensures
        place_outcome(s, n, x, y) == Ok::<(), PlaceError>(()),
        cell_at(placed(s, n, x, y, m), n, x, y) == Cell::Mark(m),
{
    lemma_placed_cell(s, n, x, y, m, x, y);
}

/// A second write on a cell that was written is refused as occupied (and a
/// refused write changes no cell).
pub proof fn lemma_second_place_occupied(s: Seq<Cell>, n: int, x: int, y: int, m: Player)
    requires
        s.len() == n * n,
        place_outcome(s, n, x, y) is Ok,
    ensures
        place_outcome(placed(s, n, x, y, m), n, x, y) == Err::<(), PlaceError>(PlaceError::CellOccupied),
        cell_at(placed(s, n, x, y, m), n, x, y) == Cell::Mark(m),
{
    lemma_placed_cell(s, n, x, y, m, x, y);
}

/// Any write off an `n × n` board is refused as out of bounds.
pub proof fn lemma_out_of_bounds(s: Seq<Cell>, n: int, x: int, y: int)
    requires
        0 <= x,
        0 <= y,
        x >= n || y >= n,
    ensures
        place_outcome(s, n, x, y) == Err::<(), PlaceError>(PlaceError::OutOfBounds),
{
}

/// A candidate coordinate: column `x`, row `y`.
#[derive(Clone, Copy, Debug, PartialEq, Eq, Structural)]
pub struct Move {
    pub x: usize,
    pub y: usize,
}

/// A square board of `size × size` cells, stored row by row.
pub struct Grid {
    grid: Vec<Cell>,
    size: usize,
}

impl View for Grid {
    type V = Seq<Cell>;

    /// The cells, row `y` holding the indices `y * size .. (y + 1) * size`.
    closed spec fn view(&self) -> Seq<Cell> {
        self.grid@
    }
}

impl Grid {
    pub closed spec fn spec_size(&self) -> int {
        self.size as int
    }

    pub closed spec fn wf(&self) -> bool {
        &&& self.size >= 1
        &&& self.size * self.size <= usize::MAX
        &&& self.grid@.len() == self.size * self.size
    }

    /// A well-formed board has at least one row and `size * size` cells.
    pub proof fn lemma_wf(&self)
        requires
            self.wf(),
        ensures
            self.spec_size() >= 1,
            self@.len() == self.spec_size() * self.spec_size(),
    {
    }

    /// A board whose every cell is empty.
    pub fn new(m: usize) -> (r: Grid)
        requires
            m >= 1,
            m * m <= usize::MAX,
        ensures
            r.wf(),
            r.spec_size() == m,
            r@.len() == m * m,
            forall|x: int, y: int| in_range(m as int, x, y) ==> #[trigger] cell_at(r@, m as int, x, y) == Cell::Empty,
    {
        let n: usize = m * m;
        let mut grid: Vec<Cell> = Vec::new();
        while grid.len() < n
            invariant
                grid@.len() <= n,
                forall|i: int| 0 <= i < grid@.len() ==> grid@[i] == Cell::Empty,
            decreases n - grid@.len(),
        {
            grid.push(Cell::Empty);
        }
        let r = Grid { grid, size: m };
        assert forall|x: int, y: int| in_range(m as int, x, y) implies cell_at(r@, m as int, x, y) == Cell::Empty by {
            lemma_index_in_range(x, y, m as int);
        }
        r
    }

    /// The side length of the board.
    pub fn size(&self) -> (r: usize)
        ensures
            r == self.spec_size(),
    {
        self.size
    }

    /// The cell in column `x` of row `y`, or `None` off the board.
    pub fn cell(&self, x: usize, y: usize) -> (r: Option<Cell>)
        requires
            self.wf(),
        ensures
            in_range(self.spec_size(), x as int, y as int) ==> r == Some(cell_at(self@, self.spec_size(), x as int, y as int)),
            !in_range(self.spec_size(), x as int, y as int) ==> r is None,
    {
        if x >= self.size || y >= self.size {
            return None;
        }
        proof {
            lemma_index_in_range(x as int, y as int, self.size as int);
        }
        Some(self.grid[y * self.size + x])
    }

    /// Writes `mark` at `(x, y)` if that cell is on the board and empty; a
    /// refused placement leaves the board as it was.
    pub fn place(&mut self, x: usize, y: usize, mark: Player) -> (r: Result<(), PlaceError>)
        requires
            old(self).wf(),
        ensures
            final(self).wf(),
            final(self).spec_size() == old(self).spec_size(),
            r == place_outcome(old(self)@, old(self).spec_size(), x as int, y as int),
            (x >= old(self).spec_size() || y >= old(self).spec_size()) ==> r == Err::<(), PlaceError>(PlaceError::OutOfBounds),
            r is Ok ==> final(self)@ == placed(old(self)@, old(self).spec_size(), x as int, y as int, mark),
            r is Err ==> final(self)@ == old(self)@,
    {
        if x >= self.size || y >= self.size {
            return Err(PlaceError::OutOfBounds);
        }
        proof {
            lemma_index_in_range(x as int, y as int, self.size as int);
        }
        let i: usize = y * self.size + x;
        if self.grid[i] != Cell::Empty {
            return Err(PlaceError::CellOccupied);
        }
        self.grid.set(i, Cell::Mark(mark));
        Ok(())
    }

    /// Writes `marking` at the move's cell; `true` when the placement was
    /// accepted, `false` (board unchanged) when it was off the board or onto
    /// a written cell.
    pub fn set_position(&mut self, mov: &Move, marking: Player) -> (r: bool)
        requires
            old(self).wf(),
        ensures
            final(self).wf(),
            final(self).spec_size() == old(self).spec_size(),
            r == place_outcome(old(self)@, old(self).spec_size(), mov.x as int, mov.y as int) is Ok,
            r ==> final(self)@ == placed(old(self)@, old(self).spec_size(), mov.x as int, mov.y as int, marking),
            !r ==> final(self)@ == old(self)@,
    {
        self.place(mov.x, mov.y, marking).is_ok()
    }

    /// Whether the row or column of the move, or either diagonal, bears
    /// `marking` in every cell. Only these four lines are read, so the cost
    /// is linear in the side length.
    pub fn check_game(&self, mov: &Move, marking: Player) -> (r: bool)
        requires
            self.wf(),
            in_range(self.spec_size(), mov.x as int, mov.y as int),
        ensures
            r == wins_through(self@, self.spec_size(), mov.x as int, mov.y as int, marking),
    {
        let n = self.size;
        let want = Cell::Mark(marking);
        let mut horizontal = true;
        let mut vertical = true;
        let mut diagonal1 = true;
        let mut diagonal2 = true;
        let mut k: usize = 0;
        while k < n
            invariant
                self.wf(),
                n == self.spec_size(),
                want == Cell::Mark(marking),
                in_range(n as int, mov.x as int, mov.y as int),
                0 <= k <= n,
                horizontal == (forall|i: int| 0 <= i < k ==> #[trigger] cell_at(self@, n as int, i, mov.y as int) == want),
                vertical == (forall|i: int| 0 <= i < k ==> #[trigger] cell_at(self@, n as int, mov.x as int, i) == want),
                diagonal1 == (forall|i: int| 0 <= i < k ==> #[trigger] cell_at(self@, n as int, i, i) == want),
                diagonal2 == (forall|i: int| 0 <= i < k ==> #[trigger] cell_at(self@, n as int, i, n - 1 - i) == want),
            decreases n - k,
        {
            proof {
                lemma_index_in_range(k as int, mov.y as int, n as int);
                lemma_index_in_range(mov.x as int, k as int, n as int);
                lemma_index_in_range(k as int, k as int, n as int);
                lemma_index_in_range(k as int, n - 1 - k, n as int);
            }
            let h = self.grid[mov.y * n + k];
            let v = self.grid[k * n + mov.x];
            let d1 = self.grid[k * n + k];
            let d2 = self.grid[(n - 1 - k) * n + k];
            assert(h == cell_at(self@, n as int, k as int, mov.y as int));
            assert(v == cell_at(self@, n as int, mov.x as int, k as int));
            assert(d1 == cell_at(self@, n as int, k as int, k as int));
            assert(d2 == cell_at(self@, n as int, k as int, n - 1 - k));
            horizontal = horizontal && h == want;
            vertical = vertical && v == want;
            diagonal1 = diagonal1 && d1 == want;
            diagonal2 = diagonal2 && d2 == want;
            k = k + 1;
        }
        vertical || horizontal || diagonal1 || diagonal2
    }
}

} // verus!
