use vstd::prelude::*;
use crate::board::{
    anti_full, cell_at, col_full, diag_full, has_full_line, in_range, lemma_placed_cell, placed,
    row_full, some_line_full, wins_through, Cell, Player,
};

verus! {

/// A line of the four through `(x, y)` that is full of `m` is a full line of
/// the board.
pub proof fn lemma_win_is_full_line(s: Seq<Cell>, n: int, x: int, y: int, m: Player)
    requires
        in_range(n, x, y),
        wins_through(s, n, x, y, m),
    ensures
        some_line_full(s, n, m),
        has_full_line(s, n),
{
    if row_full(s, n, y, m) {
        assert(0 <= y < n && row_full(s, n, y, m));
    } else if col_full(s, n, x, m) {
        assert(0 <= x < n && col_full(s, n, x, m));
    }
}

/// Win detection is exact: on a board with no full line, after `m` is
/// written on an empty cell `(x, y)`, the four lines through `(x, y)` hold a
/// line full of `m` exactly when some row, column or diagonal of the new
/// board is full of one mark.
pub proof fn lemma_win_check_exact(s: Seq<Cell>, n: int, x: int, y: int, m: Player)
    requires
        n >= 1,
        s.len() == n * n,
        in_range(n, x, y),
        cell_at(s, n, x, y) == Cell::Empty,
        !has_full_line(s, n),
    ensures
        wins_through(placed(s, n, x, y, m), n, x, y, m) == has_full_line(placed(s, n, x, y, m), n),
{
    let t = placed(s, n, x, y, m);
    if wins_through(t, n, x, y, m) {
        lemma_win_is_full_line(t, n, x, y, m);
    }
    if has_full_line(t, n) {
        let p = if some_line_full(t, n, Player::X) { Player::X } else { Player::O };
        assert(some_line_full(t, n, p));
        if exists|j: int| 0 <= j < n && #[trigger] row_full(t, n, j, p) {
            let j = choose|j: int| 0 <= j < n && #[trigger] row_full(t, n, j, p);
            if p != m || j != y {
                assert forall|i: int| 0 <= i < n implies #[trigger] cell_at(s, n, i, j) == Cell::Mark(p) by {
                    lemma_placed_cell(s, n, x, y, m, i, j);
                    lemma_placed_cell(s, n, x, y, m, x, y);
                    assert(cell_at(t, n, i, j) == Cell::Mark(p));
                }
                assert(0 <= j < n && row_full(s, n, j, p));
                assert(false);
            }
        } else if exists|j: int| 0 <= j < n && #[trigger] col_full(t, n, j, p) {
            let j = choose|j: int| 0 <= j < n && #[trigger] col_full(t, n, j, p);
            if p != m || j != x {
                assert forall|i: int| 0 <= i < n implies #[trigger] cell_at(s, n, j, i) == Cell::Mark(p) by {
                    lemma_placed_cell(s, n, x, y, m, j, i);
                    assert(cell_at(t, n, j, i) == Cell::Mark(p));
                }
                assert(0 <= j < n && col_full(s, n, j, p));
                assert(false);
            }
        } else if diag_full(t, n, p) {
            if p != m {
                assert forall|i: int| 0 <= i < n implies #[trigger] cell_at(s, n, i, i) == Cell::Mark(p) by {
                    lemma_placed_cell(s, n, x, y, m, i, i);
                    assert(cell_at(t, n, i, i) == Cell::Mark(p));
                }
                assert(diag_full(s, n, p));
            }
        } else {
            assert(anti_full(t, n, p));
            if p != m {
                assert forall|i: int| 0 <= i < n implies #[trigger] cell_at(s, n, i, n - 1 - i) == Cell::Mark(p) by {
                    lemma_placed_cell(s, n, x, y, m, i, n - 1 - i);
                    assert(cell_at(t, n, i, n - 1 - i) == Cell::Mark(p));
                }
                assert(anti_full(s, n, p));
            }
        }
    }
}

} // verus!
