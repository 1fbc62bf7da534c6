use tictactoe::board::{Cell, Grid, Move, PlaceError, Player};
use tictactoe::game::{GameSession, MoveError, Progress, Status};
use tictactoe::input::cell_of_click;
use tictactoe::turn::{NextPlayer, O_SPRITE, X_SPRITE};

fn all_empty(g: &GameSession) -> bool {
    let n = g.size();
    (0..n).all(|x| (0..n).all(|y| g.cell(x, y) == Some(Cell::Empty)))
}

fn snapshot(g: &GameSession) -> Vec<Option<Cell>> {
    let n = g.size();
    let mut out = Vec::new();
    for y in 0..n {
        for x in 0..n {
            out.push(g.cell(x, y));
        }
    }
    out
}

#[test]
fn new_grid_is_empty() {
    for n in 1..5 {
        let g = Grid::new(n);
        assert_eq!(g.size(), n);
        for x in 0..n {
            for y in 0..n {
                assert_eq!(g.cell(x, y), Some(Cell::Empty));
            }
        }
        assert_eq!(g.cell(n, 0), None);
        assert_eq!(g.cell(0, n), None);
    }
}

#[test]
fn place_then_read_returns_mark() {
    for n in 1..5 {
        for x in 0..n {
            for y in 0..n {
                let mut g = Grid::new(n);
                assert_eq!(g.place(x, y, Player::O), Ok(()));
                assert_eq!(g.cell(x, y), Some(Cell::Mark(Player::O)));
                for i in 0..n {
                    for j in 0..n {
                        if (i, j) != (x, y) {
                            assert_eq!(g.cell(i, j), Some(Cell::Empty));
                        }
                    }
                }
            }
        }
    }
}

#[test]
fn second_place_is_occupied() {
    let mut g = Grid::new(3);
    assert_eq!(g.place(1, 2, Player::X), Ok(()));
    assert_eq!(g.place(1, 2, Player::O), Err(PlaceError::CellOccupied));
    assert_eq!(g.place(1, 2, Player::X), Err(PlaceError::CellOccupied));
    assert_eq!(g.cell(1, 2), Some(Cell::Mark(Player::X)));
}

#[test]
fn place_out_of_bounds() {
    let mut g = Grid::new(3);
    assert_eq!(g.place(3, 0, Player::X), Err(PlaceError::OutOfBounds));
    assert_eq!(g.place(0, 3, Player::X), Err(PlaceError::OutOfBounds));
    assert_eq!(g.place(7, 9, Player::O), Err(PlaceError::OutOfBounds));
    assert_eq!(g.place(usize::MAX, 0, Player::O), Err(PlaceError::OutOfBounds));
    for x in 0..3 {
        for y in 0..3 {
            assert_eq!(g.cell(x, y), Some(Cell::Empty));
        }
    }
}

#[test]
fn set_position_reports_acceptance() {
    let mut g = Grid::new(3);
    assert!(g.set_position(&Move { x: 0, y: 1 }, Player::X));
    assert!(!g.set_position(&Move { x: 0, y: 1 }, Player::O));
    assert!(!g.set_position(&Move { x: 3, y: 1 }, Player::O));
    assert_eq!(g.cell(0, 1), Some(Cell::Mark(Player::X)));
}

fn line_full(cells: &[Option<Player>], n: usize, pts: &[(usize, usize)], m: Player) -> bool {
    pts.iter().all(|&(x, y)| cells[y * n + x] == Some(m))
}

fn brute_wins_through(cells: &[Option<Player>], n: usize, x: usize, y: usize, m: Player) -> bool {
    let row: Vec<(usize, usize)> = (0..n).map(|i| (i, y)).collect();
    let col: Vec<(usize, usize)> = (0..n).map(|i| (x, i)).collect();
    let d1: Vec<(usize, usize)> = (0..n).map(|i| (i, i)).collect();
    let d2: Vec<(usize, usize)> = (0..n).map(|i| (i, n - 1 - i)).collect();
    line_full(cells, n, &row, m)
        || line_full(cells, n, &col, m)
        || line_full(cells, n, &d1, m)
        || line_full(cells, n, &d2, m)
}

#[test]
fn check_game_matches_every_board_of_small_size() {
    for n in 1..4usize {
        let total = 3usize.pow((n * n) as u32);
        for code in 0..total {
            let mut cells = vec![None; n * n];
            let mut c = code;
            let mut g = Grid::new(n);
            for i in 0..n * n {
                let v = match c % 3 {
                    0 => None,
                    1 => Some(Player::X),
                    _ => Some(Player::O),
                };
                c /= 3;
                cells[i] = v;
                if let Some(p) = v {
                    assert_eq!(g.place(i % n, i / n, p), Ok(()));
                }
            }
            for x in 0..n {
                for y in 0..n {
                    for m in [Player::X, Player::O] {
                        assert_eq!(
                            g.check_game(&Move { x, y }, m),
                            brute_wins_through(&cells, n, x, y, m)
                        );
                    }
                }
            }
        }
    }
}

#[test]
fn every_line_of_size_four_is_a_win() {
    let n = 4;
    let mut lines: Vec<Vec<(usize, usize)>> = Vec::new();
    for k in 0..n {
        lines.push((0..n).map(|i| (i, k)).collect());
        lines.push((0..n).map(|i| (k, i)).collect());
    }
    lines.push((0..n).map(|i| (i, i)).collect());
    lines.push((0..n).map(|i| (i, n - 1 - i)).collect());
    for line in &lines {
        let mut g = Grid::new(n);
        for &(x, y) in line {
            assert_eq!(g.place(x, y, Player::O), Ok(()));
        }
        for &(x, y) in line {
            assert!(g.check_game(&Move { x, y }, Player::O));
            assert!(!g.check_game(&Move { x, y }, Player::X));
        }
        let mut partial = Grid::new(n);
        for &(x, y) in &line[1..] {
            assert_eq!(partial.place(x, y, Player::O), Ok(()));
        }
        let (x0, y0) = line[0];
        assert!(!partial.check_game(&Move { x: x0, y: y0 }, Player::O));
    }
}

#[test]
fn turns_alternate_on_continuing_moves() {
    let mut g = GameSession::new(3);
    assert_eq!(g.current_player(), Player::X);
    assert_eq!(g.apply_move(0, 0), Ok(Progress::Continuing));
    assert_eq!(g.current_player(), Player::O);
    assert_eq!(g.apply_move(0, 0), Err(MoveError::CellOccupied));
    assert_eq!(g.current_player(), Player::O);
    assert_eq!(g.apply_move(5, 0), Err(MoveError::OutOfBounds));
    assert_eq!(g.current_player(), Player::O);
    assert_eq!(g.apply_move(1, 0), Ok(Progress::Continuing));
    assert_eq!(g.current_player(), Player::X);
    assert_eq!(g.apply_move(1, 1), Ok(Progress::Continuing));
    assert_eq!(g.current_player(), Player::O);
    assert_eq!(g.cell(0, 0), Some(Cell::Mark(Player::X)));
    assert_eq!(g.cell(1, 0), Some(Cell::Mark(Player::O)));
    assert_eq!(g.cell(1, 1), Some(Cell::Mark(Player::X)));
}

#[test]
fn diagonal_win_for_x() {
    let mut g = GameSession::new(3);
    assert_eq!(g.apply_move(0, 0), Ok(Progress::Continuing));
    assert_eq!(g.apply_move(1, 0), Ok(Progress::Continuing));
    assert_eq!(g.apply_move(1, 1), Ok(Progress::Continuing));
    assert_eq!(g.apply_move(2, 0), Ok(Progress::Continuing));
    assert_eq!(g.apply_move(2, 2), Ok(Progress::Won(Player::X)));
    assert_eq!(g.status(), Status::Won(Player::X));
    assert_eq!(g.current_player(), Player::X);
    assert!(g.grid().check_game(&Move { x: 2, y: 2 }, Player::X));
}

#[test]
fn occupied_cell_keeps_first_mark() {
    let mut g = GameSession::new(3);
    assert_eq!(g.apply_move(0, 0), Ok(Progress::Continuing));
    assert_eq!(g.apply_move(0, 0), Err(MoveError::CellOccupied));
    assert_eq!(g.cell(0, 0), Some(Cell::Mark(Player::X)));
    assert_eq!(g.status(), Status::InProgress);
}

#[test]
fn out_of_bounds_leaves_board_empty() {
    let mut g = GameSession::new(3);
    assert_eq!(g.apply_move(3, 0), Err(MoveError::OutOfBounds));
    assert!(all_empty(&g));
    assert_eq!(g.current_player(), Player::X);
    assert_eq!(g.status(), Status::InProgress);
}

#[test]
fn moves_after_a_win_are_refused() {
    let mut g = GameSession::new(3);
    for (x, y) in [(0, 0), (0, 1), (1, 0), (1, 1)] {
        assert_eq!(g.apply_move(x, y), Ok(Progress::Continuing));
    }
    assert_eq!(g.apply_move(2, 0), Ok(Progress::Won(Player::X)));
    let before = snapshot(&g);
    assert_eq!(g.apply_move(2, 1), Err(MoveError::GameAlreadyOver));
    assert_eq!(g.apply_move(2, 2), Err(MoveError::GameAlreadyOver));
    assert_eq!(g.apply_move(9, 9), Err(MoveError::GameAlreadyOver));
    assert_eq!(snapshot(&g), before);
    assert_eq!(g.status(), Status::Won(Player::X));
    assert_eq!(g.current_player(), Player::X);
}

#[test]
fn o_wins_by_anti_diagonal() {
    let mut g = GameSession::new(3);
    for (x, y) in [(0, 0), (2, 0), (1, 0), (1, 1), (2, 2)] {
        assert_eq!(g.apply_move(x, y), Ok(Progress::Continuing));
    }
    assert_eq!(g.apply_move(0, 2), Ok(Progress::Won(Player::O)));
    assert_eq!(g.status(), Status::Won(Player::O));
}

#[test]
fn column_win_on_larger_board() {
    let mut g = GameSession::new(4);
    for k in 0..3 {
        assert_eq!(g.apply_move(3, k), Ok(Progress::Continuing));
        assert_eq!(g.apply_move(0, k), Ok(Progress::Continuing));
    }
    assert_eq!(g.apply_move(3, 3), Ok(Progress::Won(Player::X)));
}

#[test]
fn single_cell_board_is_won_at_once() {
    let mut g = GameSession::new(1);
    assert_eq!(g.apply_move(0, 0), Ok(Progress::Won(Player::X)));
    assert_eq!(g.apply_move(0, 0), Err(MoveError::GameAlreadyOver));
}

#[test]
fn full_board_without_winner_stays_in_progress() {
    let mut g = GameSession::new(3);
    for (x, y) in [(0, 0), (1, 0), (2, 0), (1, 1), (0, 1), (2, 1), (1, 2), (0, 2), (2, 2)] {
        assert_eq!(g.apply_move(x, y), Ok(Progress::Continuing));
    }
    assert_eq!(g.status(), Status::InProgress);
    assert_eq!(g.apply_move(0, 0), Err(MoveError::CellOccupied));
}

#[test]
fn next_player_switches_and_names_sprite() {
    let mut p = NextPlayer::new();
    assert_eq!(p.current(), Player::X);
    assert_eq!(p.sprite(), X_SPRITE);
    assert_eq!(p.sprite(), "x.png");
    p.switch();
    assert_eq!(p.current(), Player::O);
    assert_eq!(p.sprite(), O_SPRITE);
    assert_eq!(p.sprite(), "o.png");
    p.switch();
    assert_eq!(p.mark, Player::X);
}

#[test]
fn click_maps_to_cell() {
    assert_eq!(cell_of_click(0, 0, 598, 3), Some(Move { x: 0, y: 0 }));
    assert_eq!(cell_of_click(198, 199, 598, 3), Some(Move { x: 0, y: 1 }));
    assert_eq!(cell_of_click(597, 400, 598, 3), Some(Move { x: 3, y: 2 }));
    assert_eq!(cell_of_click(10, 10, 598, 0), None);
    assert_eq!(cell_of_click(10, 10, 2, 3), None);
}
