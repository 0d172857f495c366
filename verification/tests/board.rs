use minesweeper::board::{Board, ConfigError};
use minesweeper::cell::{Cell, CellState};

fn state(board: &Board, x: usize, y: usize) -> CellState {
    board.cell(x, y).unwrap().state
}

fn hidden(mine: bool) -> Cell {
    Cell { state: CellState::Unrevealed, mine }
}

#[test]
fn cell_new_is_unrevealed_and_empty() {
    let cell = Cell::new();
    assert_eq!(cell, hidden(false));
    assert!(!cell.contains_mine());
    assert!(hidden(true).contains_mine());
}

#[test]
fn with_mines_places_exactly_the_listed_mines() {
    let board = Board::with_mines(3, &vec![(0, 2), (2, 1), (0, 2)]);
    assert_eq!(board.get_board_size(), 3);
    assert_eq!(board.cursor(), (0, 0));
    assert!(!board.is_game_over());
    for x in 0..3 {
        for y in 0..3 {
            let mine = (x, y) == (0, 2) || (x, y) == (2, 1);
            assert_eq!(board.cell(x, y), Some(hidden(mine)));
        }
    }
}

#[test]
fn cell_outside_the_grid_is_none() {
    let board = Board::with_mines(3, &vec![]);
    assert_eq!(board.cell(3, 0), None);
    assert_eq!(board.cell(0, 3), None);
    assert_eq!(board.cell(usize::MAX, usize::MAX), None);
}

#[test]
fn count_mines_sees_diagonal_neighbor() {
    let board = Board::with_mines(3, &vec![(1, 1)]);
    for &(x, y) in &[(0, 0), (0, 1), (0, 2), (1, 0), (1, 2), (2, 0), (2, 1), (2, 2)] {
        assert_eq!(board.count_mines(x, y), 1);
    }
}

#[test]
fn count_mines_leaves_out_the_cell_itself() {
    let board = Board::with_mines(3, &vec![(1, 1)]);
    assert_eq!(board.count_mines(1, 1), 0);
}

#[test]
fn count_mines_reaches_eight() {
    let ring = vec![(0, 0), (0, 1), (0, 2), (1, 0), (1, 2), (2, 0), (2, 1), (2, 2)];
    let board = Board::with_mines(3, &ring);
    assert_eq!(board.count_mines(1, 1), 8);
    assert_eq!(board.count_mines(0, 0), 2);
    assert_eq!(board.count_mines(0, 1), 4);
}

#[test]
fn count_mines_clips_at_the_edges() {
    let board = Board::with_mines(4, &vec![(0, 0), (3, 3), (0, 3)]);
    assert_eq!(board.count_mines(0, 1), 1);
    assert_eq!(board.count_mines(3, 2), 1);
    assert_eq!(board.count_mines(0, 2), 1);
    assert_eq!(board.count_mines(1, 3), 1);
    assert_eq!(board.count_mines(2, 0), 0);
    assert_eq!(board.count_mines(3, 0), 0);
}

#[test]
fn count_mines_does_not_wrap_around() {
    let board = Board::with_mines(3, &vec![(0, 2), (2, 0)]);
    assert_eq!(board.count_mines(0, 0), 0);
    assert_eq!(board.count_mines(2, 2), 0);
    assert_eq!(board.count_mines(1, 0), 1);
}

#[test]
fn count_mines_beside_the_grid_counts_the_border() {
    let board = Board::with_mines(3, &vec![(2, 0), (2, 1)]);
    assert_eq!(board.count_mines(3, 0), 2);
    assert_eq!(board.count_mines(3, 2), 1);
    assert_eq!(board.count_mines(4, 0), 0);
    assert_eq!(board.count_mines(usize::MAX, usize::MAX), 0);
}

#[test]
fn count_mines_does_not_change_the_board() {
    let board = Board::with_mines(3, &vec![(1, 1)]);
    board.count_mines(0, 0);
    for x in 0..3 {
        for y in 0..3 {
            assert_eq!(board.cell(x, y), Some(hidden((x, y) == (1, 1))));
        }
    }
}

#[test]
fn reveal_next_to_mine_shows_one_and_does_not_spread() {
    let mut board = Board::with_mines(3, &vec![(1, 1)]);
    board.reveal_cell(0, 0);
    assert_eq!(state(&board, 0, 0), CellState::Revealed(1));
    assert!(!board.is_game_over());
    for x in 0..3 {
        for y in 0..3 {
            if (x, y) != (0, 0) {
                assert_eq!(state(&board, x, y), CellState::Unrevealed);
            }
        }
    }
    board.reveal_cell(0, 0);
    assert_eq!(state(&board, 0, 0), CellState::Revealed(1));
    assert!(!board.is_game_over());
    for x in 0..3 {
        for y in 0..3 {
            if (x, y) != (0, 0) {
                assert_eq!(state(&board, x, y), CellState::Unrevealed);
            }
        }
    }
}

#[test]
fn reveal_on_empty_board_floods_everything() {
    for sx in 0..4 {
        for sy in 0..4 {
            let mut board = Board::with_mines(4, &vec![]);
            assert!(!board.is_won());
            board.reveal_cell(sx, sy);
            for x in 0..4 {
                for y in 0..4 {
                    assert_eq!(state(&board, x, y), CellState::Revealed(0));
                }
            }
            assert!(board.is_won());
            assert!(!board.is_game_over());
        }
    }
}

#[test]
fn reveal_mine_ends_game_and_keeps_cells() {
    let mut board = Board::with_mines(2, &vec![(0, 0)]);
    board.reveal_cell(0, 0);
    assert!(board.is_game_over());
    assert_eq!(board.cell(0, 0), Some(hidden(true)));
    assert_eq!(board.cell(0, 1), Some(hidden(false)));
    assert_eq!(board.cell(1, 0), Some(hidden(false)));
    assert_eq!(board.cell(1, 1), Some(hidden(false)));
    assert_eq!(board.cursor(), (0, 0));
}

#[test]
fn reveal_flagged_cell_changes_nothing() {
    let mut board = Board::with_mines(3, &vec![]);
    board.flag(1, 1);
    board.reveal_cell(1, 1);
    assert!(!board.is_game_over());
    for x in 0..3 {
        for y in 0..3 {
            let want = if (x, y) == (1, 1) { CellState::Flagged } else { CellState::Unrevealed };
            assert_eq!(state(&board, x, y), want);
        }
    }
}

#[test]
fn reveal_flagged_mine_ends_game_but_keeps_the_flag() {
    let mut board = Board::with_mines(2, &vec![(1, 1)]);
    board.flag(1, 1);
    board.reveal_cell(1, 1);
    assert!(board.is_game_over());
    assert_eq!(board.cell(1, 1), Some(Cell { state: CellState::Flagged, mine: true }));
    assert_eq!(state(&board, 0, 0), CellState::Unrevealed);
}

#[test]
fn flood_stops_at_numbered_cells() {
    // Mine in the bottom right corner of a 4x4 board.
    let mut board = Board::with_mines(4, &vec![(3, 3)]);
    board.reveal_cell(0, 0);
    let want = [
        [Some(0), Some(0), Some(0), Some(0)],
        [Some(0), Some(0), Some(0), Some(0)],
        [Some(0), Some(0), Some(1), Some(1)],
        [Some(0), Some(0), Some(1), None],
    ];
    for x in 0..4 {
        for y in 0..4 {
            let expected = match want[x][y] {
                Some(k) => CellState::Revealed(k),
                None => CellState::Unrevealed,
            };
            assert_eq!(state(&board, x, y), expected);
        }
    }
    assert!(board.cell(3, 3).unwrap().mine);
    assert!(!board.is_game_over());
    assert!(board.is_won());
}

#[test]
fn flood_does_not_cross_a_wall_of_numbers() {
    // A column of mines splits the board: the right side stays closed.
    let mut board = Board::with_mines(5, &vec![(0, 2), (1, 2), (2, 2), (3, 2), (4, 2)]);
    board.reveal_cell(2, 0);
    let left = [[0, 2], [0, 3], [0, 3], [0, 3], [0, 2]];
    for x in 0..5 {
        assert_eq!(state(&board, x, 0), CellState::Revealed(left[x][0]));
        assert_eq!(state(&board, x, 1), CellState::Revealed(left[x][1]));
        assert_eq!(board.cell(x, 2), Some(hidden(true)));
        assert_eq!(state(&board, x, 3), CellState::Unrevealed);
        assert_eq!(state(&board, x, 4), CellState::Unrevealed);
    }
    assert!(!board.is_won());
}

#[test]
fn flood_leaves_flags_alone_and_goes_around_them() {
    let mut board = Board::with_mines(3, &vec![]);
    board.flag(1, 1);
    board.flag(0, 2);
    board.reveal_cell(0, 0);
    for x in 0..3 {
        for y in 0..3 {
            let want = if (x, y) == (1, 1) || (x, y) == (0, 2) {
                CellState::Flagged
            } else {
                CellState::Revealed(0)
            };
            assert_eq!(state(&board, x, y), want);
        }
    }
    assert!(!board.is_won());
}

#[test]
fn flood_is_blocked_by_a_line_of_flags() {
    let mut board = Board::with_mines(3, &vec![]);
    for x in 0..3 {
        board.flag(x, 1);
    }
    board.reveal_cell(1, 0);
    for x in 0..3 {
        assert_eq!(state(&board, x, 0), CellState::Revealed(0));
        assert_eq!(state(&board, x, 1), CellState::Flagged);
        assert_eq!(state(&board, x, 2), CellState::Unrevealed);
    }
}

#[test]
fn flood_never_reveals_a_mine() {
    let mines = vec![(0, 4), (2, 2), (5, 1), (5, 5)];
    let mut board = Board::with_mines(6, &mines);
    board.reveal_cell(0, 0);
    for &(x, y) in &mines {
        assert_eq!(board.cell(x, y), Some(hidden(true)));
    }
    for x in 0..6 {
        for y in 0..6 {
            if let CellState::Revealed(k) = state(&board, x, y) {
                assert!(!board.cell(x, y).unwrap().mine);
                assert_eq!(k, board.count_mines(x, y) as usize);
            }
        }
    }
}

#[test]
fn flood_spreads_from_revealed_zero_cells_only_when_started_there() {
    // A flag that blocked the flood is taken off afterwards: revealing an
    // already revealed neighbour does not pick the flood up again.
    let mut board = Board::with_mines(3, &vec![]);
    for x in 0..3 {
        board.flag(x, 1);
    }
    board.reveal_cell(1, 0);
    for x in 0..3 {
        board.flag(x, 1);
    }
    board.reveal_cell(1, 0);
    for x in 0..3 {
        assert_eq!(state(&board, x, 1), CellState::Unrevealed);
        assert_eq!(state(&board, x, 2), CellState::Unrevealed);
    }
    board.reveal_cell(1, 1);
    for x in 0..3 {
        for y in 0..3 {
            assert_eq!(state(&board, x, y), CellState::Revealed(0));
        }
    }
}

#[test]
fn flood_on_a_large_board_needs_no_deep_recursion() {
    let size = 300;
    let mut board = Board::with_mines(size, &vec![(size - 1, size - 1)]);
    board.reveal_cell(0, 0);
    assert_eq!(state(&board, 0, 0), CellState::Revealed(0));
    assert_eq!(state(&board, size / 2, size / 2), CellState::Revealed(0));
    assert_eq!(state(&board, size - 2, size - 2), CellState::Revealed(1));
    assert_eq!(state(&board, size - 1, size - 1), CellState::Unrevealed);
    assert!(board.is_won());
}

#[test]
fn single_cell_board_without_mine_is_won_by_one_reveal() {
    let mut board = Board::with_mines(1, &vec![]);
    assert_eq!(board.count_mines(0, 0), 0);
    board.reveal_cell(0, 0);
    assert_eq!(state(&board, 0, 0), CellState::Revealed(0));
    assert!(board.is_won());
}

#[test]
fn flag_toggles_back_and_forth() {
    let mut board = Board::with_mines(2, &vec![(0, 1)]);
    board.flag(0, 0);
    assert_eq!(board.cell(0, 0), Some(Cell { state: CellState::Flagged, mine: false }));
    board.flag(0, 0);
    assert_eq!(board.cell(0, 0), Some(hidden(false)));
    board.flag(0, 1);
    assert_eq!(board.cell(0, 1), Some(Cell { state: CellState::Flagged, mine: true }));
    board.flag(0, 1);
    assert_eq!(board.cell(0, 1), Some(hidden(true)));
    assert!(!board.is_game_over());
}

#[test]
fn flag_touches_one_cell_only() {
    let mut board = Board::with_mines(3, &vec![(2, 2)]);
    board.flag(1, 2);
    for x in 0..3 {
        for y in 0..3 {
            let want = if (x, y) == (1, 2) { CellState::Flagged } else { CellState::Unrevealed };
            assert_eq!(state(&board, x, y), want);
            assert_eq!(board.cell(x, y).unwrap().mine, (x, y) == (2, 2));
        }
    }
    assert_eq!(board.cursor(), (0, 0));
}

#[test]
fn flag_leaves_revealed_cell_alone() {
    let mut board = Board::with_mines(3, &vec![(1, 1)]);
    board.reveal_cell(0, 0);
    board.flag(0, 0);
    assert_eq!(state(&board, 0, 0), CellState::Revealed(1));
    board.flag(0, 0);
    assert_eq!(state(&board, 0, 0), CellState::Revealed(1));
}

#[test]
fn win_needs_every_safe_cell_revealed() {
    let mut board = Board::with_mines(2, &vec![(0, 0)]);
    assert!(!board.is_won());
    board.reveal_cell(0, 1);
    assert!(!board.is_won());
    board.reveal_cell(1, 0);
    assert!(!board.is_won());
    board.reveal_cell(1, 1);
    assert!(board.is_won());
}

#[test]
fn win_does_not_depend_on_flags_on_mines() {
    let mut board = Board::with_mines(2, &vec![(0, 0)]);
    board.reveal_cell(0, 1);
    board.reveal_cell(1, 0);
    board.reveal_cell(1, 1);
    assert!(board.is_won());
    board.flag(0, 0);
    assert!(board.is_won());
    board.flag(0, 0);
    assert!(board.is_won());
}

#[test]
fn flag_on_safe_cell_blocks_the_win() {
    let mut board = Board::with_mines(2, &vec![(0, 0)]);
    board.reveal_cell(0, 1);
    board.reveal_cell(1, 0);
    board.flag(1, 1);
    assert!(!board.is_won());
    board.reveal_cell(1, 1);
    assert!(!board.is_won());
    board.flag(1, 1);
    board.reveal_cell(1, 1);
    assert!(board.is_won());
}

#[test]
fn board_of_mines_only_counts_as_won() {
    let board = Board::with_mines(2, &vec![(0, 0), (0, 1), (1, 0), (1, 1)]);
    assert!(board.is_won());
    assert!(!board.is_game_over());
}

#[test]
fn set_game_over_sets_and_clears_the_flag_only() {
    let mut board = Board::with_mines(2, &vec![(1, 0)]);
    board.set_game_over(true);
    assert!(board.is_game_over());
    board.set_game_over(false);
    assert!(!board.is_game_over());
    assert_eq!(board.cell(1, 0), Some(hidden(true)));
    assert_eq!(board.cell(0, 0), Some(hidden(false)));
    assert_eq!(board.cursor(), (0, 0));
    assert_eq!(board.get_board_size(), 2);
}

#[test]
fn cursor_stops_at_the_top_left_corner() {
    let mut board = Board::with_mines(5, &vec![]);
    assert_eq!(board.cursor(), (0, 0));
    board.move_up();
    assert_eq!(board.cursor(), (0, 0));
    board.move_left();
    assert_eq!(board.cursor(), (0, 0));
    board.move_down();
    assert_eq!(board.cursor(), (1, 0));
}

#[test]
fn cursor_stops_at_the_bottom_right_corner() {
    let mut board = Board::with_mines(3, &vec![]);
    for _ in 0..5 {
        board.move_down();
        board.move_right();
    }
    assert_eq!(board.cursor(), (2, 2));
    board.move_up();
    assert_eq!(board.cursor(), (1, 2));
    board.move_left();
    assert_eq!(board.cursor(), (1, 1));
}

#[test]
fn cursor_cannot_move_on_a_single_cell_board() {
    let mut board = Board::with_mines(1, &vec![]);
    board.move_down();
    board.move_right();
    board.move_up();
    board.move_left();
    assert_eq!(board.cursor(), (0, 0));
}

#[test]
fn new_board_is_untouched() {
    let board = Board::new(6, 10);
    assert_eq!(board.get_board_size(), 6);
    assert_eq!(board.cursor(), (0, 0));
    assert!(!board.is_game_over());
    let mut mines = 0;
    for x in 0..6 {
        for y in 0..6 {
            let cell = board.cell(x, y).unwrap();
            assert_eq!(cell.state, CellState::Unrevealed);
            if cell.mine {
                mines += 1;
            }
        }
    }
    assert!(mines >= 1);
    assert!(mines <= 10);
}

#[test]
fn new_board_without_mines_has_none() {
    let board = Board::new(4, 0);
    for x in 0..4 {
        for y in 0..4 {
            assert_eq!(board.cell(x, y), Some(hidden(false)));
        }
    }
}

#[test]
fn new_single_cell_board_puts_the_mine_on_its_cell() {
    let board = Board::new(1, 1);
    assert_eq!(board.cell(0, 0), Some(hidden(true)));
    let board = Board::new(1, 7);
    assert_eq!(board.cell(0, 0), Some(hidden(true)));
}

#[test]
fn new_accepts_more_mines_than_cells() {
    let board = Board::new(2, 50);
    let mut mines = 0;
    for x in 0..2 {
        for y in 0..2 {
            if board.cell(x, y).unwrap().mine {
                mines += 1;
            }
        }
    }
    assert!(mines >= 1);
    assert!(mines <= 4);
}

#[test]
fn new_draws_positions_all_over_the_grid() {
    // With 2000 draws on 9 cells, a cell that is never hit means that the
    // draws do not cover the grid.
    let board = Board::new(3, 2000);
    for x in 0..3 {
        for y in 0..3 {
            assert!(board.cell(x, y).unwrap().mine);
        }
    }
}

#[test]
fn try_new_rejects_zero_size() {
    assert_eq!(Board::try_new(0, 0).err(), Some(ConfigError::ZeroSize));
    assert_eq!(Board::try_new(0, 5).err(), Some(ConfigError::ZeroSize));
}

#[test]
fn try_new_rejects_more_mines_than_cells() {
    assert_eq!(Board::try_new(3, 10).err(), Some(ConfigError::TooManyMines));
    assert_eq!(Board::try_new(1, 2).err(), Some(ConfigError::TooManyMines));
    assert_eq!(Board::try_new(2, usize::MAX).err(), Some(ConfigError::TooManyMines));
}

#[test]
fn try_new_accepts_a_full_board() {
    let board = Board::try_new(3, 9).ok().unwrap();
    assert_eq!(board.get_board_size(), 3);
    let board = Board::try_new(1, 1).ok().unwrap();
    assert_eq!(board.cell(0, 0), Some(hidden(true)));
    let board = Board::try_new(2, 0).ok().unwrap();
    assert_eq!(board.cell(1, 1), Some(hidden(false)));
}
