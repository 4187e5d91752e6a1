use rtetris::board::Board;
use rtetris::board::Movement;
use rtetris::tetromino::Tetromino;
use rtetris::tetromino::Type;

/// Moves the active piece far off the grid's columns so that it neither
/// collides nor shows up in dumps.
fn park(b: &mut Board) {
    b.tetromino = Tetromino::new(Type::I_BLOCK, 0, -50);
}

#[test]
fn fresh_board_frame_and_interior() {
    let b = Board::new(6, 7);
    for i in 0..6 {
        for j in 0..7 {
            let expect = i == 0 || j == 0 || i == 5 || j == 6;
            assert_eq!(b.matrix[i][j], expect);
        }
    }
}

#[test]
fn fresh_board_smallest() {
    let b = Board::new(4, 4);
    for i in 0..4 {
        for j in 0..4 {
            let expect = i == 0 || j == 0 || i == 3 || j == 3;
            assert_eq!(b.matrix[i][j], expect);
        }
    }
}

#[test]
fn spawned_piece_at_anchor_and_clear() {
    let b = Board::new(20, 15);
    assert_eq!((b.tetromino.i, b.tetromino.j), (2, 2));
    assert_eq!(b.tetromino.selected_pattern, 0);
    assert!(!b.overlaps());
}

#[test]
fn apply_movement_moves_piece() {
    let mut b = Board::new(20, 15);
    b.tetromino = Tetromino::new(Type::O_BLOCK, 2, 2);
    assert!(b.apply_movement(Movement::Down));
    assert_eq!((b.tetromino.i, b.tetromino.j), (3, 2));
    assert!(b.apply_movement(Movement::Right));
    assert_eq!((b.tetromino.i, b.tetromino.j), (3, 3));
    assert!(b.apply_movement(Movement::Left));
    assert_eq!((b.tetromino.i, b.tetromino.j), (3, 2));
}

#[test]
fn apply_movement_atomic_on_rejection() {
    let mut b = Board::new(8, 8);
    // O occupies rows 4..=5, columns 3..=4 at this anchor.
    b.tetromino = Tetromino::new(Type::O_BLOCK, 2, 2);
    b.matrix[6][3] = true;
    let before = b.tetromino;
    let accepted = b.apply_movement(Movement::Down);
    assert!(!accepted);
    assert_eq!(b.tetromino, before);
}

#[test]
fn rotation_movements_step_the_index() {
    let mut b = Board::new(20, 15);
    b.tetromino = Tetromino::new(Type::L_BLOCK, 2, 2);
    assert!(b.apply_movement(Movement::RotateRight));
    assert_eq!(b.tetromino.selected_pattern, 1);
    assert!(b.apply_movement(Movement::RotateLeft));
    assert_eq!(b.tetromino.selected_pattern, 0);
}

#[test]
fn left_movement_clamped_at_column_zero() {
    let mut b = Board::new(8, 8);
    // O occupies rows 4..=5, columns 1..=2: inside the interior.
    b.tetromino = Tetromino::new(Type::O_BLOCK, 2, 0);
    let accepted = b.apply_movement(Movement::Left);
    assert!(accepted);
    assert_eq!(b.tetromino.j, 0);
}

#[test]
fn merge_bakes_piece_monotonically() {
    let mut b = Board::new(8, 8);
    b.tetromino = Tetromino::new(Type::O_BLOCK, 2, 2);
    b.matrix[2][2] = true;
    let before = b.matrix.clone();
    b.merge();
    for i in 0..8 {
        for j in 0..8 {
            let covered = (i == 4 || i == 5) && (j == 3 || j == 4);
            assert_eq!(b.matrix[i][j], before[i][j] || covered);
        }
    }
    assert_eq!(b.tetromino, Tetromino::new(Type::O_BLOCK, 2, 2));
}

#[test]
fn merge_skips_columns_past_the_right_edge() {
    let mut b = Board::new(8, 8);
    // O's mask columns land on absolute columns 7 and 8: 8 is off the grid
    // and skipped, 7 is the frame column and already occupied.
    b.tetromino = Tetromino::new(Type::O_BLOCK, 2, 6);
    b.merge();
    for i in 0..8 {
        for j in 0..8 {
            assert_eq!(b.matrix[i][j], i == 0 || j == 0 || i == 7 || j == 7);
        }
    }
}

#[test]
fn merge_skips_negative_columns() {
    let mut b = Board::new(8, 8);
    // O's mask columns land on absolute columns -1 and 0: -1 is off the
    // grid and skipped, 0 is the frame column and already occupied.
    b.tetromino = Tetromino::new(Type::O_BLOCK, 2, -2);
    b.merge();
    for i in 0..8 {
        for j in 0..8 {
            assert_eq!(b.matrix[i][j], i == 0 || j == 0 || i == 7 || j == 7);
        }
    }
}

#[test]
fn overlaps_detects_collision() {
    let mut b = Board::new(8, 8);
    b.tetromino = Tetromino::new(Type::O_BLOCK, 2, 2);
    assert!(!b.overlaps());
    b.matrix[4][3] = true;
    assert!(b.overlaps());
}

#[test]
fn game_over_when_spawn_cells_occupied() {
    let mut b = Board::new(20, 15);
    for i in 2..6 {
        for j in 2..6 {
            b.matrix[i][j] = true;
        }
    }
    // Whatever type spawned, some occupied mask cell lands in the filled
    // spawn box.
    assert!(b.overlaps());
}

#[test]
fn clear_rows_idempotent() {
    let mut b = Board::new(6, 6);
    park(&mut b);
    for j in 1..5 {
        b.matrix[4][j] = true;
    }
    assert!(b.check_completed_rows());
    assert!(!b.check_completed_rows());
}

#[test]
fn clear_returns_false_on_fresh_board() {
    let mut b = Board::new(6, 6);
    park(&mut b);
    assert!(!b.check_completed_rows());
}

#[test]
fn clear_shifts_rows_down() {
    let mut b = Board::new(7, 6);
    park(&mut b);
    b.matrix[3][2] = true;
    for j in 1..5 {
        b.matrix[5][j] = true;
    }
    assert!(b.check_completed_rows());
    assert!(!b.matrix[3][2]);
    assert!(b.matrix[4][2]);
    for j in 1..5 {
        assert!(!b.matrix[5][j]);
    }
}

#[test]
fn end_to_end_o_piece_row_clear() {
    let mut b = Board::new(6, 6);
    b.tetromino = Tetromino::new(Type::O_BLOCK, 1, 0);
    b.merge();
    b.tetromino = Tetromino::new(Type::O_BLOCK, 1, 2);
    b.merge();
    park(&mut b);
    // Rows 3 and 4 are now fully occupied across the interior columns.
    for j in 1..5 {
        assert!(b.matrix[3][j]);
        assert!(b.matrix[4][j]);
    }
    assert!(b.check_completed_rows());
    // Each cleared row now reflects the rows that stood above it: nothing.
    for i in 1..5 {
        for j in 1..5 {
            assert!(!b.matrix[i][j]);
        }
    }
}

#[test]
fn cascading_clear_detects_rows_completed_by_compaction() {
    let mut b = Board::new(8, 6);
    park(&mut b);
    // Two stacked full rows: once the bottom one is cleared, the full row
    // dropped into its place is detected only by the restarted scan.
    for j in 1..5 {
        b.matrix[6][j] = true;
    }
    for j in 1..5 {
        b.matrix[5][j] = true;
    }
    b.matrix[4][1] = true;
    assert!(b.check_completed_rows());
    // Both full rows cleared; the single leftover block dropped to row 6.
    assert!(b.matrix[6][1]);
    for j in 2..5 {
        assert!(!b.matrix[6][j]);
    }
    for i in 1..6 {
        for j in 1..5 {
            assert!(!b.matrix[i][j]);
        }
    }
}

#[test]
fn blocks_lists_occupied_cells_row_major() {
    let b = Board::new(4, 4);
    let bs = b.blocks();
    assert_eq!(bs.len(), 12);
    assert_eq!(bs[0], (0, 0));
    assert_eq!(bs[4], (1, 0));
    assert_eq!(bs[5], (1, 3));
    assert_eq!(bs[11], (3, 3));

    let mut b = Board::new(5, 5);
    b.matrix[2][2] = true;
    let bs = b.blocks();
    assert_eq!(bs.len(), 17);
    assert!(bs.contains(&(2, 2)));
    assert!(!bs.contains(&(2, 1)));
}

#[test]
fn to_str_draws_grid_and_piece() {
    let mut b = Board::new(5, 5);
    b.tetromino = Tetromino::new(Type::O_BLOCK, 0, 1);
    let s = b.to_str();
    assert_eq!(s, "XXXXX\nX___X\nX_XXX\nX_XXX\nXXXXX\n");
}

#[test]
fn to_str_of_plain_grid() {
    let mut b = Board::new(4, 5);
    park(&mut b);
    assert_eq!(b.to_str(), "XXXXX\nX___X\nX___X\nXXXXX\n");
}
