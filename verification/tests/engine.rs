//! Behavior of the game engine: placement validation, movement, rotation,
//! locking, line clears, scoring and game over.

use tetris_game::{Color, RandomGenerator, Tetris, BOARD_HEIGHT, BOARD_WIDTH};

/// A deterministic random source cycling through a fixed list of draws.
struct FixedRng {
    vals: Vec<usize>,
    i: usize,
}

impl FixedRng {
    fn new(vals: Vec<usize>) -> Self {
        FixedRng { vals, i: 0 }
    }
}

impl RandomGenerator for FixedRng {
    fn next_random(&mut self) -> usize {
        let v = self.vals[self.i % self.vals.len()];
        self.i += 1;
        v
    }
}

fn fresh_game() -> Tetris<FixedRng> {
    Tetris::new(FixedRng::new(vec![0]))
}

fn cell(game: &Tetris<FixedRng>, x: usize, y: usize) -> Option<Color> {
    game.board[y * BOARD_WIDTH + x]
}

fn fill_cell(game: &mut Tetris<FixedRng>, x: usize, y: usize) {
    game.board[y * BOARD_WIDTH + x] = Some(Color::Red);
}

#[test]
fn new_game_starts_running() {
    let game = fresh_game();
    assert!(!game.is_game_over());
    assert_eq!(game.score, 0);
    assert_eq!(game.piece_pos, (3, 0));
    // The first template is the I piece with its fixed color.
    assert_eq!(game.current_piece.shape, [(0, 1), (1, 1), (2, 1), (3, 1)]);
    assert!(matches!(game.current_piece.color, Color::Cyan));
    for y in 0..BOARD_HEIGHT {
        for x in 0..BOARD_WIDTH {
            assert!(cell(&game, x, y).is_none());
        }
    }
}

#[test]
fn can_place_rejects_left_wall() {
    let game = fresh_game();
    let shape = game.current_piece.shape;
    assert!(!game.can_place(&shape, (-1, 0)));
}

#[test]
fn can_place_rejects_right_wall() {
    let game = fresh_game();
    let shape = game.current_piece.shape;
    // The I piece spans columns pos.0 .. pos.0 + 3; column 9 is the last one.
    assert!(game.can_place(&shape, (6, 0)));
    assert!(!game.can_place(&shape, (7, 0)));
}

#[test]
fn can_place_rejects_floor() {
    let game = fresh_game();
    let shape = game.current_piece.shape;
    // The I piece's cells sit one row under the anchor.
    assert!(game.can_place(&shape, (3, 18)));
    assert!(!game.can_place(&shape, (3, 19)));
}

#[test]
fn can_place_rejects_overlap() {
    let mut game = fresh_game();
    let shape = game.current_piece.shape;
    fill_cell(&mut game, 4, 1);
    assert!(!game.can_place(&shape, (3, 0)));
    assert!(game.can_place(&shape, (3, 1)));
}

#[test]
fn can_place_accepts_negative_rows_over_any_board() {
    let mut game = fresh_game();
    let shape = game.current_piece.shape;
    for y in 0..BOARD_HEIGHT {
        for x in 0..BOARD_WIDTH {
            fill_cell(&mut game, x, y);
        }
    }
    // Every cell of the candidate sits above the visible top.
    assert!(game.can_place(&shape, (3, -5)));
}

#[test]
fn move_left_stops_at_wall() {
    let mut game = fresh_game();
    assert!(game.move_left());
    assert!(game.move_left());
    assert!(game.move_left());
    assert_eq!(game.piece_pos, (0, 0));
    assert!(!game.move_left());
    assert_eq!(game.piece_pos, (0, 0));
}

#[test]
fn move_right_stops_at_wall() {
    let mut game = fresh_game();
    assert!(game.move_right());
    assert!(game.move_right());
    assert!(game.move_right());
    assert_eq!(game.piece_pos, (6, 0));
    assert!(!game.move_right());
    assert_eq!(game.piece_pos, (6, 0));
}

#[test]
fn rotation_four_times_restores_shape() {
    let mut game = fresh_game();
    let original = game.current_piece.shape;
    for _ in 0..4 {
        assert!(game.rotate());
    }
    assert_eq!(game.current_piece.shape, original);
}

#[test]
fn rotation_cycle_of_square_piece() {
    // The transform turns the 4x4 bounding box, not the piece's own center:
    // one turn moves the O piece's cells from the top-left of the box to the
    // bottom-left, and only the full four-turn cycle restores the offsets.
    let mut game = fresh_game();
    let original_o = tetris_game::tetromino_template(1);
    game.current_piece = original_o;
    assert!(game.rotate());
    assert_eq!(game.current_piece.shape, [(0, 3), (1, 3), (0, 2), (1, 2)]);
    for _ in 0..3 {
        assert!(game.rotate());
    }
    assert_eq!(game.current_piece.shape, original_o.shape);
}

#[test]
fn blocked_rotation_changes_nothing() {
    let mut game = fresh_game();
    // The rotated I piece would occupy (4,0)..(4,3); block one of those cells.
    fill_cell(&mut game, 4, 3);
    let before_shape = game.current_piece.shape;
    let before_pos = game.piece_pos;
    assert!(!game.rotate());
    assert_eq!(game.current_piece.shape, before_shape);
    assert_eq!(game.piece_pos, before_pos);
}

#[test]
fn piece_falls_and_locks_at_bottom() {
    let mut game = fresh_game();
    for _ in 0..20 {
        assert!(game.move_down());
    }
    // The I piece locked on the bottom row and a new piece spawned at the top.
    assert!(!game.is_game_over());
    assert_eq!(game.score, 0);
    for x in 3..7 {
        assert!(cell(&game, x, 19).is_some());
    }
    for x in (0..3).chain(7..10) {
        assert!(cell(&game, x, 19).is_none());
    }
    // The 19th call locked and spawned; the 20th moved the new piece once.
    assert_eq!(game.piece_pos, (3, 1));
}

#[test]
fn single_line_clear_scores_100_and_shifts() {
    let mut game = fresh_game();
    // Fill the bottom row except column 5, and mark a witness block above it.
    for x in 0..BOARD_WIDTH {
        if x != 5 {
            fill_cell(&mut game, x, 19);
        }
    }
    fill_cell(&mut game, 0, 18);
    // Turn the I piece upright (column 4) and move it over column 5.
    assert!(game.rotate());
    assert!(game.move_right());
    // Drop it until it locks: its lowest cell ends on row 19, filling the row.
    for _ in 0..17 {
        assert!(game.move_down());
    }
    assert_eq!(game.score, 100);
    // Row 19 now holds what row 18 held: the witness block at column 0 and
    // the three upper cells of the locked upright piece at column 5.
    assert!(cell(&game, 0, 19).is_some());
    assert!(cell(&game, 5, 19).is_some());
    for x in (1..5).chain(6..10) {
        assert!(cell(&game, x, 19).is_none());
    }
    // Row 18 holds what row 17 held: one piece cell at column 5.
    assert!(cell(&game, 5, 18).is_some());
    for x in (0..5).chain(6..10) {
        assert!(cell(&game, x, 18).is_none());
    }
}

#[test]
fn two_full_rows_clear_in_one_pass() {
    let mut game = fresh_game();
    for x in 0..BOARD_WIDTH {
        if x != 5 {
            fill_cell(&mut game, x, 18);
            fill_cell(&mut game, x, 19);
        }
    }
    assert!(game.rotate());
    assert!(game.move_right());
    for _ in 0..17 {
        assert!(game.move_down());
    }
    // The upright piece filled column 5 of rows 16..=19; rows 18 and 19 were
    // both full and both cleared in the same pass.
    assert_eq!(game.score, 200);
    assert!(cell(&game, 5, 19).is_some());
    assert!(cell(&game, 5, 18).is_some());
    for x in (0..5).chain(6..10) {
        assert!(cell(&game, x, 19).is_none());
        assert!(cell(&game, x, 18).is_none());
    }
    for x in 0..BOARD_WIDTH {
        assert!(cell(&game, x, 17).is_none());
        assert!(cell(&game, x, 16).is_none());
    }
}

#[test]
fn blocked_spawn_ends_the_game() {
    let mut game = fresh_game();
    // A wall one row under the piece, with a gap so no line clears.
    for x in 1..BOARD_WIDTH {
        fill_cell(&mut game, x, 2);
    }
    // The piece cannot descend: it locks at rows (3..7, 1), and the next I
    // piece spawns onto those same cells.
    assert!(game.move_down());
    assert!(game.is_game_over());
    assert_eq!(game.score, 0);
}

#[test]
fn no_moves_after_game_over() {
    let mut game = fresh_game();
    for x in 1..BOARD_WIDTH {
        fill_cell(&mut game, x, 2);
    }
    assert!(game.move_down());
    assert!(game.is_game_over());
    let pos = game.piece_pos;
    assert!(!game.move_left());
    assert!(!game.move_right());
    assert!(!game.move_down());
    assert!(!game.rotate());
    assert_eq!(game.piece_pos, pos);
    assert_eq!(game.score, 0);
}

#[test]
fn spawn_draws_template_from_random_source() {
    // Draw 2 picks the T template for the piece spawned after the first lock.
    let mut game = Tetris::new(FixedRng::new(vec![2]));
    for _ in 0..19 {
        game.move_down();
    }
    assert_eq!(game.current_piece.shape, [(0, 1), (1, 1), (2, 1), (1, 0)]);
    assert!(matches!(game.current_piece.color, Color::Magenta));
}
