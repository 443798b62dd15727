//! The game engine: board representation, piece geometry, placement rules,
//! movement, rotation, locking, line clears, scoring and game-over detection.

use vstd::prelude::*;

use crate::BOARD_CELLS;
use crate::BOARD_HEIGHT;
use crate::BOARD_WIDTH;

verus! {

/// The closed set of block colors.
#[derive(Clone, Copy, PartialEq, Eq, Debug)]
pub enum Color {
    Red,
    Green,
    Blue,
    Yellow,
    Cyan,
    Magenta,
    White,
}

/// A piece: four cell offsets inside a 4x4 bounding box, in a fixed order
/// (the order is also the rotation basis), plus the piece's color.
#[derive(Clone, Copy, PartialEq, Eq, Debug)]
pub struct Tetromino {
    pub shape: [(u8, u8); 4],
    pub color: Color,
}

/// A source of successive arbitrary integers. The engine reduces every draw
/// modulo the number of piece templates; no distribution is assumed.
pub trait RandomGenerator {
    fn next_random(&mut self) -> usize;
}

/// Flat row-major index of the board cell in column `x` of row `y`.
pub open spec fn cell_index(x: int, y: int) -> int {
    y * (BOARD_WIDTH as int) + x
}

/// A board is exactly the fixed grid, stored row-major.
pub open spec fn board_wf(b: Seq<Option<Color>>) -> bool {
    b.len() == BOARD_CELLS as int
}

/// Every board cell is empty.
pub open spec fn board_empty(b: Seq<Option<Color>>) -> bool {
    forall|i: int| 0 <= i < b.len() ==> b[i] is None
}

/// A shape is four offsets, each inside the 4x4 bounding box.
pub open spec fn shape_wf(s: Seq<(u8, u8)>) -> bool {
    &&& s.len() == 4
    &&& forall|i: int| 0 <= i < 4 ==> (#[trigger] s[i]).0 < 4 && s[i].1 < 4
}

/// The cell at absolute column `x` and row `y` may receive a piece cell:
/// inside the side walls, above the floor, and, for visible rows, not already
/// occupied. Rows above the visible top (`y < 0`) are free space.
pub open spec fn spec_cell_free(b: Seq<Option<Color>>, x: int, y: int) -> bool {
    &&& 0 <= x < BOARD_WIDTH as int
    &&& y < BOARD_HEIGHT as int
    &&& y >= 0 ==> b[cell_index(x, y)] is None
}

/// Placement validation: a shape fits at anchor `pos` when every one of its
/// offsets lands on a free cell.
pub open spec fn spec_can_place(b: Seq<Option<Color>>, s: Seq<(u8, u8)>, pos: (i8, i8)) -> bool {
    forall|i: int|
        0 <= i < s.len() ==> spec_cell_free(
            b,
            pos.0 + (#[trigger] s[i]).0,
            pos.1 + s[i].1,
        )
}

/// One quarter turn of a shape around the 4x4 bounding box:
/// each offset `(dx, dy)` becomes `(dy, 3 - dx)`.
pub open spec fn spec_rotated(s: Seq<(u8, u8)>) -> Seq<(u8, u8)> {
    Seq::new(s.len(), |i: int| ((s[i].1), (3 - s[i].0) as u8))
}

/// The board after the first `n` offsets of shape `s`, anchored at `pos`,
/// have been committed with color `c`, in shape order.
pub open spec fn spec_lock_n(
    b: Seq<Option<Color>>,
    s: Seq<(u8, u8)>,
    pos: (i8, i8),
    c: Color,
    n: int,
) -> Seq<Option<Color>>
    decreases n,
{
    if n <= 0 {
        b
    } else {
        spec_lock_n(b, s, pos, c, n - 1).update(
            cell_index(pos.0 + s[n - 1].0, pos.1 + s[n - 1].1),
            Some(c),
        )
    }
}

/// The board after the whole active piece has been committed.
pub open spec fn spec_lock(
    b: Seq<Option<Color>>,
    s: Seq<(u8, u8)>,
    pos: (i8, i8),
    c: Color,
) -> Seq<Option<Color>> {
    spec_lock_n(b, s, pos, c, 4)
}

/// Every cell of row `y` is occupied.
pub open spec fn spec_row_full(b: Seq<Option<Color>>, y: int) -> bool {
    forall|x: int| 0 <= x < BOARD_WIDTH as int ==> b[cell_index(x, y)] is Some
}

/// The board after clearing row `y`: every row above `y` moves down one row,
/// row zero becomes empty, rows below `y` keep their contents.
pub open spec fn spec_shift_down(b: Seq<Option<Color>>, y: int) -> Seq<Option<Color>> {
    Seq::new(
        b.len(),
        |i: int|
            if i >= (y + 1) * (BOARD_WIDTH as int) {
                b[i]
            } else if i < BOARD_WIDTH as int {
                None
            } else {
                b[i - BOARD_WIDTH]
            },
    )
}

/// One cleared row is worth 100 points; the score sticks at the top of its
/// range rather than wrap.
pub open spec fn spec_score_bump(score: u32) -> u32 {
    if score + 100 <= u32::MAX {
        (score + 100) as u32
    } else {
        u32::MAX
    }
}

/// The single top-to-bottom line-clear pass, started at row `y`: a full row is
/// cleared and scored as it is met, and the scan then moves on to the next row
/// of the already shifted board. A row shifted into place behind the scan is
/// not rechecked.
pub open spec fn spec_clear_from(b: Seq<Option<Color>>, score: u32, y: int) -> (
    Seq<Option<Color>>,
    u32,
)
    decreases BOARD_HEIGHT as int - y,
{
    if y < 0 || y >= BOARD_HEIGHT as int {
        (b, score)
    } else if spec_row_full(b, y) {
        spec_clear_from(spec_shift_down(b, y), spec_score_bump(score), y + 1)
    } else {
        spec_clear_from(b, score, y + 1)
    }
}

/// The shape of piece template `i` (I, O, T, L, J, S, Z in that order).
pub open spec fn spec_template_shape(i: int) -> Seq<(u8, u8)> {
    if i == 0 {
        seq![(0u8, 1u8), (1u8, 1u8), (2u8, 1u8), (3u8, 1u8)]
    } else if i == 1 {
        seq![(0u8, 0u8), (0u8, 1u8), (1u8, 0u8), (1u8, 1u8)]
    } else if i == 2 {
        seq![(0u8, 1u8), (1u8, 1u8), (2u8, 1u8), (1u8, 0u8)]
    } else if i == 3 {
        seq![(0u8, 0u8), (1u8, 0u8), (2u8, 0u8), (2u8, 1u8)]
    } else if i == 4 {
        seq![(0u8, 1u8), (1u8, 1u8), (2u8, 1u8), (2u8, 0u8)]
    } else if i == 5 {
        seq![(0u8, 0u8), (1u8, 0u8), (1u8, 1u8), (2u8, 1u8)]
    } else {
        seq![(0u8, 1u8), (1u8, 1u8), (1u8, 0u8), (2u8, 0u8)]
    }
}

/// The fixed starting color of piece template `i`.
pub open spec fn spec_template_color(i: int) -> Color {
    if i == 0 {
        Color::Cyan
    } else if i == 1 {
        Color::Yellow
    } else if i == 2 {
        Color::Magenta
    } else if i == 3 {
        Color::Green
    } else if i == 4 {
        Color::Red
    } else if i == 5 {
        Color::Blue
    } else {
        Color::White
    }
}

/// The seven immutable piece templates.
pub fn tetromino_template(i: usize) -> (t: Tetromino)
    requires
        i < 7,
    ensures
        t.shape@ == spec_template_shape(i as int),
        t.color == spec_template_color(i as int),
        shape_wf(t.shape@),
{
    let shape: [(u8, u8); 4] = if i == 0 {
        [(0, 1), (1, 1), (2, 1), (3, 1)]
    } else if i == 1 {
        [(0, 0), (0, 1), (1, 0), (1, 1)]
    } else if i == 2 {
        [(0, 1), (1, 1), (2, 1), (1, 0)]
    } else if i == 3 {
        [(0, 0), (1, 0), (2, 0), (2, 1)]
    } else if i == 4 {
        [(0, 1), (1, 1), (2, 1), (2, 0)]
    } else if i == 5 {
        [(0, 0), (1, 0), (1, 1), (2, 1)]
    } else {
        [(0, 1), (1, 1), (1, 0), (2, 0)]
    };
    let color = if i == 0 {
        Color::Cyan
    } else if i == 1 {
        Color::Yellow
    } else if i == 2 {
        Color::Magenta
    } else if i == 3 {
        Color::Green
    } else if i == 4 {
        Color::Red
    } else if i == 5 {
        Color::Blue
    } else {
        Color::White
    };
    proof {
        assert(shape@ =~= spec_template_shape(i as int));
    }
    Tetromino { shape, color }
}

/// Law: four successive quarter turns return a shape to its original offsets.
/// Together with [`Tetris::rotate`]'s contract, four successful rotations of
/// an unobstructed piece restore its shape.
pub proof fn lemma_rotation_four_times_identity(s: Seq<(u8, u8)>)
    requires
        shape_wf(s),
    ensures
        spec_rotated(spec_rotated(spec_rotated(spec_rotated(s)))) == s,
{
    assert(spec_rotated(spec_rotated(spec_rotated(spec_rotated(s)))) =~= s);
}

/// Law: the line-clear pass never lowers the score, so the score is
/// monotonically non-decreasing over the life of a game.
pub proof fn lemma_clear_score_monotonic(b: Seq<Option<Color>>, score: u32, y: int)
    ensures
        spec_clear_from(b, score, y).1 >= score,
    decreases BOARD_HEIGHT as int - y,
{
    if 0 <= y < BOARD_HEIGHT as int {
        if spec_row_full(b, y) {
            lemma_clear_score_monotonic(spec_shift_down(b, y), spec_score_bump(score), y + 1);
        } else {
            lemma_clear_score_monotonic(b, score, y + 1);
        }
    }
}

/// A pass that meets no full row leaves board and score alone.
proof fn lemma_clear_from_no_full_rows(b: Seq<Option<Color>>, score: u32, y: int)
    requires
        forall|r: int| y <= r < BOARD_HEIGHT as int ==> !spec_row_full(b, r),
    ensures
        spec_clear_from(b, score, y) == (b, score),
    decreases BOARD_HEIGHT as int - y,
{
    if 0 <= y < BOARD_HEIGHT as int {
        assert(!spec_row_full(b, y));
        lemma_clear_from_no_full_rows(b, score, y + 1);
    }
}

/// A pass started at `lo` whose only full row at or after `lo` is `y` clears
/// exactly that row and scores it once.
proof fn lemma_clear_skip_to(b: Seq<Option<Color>>, score: u32, lo: int, y: int)
    requires
        board_wf(b),
        0 <= lo <= y < BOARD_HEIGHT as int,
        spec_row_full(b, y),
        forall|r: int| lo <= r < BOARD_HEIGHT as int && r != y ==> !spec_row_full(b, r),
        score + 100 <= u32::MAX,
    ensures
        spec_clear_from(b, score, lo) == (spec_shift_down(b, y), (score + 100) as u32),
    decreases y - lo,
{
    if lo == y {
        let sh = spec_shift_down(b, y);
        assert forall|r: int| y + 1 <= r < BOARD_HEIGHT as int implies !spec_row_full(sh, r) by {
            assert(!spec_row_full(b, r));
            let x = choose|x: int| 0 <= x < BOARD_WIDTH as int && !(b[cell_index(x, r)] is Some);
            assert(sh[cell_index(x, r)] == b[cell_index(x, r)]);
        }
        lemma_clear_from_no_full_rows(sh, spec_score_bump(score), y + 1);
    } else {
        assert(!spec_row_full(b, lo));
        lemma_clear_skip_to(b, score, lo + 1, y);
    }
}

/// Law: when exactly one row `y` of the board is full, the line-clear pass
/// clears exactly that row — afterwards the board is `spec_shift_down(b, y)`
/// (row zero empty, rows above `y` moved down one row, rows below `y`
/// untouched) and the score has grown by exactly 100.
pub proof fn lemma_single_full_row_clear(b: Seq<Option<Color>>, score: u32, y: int)
    requires
        board_wf(b),
        0 <= y < BOARD_HEIGHT as int,
        spec_row_full(b, y),
        forall|r: int| 0 <= r < BOARD_HEIGHT as int && r != y ==> !spec_row_full(b, r),
        score + 100 <= u32::MAX,
    ensures
        spec_clear_from(b, score, 0).0 == spec_shift_down(b, y),
        spec_clear_from(b, score, 0).1 == score + 100,
{
    lemma_clear_skip_to(b, score, 0, y);
}

/// Row-level reading of a cleared board: row zero is empty, rows up to and
/// including `y` take the contents of the row above them, and rows below `y`
/// keep their contents.
pub proof fn lemma_shift_down_cells(b: Seq<Option<Color>>, y: int, x: int, r: int)
    requires
        board_wf(b),
        0 <= y < BOARD_HEIGHT as int,
        0 <= x < BOARD_WIDTH as int,
        0 <= r < BOARD_HEIGHT as int,
    ensures
        r == 0 ==> spec_shift_down(b, y)[cell_index(x, r)] is None,
        0 < r <= y ==> spec_shift_down(b, y)[cell_index(x, r)] == b[cell_index(x, r - 1)],
        y < r ==> spec_shift_down(b, y)[cell_index(x, r)] == b[cell_index(x, r)],
{
}

/// The game: board of locked cells, active piece with its anchor, score,
/// and the one-way game-over flag.
pub struct Tetris<R: RandomGenerator> {
    pub board: Vec<Option<Color>>,
    pub current_piece: Tetromino,
    pub piece_pos: (i8, i8),
    pub score: u32,
    pub game_over: bool,
    pub rng: R,
}

impl<R: RandomGenerator> Tetris<R> {
    /// While the game is running, the active piece's cells stay on the board.
    pub open spec fn piece_in_bounds(self) -> bool {
        &&& self.piece_pos.1 >= 0
        &&& forall|i: int|
            0 <= i < 4 ==> {
                &&& 0 <= self.piece_pos.0 + (#[trigger] self.current_piece.shape@[i]).0
                    < BOARD_WIDTH as int
                &&& self.piece_pos.1 + self.current_piece.shape@[i].1 < BOARD_HEIGHT as int
            }
    }

    /// Well-formedness: the grid has its fixed size, the active shape stays
    /// inside its bounding box, and while the game runs the piece is on board.
    pub open spec fn wf(self) -> bool {
        &&& board_wf(self.board@)
        &&& shape_wf(self.current_piece.shape@)
        &&& !self.game_over ==> self.piece_in_bounds()
    }

    /// Placement validation over the current board, exactly as
    /// [`spec_can_place`] states it.
    pub fn can_place(&self, piece: &[(u8, u8); 4], pos: (i8, i8)) -> (r: bool)
        requires
            self.wf(),
        ensures
            r == spec_can_place(self.board@, piece@, pos),
    {
        let mut i: usize = 0;
        while i < 4
            invariant
                self.wf(),
                i <= 4,
                forall|j: int|
                    0 <= j < i ==> spec_cell_free(
                        self.board@,
                        pos.0 + (#[trigger] piece@[j]).0,
                        pos.1 + piece@[j].1,
                    ),
            decreases 4 - i,
        {
            let (dx, dy) = piece[i];
            let x = pos.0 as i32 + dx as i32;
            let y = pos.1 as i32 + dy as i32;
            if x < 0 || x >= BOARD_WIDTH as i32 || y >= BOARD_HEIGHT as i32 {
                return false;
            }
            if y >= 0 {
                let idx = (y as usize) * BOARD_WIDTH + (x as usize);
                if self.board[idx].is_some() {
                    return false;
                }
            }
            i = i + 1;
        }
        true
    }

    /// Start a fresh game: empty board, the first template as active piece at
    /// the fixed spawn anchor, score zero. On the fixed grid the first piece
    /// always fits, so the game starts running.
    pub fn new(rng: R) -> (game: Self)
        ensures
            game.wf(),
            board_empty(game.board@),
            game.current_piece.shape@ == spec_template_shape(0),
            game.current_piece.color == spec_template_color(0),
            game.piece_pos == (3i8, 0i8),
            game.score == 0,
            !game.game_over,
            game.rng == rng,
    {
        let mut board: Vec<Option<Color>> = Vec::new();
        let mut i: usize = 0;
        while i < BOARD_CELLS
            invariant
                i <= BOARD_CELLS,
                board@.len() == i,
                forall|j: int| 0 <= j < i ==> board@[j] is None,
            decreases BOARD_CELLS - i,
        {
            board.push(None);
            i = i + 1;
        }
        let mut game = Tetris {
            board,
            current_piece: tetromino_template(0),
            piece_pos: (3, 0),
            score: 0,
            game_over: false,
            rng,
        };
        if !game.can_place(&game.current_piece.shape, game.piece_pos) {
            game.game_over = true;
        }
        proof {
            assert(spec_can_place(game.board@, spec_template_shape(0), (3i8, 0i8))) by {
                assert forall|k: int| 0 <= k < 4 implies spec_cell_free(
                    game.board@,
                    3 + (#[trigger] spec_template_shape(0)[k]).0,
                    0 + spec_template_shape(0)[k].1,
                ) by {
                    assert(spec_template_shape(0)[k].0 < 4);
                    assert(spec_template_shape(0)[k].1 < 4);
                }
            }
        }
        game
    }

    /// Whether the terminal game-over state has been reached.
    pub fn is_game_over(&self) -> (r: bool)
        ensures
            r == self.game_over,
    {
        self.game_over
    }

    /// Attempt to translate the active piece by `delta`. The move is applied
    /// exactly when the game is running and the translated shape passes
    /// placement validation; nothing else changes either way.
    fn try_move(&mut self, delta: (i8, i8)) -> (r: bool)
        requires
            old(self).wf(),
            -1 <= delta.0 <= 1,
            0 <= delta.1 <= 1,
        ensures
            final(self).wf(),
            old(self).game_over ==> *final(self) == *old(self) && !r,
            !old(self).game_over ==> {
                let new_pos = (
                    (old(self).piece_pos.0 + delta.0) as i8,
                    (old(self).piece_pos.1 + delta.1) as i8,
                );
                if spec_can_place(old(self).board@, old(self).current_piece.shape@, new_pos) {
                    r && *final(self) == Tetris { piece_pos: new_pos, ..*old(self) }
                } else {
                    !r && *final(self) == *old(self)
                }
            },
    {
        if self.game_over {
            return false;
        }
        proof {
            assert(self.current_piece.shape@[0].0 < 4);
        }
        let new_pos = (self.piece_pos.0 + delta.0, self.piece_pos.1 + delta.1);
        if self.can_place(&self.current_piece.shape, new_pos) {
            self.piece_pos = new_pos;
            true
        } else {
            false
        }
    }

    /// Attempt to move the active piece one column to the left.
    pub fn move_left(&mut self) -> (r: bool)
        requires
            old(self).wf(),
        ensures
            final(self).wf(),
            old(self).game_over ==> *final(self) == *old(self) && !r,
            !old(self).game_over ==> {
                let new_pos = (
                    (old(self).piece_pos.0 - 1) as i8,
                    old(self).piece_pos.1,
                );
                if spec_can_place(old(self).board@, old(self).current_piece.shape@, new_pos) {
                    r && *final(self) == Tetris { piece_pos: new_pos, ..*old(self) }
                } else {
                    !r && *final(self) == *old(self)
                }
            },
    {
        self.try_move((-1, 0))
    }

    /// Attempt to move the active piece one column to the right.
    pub fn move_right(&mut self) -> (r: bool)
        requires
            old(self).wf(),
        ensures
            final(self).wf(),
            old(self).game_over ==> *final(self) == *old(self) && !r,
            !old(self).game_over ==> {
                let new_pos = (
                    (old(self).piece_pos.0 + 1) as i8,
                    old(self).piece_pos.1,
                );
                if spec_can_place(old(self).board@, old(self).current_piece.shape@, new_pos) {
                    r && *final(self) == Tetris { piece_pos: new_pos, ..*old(self) }
                } else {
                    !r && *final(self) == *old(self)
                }
            },
    {
        self.try_move((1, 0))
    }

    /// Attempt to rotate the active piece a quarter turn. The rotated shape is
    /// adopted exactly when it passes placement validation at the unchanged
    /// anchor; no wall kicks are tried, and nothing else changes either way.
    pub fn rotate(&mut self) -> (r: bool)
        requires
            old(self).wf(),
        ensures
            final(self).wf(),
            old(self).game_over ==> *final(self) == *old(self) && !r,
            !old(self).game_over ==> {
                let rot = spec_rotated(old(self).current_piece.shape@);
                if spec_can_place(old(self).board@, rot, old(self).piece_pos) {
                    r && final(self).current_piece.shape@ == rot
                        && final(self).current_piece.color == old(self).current_piece.color
                        && final(self).board@ == old(self).board@
                        && final(self).piece_pos == old(self).piece_pos
                        && final(self).score == old(self).score
                        && final(self).game_over == old(self).game_over
                        && final(self).rng == old(self).rng
                } else {
                    !r && *final(self) == *old(self)
                }
            },
    {
        if self.game_over {
            return false;
        }
        let s = &self.current_piece.shape;
        proof {
            assert(s@[0].0 < 4 && s@[1].0 < 4 && s@[2].0 < 4 && s@[3].0 < 4);
        }
        let rotated: [(u8, u8); 4] = [
            (s[0].1, 3 - s[0].0),
            (s[1].1, 3 - s[1].0),
            (s[2].1, 3 - s[2].0),
            (s[3].1, 3 - s[3].0),
        ];
        proof {
            assert(rotated@ =~= spec_rotated(self.current_piece.shape@));
        }
        if self.can_place(&rotated, self.piece_pos) {
            self.current_piece.shape = rotated;
            true
        } else {
            false
        }
    }

    /// Whether every cell of visible row `y` is occupied.
    fn row_full(&self, y: usize) -> (r: bool)
        requires
            self.wf(),
            y < BOARD_HEIGHT,
        ensures
            r == spec_row_full(self.board@, y as int),
    {
        let mut x: usize = 0;
        while x < BOARD_WIDTH
            invariant
                self.wf(),
                y < BOARD_HEIGHT,
                x <= BOARD_WIDTH,
                forall|k: int| 0 <= k < x ==> self.board@[cell_index(k, y as int)] is Some,
            decreases BOARD_WIDTH - x,
        {
            if self.board[y * BOARD_WIDTH + x].is_none() {
                proof {
                    assert(!(self.board@[cell_index(x as int, y as int)] is Some));
                }
                return false;
            }
            x = x + 1;
        }
        true
    }

    /// Clear row `y`: every row above it moves down one row and row zero
    /// becomes empty; nothing else changes.
    fn shift_rows_down(&mut self, y: usize)
        requires
            old(self).wf(),
            y < BOARD_HEIGHT,
        ensures
            final(self).wf(),
            final(self).board@ == spec_shift_down(old(self).board@, y as int),
            final(self).current_piece == old(self).current_piece,
            final(self).piece_pos == old(self).piece_pos,
            final(self).score == old(self).score,
            final(self).game_over == old(self).game_over,
            final(self).rng == old(self).rng,
    {
        let ghost orig = *self;
        let mut yy: usize = y;
        while yy >= 1
            invariant
                self.wf(),
                y < BOARD_HEIGHT,
                yy <= y,
                self.board@.len() == BOARD_CELLS as int,
                forall|i: int|
                    (yy + 1) * (BOARD_WIDTH as int) <= i < (y + 1) * (BOARD_WIDTH as int)
                        ==> self.board@[i] == orig.board@[i - BOARD_WIDTH],
                forall|i: int|
                    0 <= i < (yy + 1) * (BOARD_WIDTH as int) ==> self.board@[i] == orig.board@[i],
                forall|i: int|
                    (y + 1) * (BOARD_WIDTH as int) <= i < BOARD_CELLS as int
                        ==> self.board@[i] == orig.board@[i],
                self.current_piece == orig.current_piece,
                self.piece_pos == orig.piece_pos,
                self.score == orig.score,
                self.game_over == orig.game_over,
                self.rng == orig.rng,
            decreases yy,
        {
            let mut x: usize = 0;
            while x < BOARD_WIDTH
                invariant
                    self.wf(),
                    y < BOARD_HEIGHT,
                    1 <= yy <= y,
                    x <= BOARD_WIDTH,
                    self.board@.len() == BOARD_CELLS as int,
                    forall|i: int|
                        yy * (BOARD_WIDTH as int) <= i < yy * (BOARD_WIDTH as int) + x
                            ==> self.board@[i] == orig.board@[i - BOARD_WIDTH],
                    forall|i: int|
                        yy * (BOARD_WIDTH as int) + x <= i < (yy + 1) * (BOARD_WIDTH as int)
                            ==> self.board@[i] == orig.board@[i],
                    forall|i: int|
                        (yy + 1) * (BOARD_WIDTH as int) <= i < (y + 1) * (BOARD_WIDTH as int)
                            ==> self.board@[i] == orig.board@[i - BOARD_WIDTH],
                    forall|i: int|
                        0 <= i < yy * (BOARD_WIDTH as int) ==> self.board@[i] == orig.board@[i],
                    forall|i: int|
                        (y + 1) * (BOARD_WIDTH as int) <= i < BOARD_CELLS as int
                            ==> self.board@[i] == orig.board@[i],
                    self.current_piece == orig.current_piece,
                    self.piece_pos == orig.piece_pos,
                    self.score == orig.score,
                    self.game_over == orig.game_over,
                    self.rng == orig.rng,
                decreases BOARD_WIDTH - x,
            {
                let v = self.board[(yy - 1) * BOARD_WIDTH + x];
                self.board.set(yy * BOARD_WIDTH + x, v);
                x = x + 1;
            }
            yy = yy - 1;
        }
        let mut x: usize = 0;
        while x < BOARD_WIDTH
            invariant
                self.wf(),
                y < BOARD_HEIGHT,
                x <= BOARD_WIDTH,
                self.board@.len() == BOARD_CELLS as int,
                forall|i: int| 0 <= i < x ==> self.board@[i] is None,
                forall|i: int|
                    x <= i < BOARD_WIDTH as int ==> self.board@[i] == orig.board@[i],
                forall|i: int|
                    BOARD_WIDTH as int <= i < (y + 1) * (BOARD_WIDTH as int)
                        ==> self.board@[i] == orig.board@[i - BOARD_WIDTH],
                forall|i: int|
                    (y + 1) * (BOARD_WIDTH as int) <= i < BOARD_CELLS as int
                        ==> self.board@[i] == orig.board@[i],
                self.current_piece == orig.current_piece,
                self.piece_pos == orig.piece_pos,
                self.score == orig.score,
                self.game_over == orig.game_over,
                self.rng == orig.rng,
            decreases BOARD_WIDTH - x,
        {
            self.board.set(x, None);
            x = x + 1;
        }
        proof {
            assert(self.board@ =~= spec_shift_down(orig.board@, y as int));
        }
    }

    /// The single top-to-bottom line-clear pass after a lock: every full row
    /// met by the scan is cleared and scored; a row shifted into place behind
    /// the scan is not rechecked in the same pass.
    fn check_lines(&mut self)
        requires
            old(self).wf(),
        ensures
            final(self).wf(),
            old(self).game_over ==> *final(self) == *old(self),
            !old(self).game_over ==> {
                let r = spec_clear_from(old(self).board@, old(self).score, 0);
                &&& final(self).board@ == r.0
                &&& final(self).score == r.1
                &&& final(self).current_piece == old(self).current_piece
                &&& final(self).piece_pos == old(self).piece_pos
                &&& final(self).game_over == old(self).game_over
                &&& final(self).rng == old(self).rng
            },
    {
        if self.game_over {
            return ;
        }
        let ghost orig = *self;
        let mut y: usize = 0;
        while y < BOARD_HEIGHT
            invariant
                self.wf(),
                y <= BOARD_HEIGHT,
                spec_clear_from(orig.board@, orig.score, 0) == spec_clear_from(
                    self.board@,
                    self.score,
                    y as int,
                ),
                self.current_piece == orig.current_piece,
                self.piece_pos == orig.piece_pos,
                self.game_over == orig.game_over,
                !self.game_over,
                self.rng == orig.rng,
            decreases BOARD_HEIGHT - y,
        {
            if self.row_full(y) {
                self.shift_rows_down(y);
                if self.score <= u32::MAX - 100 {
                    self.score = self.score + 100;
                } else {
                    self.score = u32::MAX;
                }
            }
            y = y + 1;
        }
    }

    /// Commit the active piece's four cells into the board with its color,
    /// then run the line-clear pass.
    fn lock_piece(&mut self)
        requires
            old(self).wf(),
        ensures
            final(self).wf(),
            old(self).game_over ==> *final(self) == *old(self),
            !old(self).game_over ==> {
                let locked = spec_lock(
                    old(self).board@,
                    old(self).current_piece.shape@,
                    old(self).piece_pos,
                    old(self).current_piece.color,
                );
                let r = spec_clear_from(locked, old(self).score, 0);
                &&& final(self).board@ == r.0
                &&& final(self).score == r.1
                &&& final(self).current_piece == old(self).current_piece
                &&& final(self).piece_pos == old(self).piece_pos
                &&& final(self).game_over == old(self).game_over
                &&& final(self).rng == old(self).rng
            },
    {
        if self.game_over {
            return ;
        }
        let ghost orig = *self;
        let mut i: usize = 0;
        while i < 4
            invariant
                self.wf(),
                i <= 4,
                !self.game_over,
                self.board@ == spec_lock_n(
                    orig.board@,
                    orig.current_piece.shape@,
                    orig.piece_pos,
                    orig.current_piece.color,
                    i as int,
                ),
                self.current_piece == orig.current_piece,
                self.piece_pos == orig.piece_pos,
                self.score == orig.score,
                self.game_over == orig.game_over,
                self.rng == orig.rng,
            decreases 4 - i,
        {
            let (dx, dy) = self.current_piece.shape[i];
            proof {
                assert(0 <= self.piece_pos.0 + self.current_piece.shape@[i as int].0
                    < BOARD_WIDTH as int);
                assert(self.piece_pos.1 + self.current_piece.shape@[i as int].1
                    < BOARD_HEIGHT as int);
            }
            let x = (self.piece_pos.0 as i32 + dx as i32) as usize;
            let y = (self.piece_pos.1 as i32 + dy as i32) as usize;
            let c = self.current_piece.color;
            self.board.set(y * BOARD_WIDTH + x, Some(c));
            i = i + 1;
        }
        self.check_lines();
    }

    /// Draw the next template from the random source, place it at the fixed
    /// spawn anchor, and end the game if it does not fit there.
    fn spawn_new_piece(&mut self)
        requires
            old(self).wf(),
        ensures
            final(self).wf(),
            old(self).game_over ==> *final(self) == *old(self),
            !old(self).game_over ==> {
                &&& final(self).board@ == old(self).board@
                &&& final(self).score == old(self).score
                &&& final(self).piece_pos == (3i8, 0i8)
                &&& exists|i: int|
                    #![auto]
                    0 <= i < 7 && final(self).current_piece.shape@ == spec_template_shape(i)
                        && final(self).current_piece.color == spec_template_color(i)
                &&& final(self).game_over == !spec_can_place(
                    old(self).board@,
                    final(self).current_piece.shape@,
                    (3i8, 0i8),
                )
            },
    {
        if self.game_over {
            return ;
        }
        let idx = self.rng.next_random() % 7;
        self.current_piece = tetromino_template(idx);
        self.piece_pos = (3, 0);
        if !self.can_place(&self.current_piece.shape, self.piece_pos) {
            self.game_over = true;
        }
        proof {
            assert(0 <= idx < 7 && self.current_piece.shape@ == spec_template_shape(idx as int)
                && self.current_piece.color == spec_template_color(idx as int));
        }
    }

    /// Attempt to move the active piece one row down. If the translation is
    /// blocked, the piece locks instead, the line-clear pass runs and a new
    /// piece spawns. The call reports whether anything happened, which is
    /// exactly while the game is running.
    pub fn move_down(&mut self) -> (r: bool)
        requires
            old(self).wf(),
        ensures
            final(self).wf(),
            r == !old(self).game_over,
            final(self).score >= old(self).score,
            old(self).game_over ==> *final(self) == *old(self),
            !old(self).game_over ==> {
                let down = (old(self).piece_pos.0, (old(self).piece_pos.1 + 1) as i8);
                if spec_can_place(old(self).board@, old(self).current_piece.shape@, down) {
                    *final(self) == Tetris { piece_pos: down, ..*old(self) }
                } else {
                    let locked = spec_lock(
                        old(self).board@,
                        old(self).current_piece.shape@,
                        old(self).piece_pos,
                        old(self).current_piece.color,
                    );
                    let cleared = spec_clear_from(locked, old(self).score, 0);
                    &&& final(self).board@ == cleared.0
                    &&& final(self).score == cleared.1
                    &&& final(self).piece_pos == (3i8, 0i8)
                    &&& exists|i: int|
                        #![auto]
                        0 <= i < 7 && final(self).current_piece.shape@ == spec_template_shape(i)
                            && final(self).current_piece.color == spec_template_color(i)
                    &&& final(self).game_over == !spec_can_place(
                        cleared.0,
                        final(self).current_piece.shape@,
                        (3i8, 0i8),
                    )
                }
            },
    {
        if self.game_over {
            return false;
        }
        if !self.try_move((0, 1)) {
            let ghost locked = spec_lock(
                self.board@,
                self.current_piece.shape@,
                self.piece_pos,
                self.current_piece.color,
            );
            proof {
                lemma_clear_score_monotonic(locked, self.score, 0);
            }
            self.lock_piece();
            self.spawn_new_piece();
        }
        true
    }
}

} // verus!

