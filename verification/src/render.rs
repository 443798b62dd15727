//! The render pass: the fixed color table, the frame buffer built from a full
//! board scan plus the active piece, and the bordered text picture of the
//! board with its trailing score line.

use vstd::prelude::*;

use crate::game::cell_index;
use crate::game::Color;
use crate::game::RandomGenerator;
use crate::game::Tetris;
use crate::game::Tetromino;
use crate::mapper::board_to_led_index;
use crate::mapper::spec_led_index;
use crate::BOARD_CELLS;
use crate::BOARD_HEIGHT;
use crate::BOARD_WIDTH;

verus! {

/// The brightness-scaled RGB tuple of one color. The table is total: every
/// variant has a defined tuple.
pub open spec fn spec_color_rgb(c: Color, brightness: u8) -> (u8, u8, u8) {
    match c {
        Color::Red => (brightness, 0u8, 0u8),
        Color::Green => (0u8, brightness, 0u8),
        Color::Blue => (0u8, 0u8, brightness),
        Color::Yellow => ((brightness / 2) as u8, (brightness / 2) as u8, 0u8),
        Color::Cyan => (0u8, (brightness / 2) as u8, (brightness / 2) as u8),
        Color::Magenta => ((brightness / 2) as u8, 0u8, (brightness / 2) as u8),
        Color::White => ((brightness / 3) as u8, (brightness / 3) as u8, (brightness / 3) as u8),
    }
}

/// The RGB tuple shown for a board cell: its color's tuple, or all off for an
/// empty cell.
pub open spec fn spec_cell_rgb(cell: Option<Color>, brightness: u8) -> (u8, u8, u8) {
    match cell {
        Some(c) => spec_color_rgb(c, brightness),
        None => (0u8, 0u8, 0u8),
    }
}

/// Scale one color to the given brightness.
pub fn color_to_rgb(color: Color, brightness: u8) -> (rgb: (u8, u8, u8))
    ensures
        rgb == spec_color_rgb(color, brightness),
{
    match color {
        Color::Red => (brightness, 0, 0),
        Color::Green => (0, brightness, 0),
        Color::Blue => (0, 0, brightness),
        Color::Yellow => (brightness / 2, brightness / 2, 0),
        Color::Cyan => (0, brightness / 2, brightness / 2),
        Color::Magenta => (brightness / 2, 0, brightness / 2),
        Color::White => (brightness / 3, brightness / 3, brightness / 3),
    }
}

/// Whether one of the first `n` offsets of the piece at `pos` lands on the
/// board cell `(x, y)`.
pub open spec fn spec_piece_covers_n(
    t: Tetromino,
    pos: (i8, i8),
    x: int,
    y: int,
    n: int,
) -> bool {
    exists|j: int|
        0 <= j < n && pos.0 + (#[trigger] t.shape@[j]).0 == x && pos.1 + t.shape@[j].1 == y
}

/// Whether the piece at `pos` lands on the board cell `(x, y)`.
pub open spec fn spec_piece_covers(t: Tetromino, pos: (i8, i8), x: int, y: int) -> bool {
    spec_piece_covers_n(t, pos, x, y, 4)
}

/// What the board cell `(x, y)` shows: while the game runs, the active piece
/// wins over the locked grid underneath it.
pub open spec fn spec_display_cell<R: RandomGenerator>(g: Tetris<R>, x: int, y: int) -> Option<
    Color,
> {
    if !g.game_over && spec_piece_covers(g.current_piece, g.piece_pos, x, y) {
        Some(g.current_piece.color)
    } else {
        g.board@[cell_index(x, y)]
    }
}

/// Build one frame: a buffer with one RGB slot per physical LED, rebuilt from
/// scratch — every board cell's displayed color lands on its mapped strip
/// index, and every slot is pinned because the mapping is a bijection.
pub fn build_frame<R: RandomGenerator>(game: &Tetris<R>, flip_y: bool, brightness: u8) -> (frame:
    Vec<(u8, u8, u8)>)
    requires
        game.wf(),
    ensures
        frame@.len() == BOARD_CELLS as int,
        forall|x: int, y: int|
            0 <= x < BOARD_WIDTH as int && 0 <= y < BOARD_HEIGHT as int
                ==> frame@[spec_led_index(x, y, flip_y)] == spec_cell_rgb(
                spec_display_cell(*game, x, y),
                brightness,
            ),
{
    let mut frame: Vec<(u8, u8, u8)> = Vec::new();
    let mut i: usize = 0;
    while i < BOARD_CELLS
        invariant
            i <= BOARD_CELLS,
            frame@.len() == i,
            forall|k: int| 0 <= k < i ==> frame@[k] == (0u8, 0u8, 0u8),
        decreases BOARD_CELLS - i,
    {
        frame.push((0, 0, 0));
        i = i + 1;
    }
    let mut y: usize = 0;
    while y < BOARD_HEIGHT
        invariant
            game.wf(),
            y <= BOARD_HEIGHT,
            frame@.len() == BOARD_CELLS as int,
            forall|xx: int, yy: int|
                0 <= xx < BOARD_WIDTH as int && 0 <= yy < BOARD_HEIGHT as int
                    ==> frame@[spec_led_index(xx, yy, flip_y)] == (if yy < y {
                    spec_cell_rgb(game.board@[cell_index(xx, yy)], brightness)
                } else {
                    (0u8, 0u8, 0u8)
                }),
        decreases BOARD_HEIGHT - y,
    {
        let mut x: usize = 0;
        while x < BOARD_WIDTH
            invariant
                game.wf(),
                y < BOARD_HEIGHT,
                x <= BOARD_WIDTH,
                frame@.len() == BOARD_CELLS as int,
                forall|xx: int, yy: int|
                    0 <= xx < BOARD_WIDTH as int && 0 <= yy < BOARD_HEIGHT as int
                        ==> frame@[spec_led_index(xx, yy, flip_y)] == (if yy < y || (yy == y && xx
                        < x) {
                        spec_cell_rgb(game.board@[cell_index(xx, yy)], brightness)
                    } else {
                        (0u8, 0u8, 0u8)
                    }),
            decreases BOARD_WIDTH - x,
        {
            if let Some(color) = game.board[y * BOARD_WIDTH + x] {
                let led_idx = board_to_led_index(x, y, flip_y);
                let rgb = color_to_rgb(color, brightness);
                frame.set(led_idx, rgb);
            }
            x = x + 1;
        }
        y = y + 1;
    }
    if !game.is_game_over() {
        let mut i: usize = 0;
        while i < 4
            invariant
                game.wf(),
                !game.game_over,
                i <= 4,
                frame@.len() == BOARD_CELLS as int,
                forall|xx: int, yy: int|
                    0 <= xx < BOARD_WIDTH as int && 0 <= yy < BOARD_HEIGHT as int
                        ==> frame@[spec_led_index(xx, yy, flip_y)] == (if spec_piece_covers_n(
                        game.current_piece,
                        game.piece_pos,
                        xx,
                        yy,
                        i as int,
                    ) {
                        spec_color_rgb(game.current_piece.color, brightness)
                    } else {
                        spec_cell_rgb(game.board@[cell_index(xx, yy)], brightness)
                    }),
            decreases 4 - i,
        {
            let (dx, dy) = game.current_piece.shape[i];
            proof {
                assert(0 <= game.piece_pos.0 + game.current_piece.shape@[i as int].0
                    < BOARD_WIDTH as int);
                assert(game.piece_pos.1 + game.current_piece.shape@[i as int].1
                    < BOARD_HEIGHT as int);
            }
            let x = (game.piece_pos.0 as i32 + dx as i32) as usize;
            let y = (game.piece_pos.1 as i32 + dy as i32) as usize;
            if x < BOARD_WIDTH && y < BOARD_HEIGHT {
                let led_idx = board_to_led_index(x, y, flip_y);
                let rgb = color_to_rgb(game.current_piece.color, brightness);
                frame.set(led_idx, rgb);
            }
            i = i + 1;
        }
    }
    frame
}

/// The character of decimal digit `d`.
pub open spec fn spec_digit_char(d: int) -> char {
    if d == 0 {
        '0'
    } else if d == 1 {
        '1'
    } else if d == 2 {
        '2'
    } else if d == 3 {
        '3'
    } else if d == 4 {
        '4'
    } else if d == 5 {
        '5'
    } else if d == 6 {
        '6'
    } else if d == 7 {
        '7'
    } else if d == 8 {
        '8'
    } else {
        '9'
    }
}

/// The decimal digits of `n`, most significant first, without leading zeros
/// (`0` itself is the single digit `0`).
pub open spec fn spec_decimal(n: int) -> Seq<char>
    decreases n,
{
    if n < 10 {
        seq![spec_digit_char(n)]
    } else {
        spec_decimal(n / 10).push(spec_digit_char(n % 10))
    }
}

/// The character a board cell shows in the text picture.
pub open spec fn spec_cell_char<R: RandomGenerator>(g: Tetris<R>, x: int, y: int) -> char {
    if spec_display_cell(g, x, y) is Some {
        '#'
    } else {
        ' '
    }
}

/// One bordered text row of the picture: a wall, the row's cells, a wall and
/// a line break.
pub open spec fn spec_row_chars<R: RandomGenerator>(g: Tetris<R>, y: int) -> Seq<char> {
    seq!['|'] + Seq::new(BOARD_WIDTH as nat, |x: int| spec_cell_char(g, x, y)) + seq!['|', '\n']
}

/// The first `n` bordered text rows of the picture.
pub open spec fn spec_grid_rows<R: RandomGenerator>(g: Tetris<R>, n: int) -> Seq<char>
    decreases n,
{
    if n <= 0 {
        Seq::empty()
    } else {
        spec_grid_rows(g, n - 1) + spec_row_chars(g, n - 1)
    }
}

/// The trailing status line of the picture.
pub open spec fn spec_status_line<R: RandomGenerator>(g: Tetris<R>) -> Seq<char> {
    (if g.game_over {
        "GAME OVER - Score: "@
    } else {
        "Score: "@
    }) + spec_decimal(g.score as int) + "\n"@
}

/// The whole text picture: all rows, then the status line.
pub open spec fn spec_render<R: RandomGenerator>(g: Tetris<R>) -> Seq<char> {
    spec_grid_rows(g, BOARD_HEIGHT as int) + spec_status_line(g)
}

/// The one-character text of decimal digit `d`.
fn digit_str(d: u32) -> (s: &'static str)
    requires
        d < 10,
    ensures
        s@ == seq![spec_digit_char(d as int)],
{
    proof {
        reveal_strlit("0");
        reveal_strlit("1");
        reveal_strlit("2");
        reveal_strlit("3");
        reveal_strlit("4");
        reveal_strlit("5");
        reveal_strlit("6");
        reveal_strlit("7");
        reveal_strlit("8");
        reveal_strlit("9");
    }
    let s = if d == 0 {
        "0"
    } else if d == 1 {
        "1"
    } else if d == 2 {
        "2"
    } else if d == 3 {
        "3"
    } else if d == 4 {
        "4"
    } else if d == 5 {
        "5"
    } else if d == 6 {
        "6"
    } else if d == 7 {
        "7"
    } else if d == 8 {
        "8"
    } else {
        "9"
    };
    proof {
        assert(s@ =~= seq![spec_digit_char(d as int)]);
    }
    s
}

/// Append the decimal digits of `n` to `out`.
fn push_decimal(out: &mut String, n: u32)
    ensures
        final(out)@ == old(out)@ + spec_decimal(n as int),
    decreases n,
{
    if n >= 10 {
        push_decimal(out, n / 10);
    }
    let s = digit_str(n % 10);
    out.append(s);
    proof {
        assert(final(out)@ =~= old(out)@ + spec_decimal(n as int));
    }
}

/// Draw the board and the active piece as a bordered text grid (`#` for an
/// occupied cell, space for an empty one), followed by the status line with
/// the score.
pub fn draw_on_screen<R: RandomGenerator>(tetris: &Tetris<R>) -> (out: String)
    requires
        tetris.wf(),
    ensures
        out@ == spec_render(*tetris),
{
    proof {
        reveal_strlit("|");
        reveal_strlit("|\n");
        reveal_strlit("#");
        reveal_strlit(" ");
        reveal_strlit("\n");
    }
    let mut out = String::new();
    let mut y: usize = 0;
    while y < BOARD_HEIGHT
        invariant
            tetris.wf(),
            y <= BOARD_HEIGHT,
            out@ == spec_grid_rows(*tetris, y as int),
        decreases BOARD_HEIGHT - y,
    {
        let ghost row_start = out@;
        proof {
            reveal_strlit("|");
            reveal_strlit("|\n");
        }
        out.append("|");
        proof {
            assert(out@ =~= row_start + seq!['|']);
        }
        let mut x: usize = 0;
        while x < BOARD_WIDTH
            invariant
                tetris.wf(),
                y < BOARD_HEIGHT,
                x <= BOARD_WIDTH,
                out@ == row_start + seq!['|'] + Seq::new(
                    x as nat,
                    |xx: int| spec_cell_char(*tetris, xx, y as int),
                ),
            decreases BOARD_WIDTH - x,
        {
            proof {
                reveal_strlit("#");
                reveal_strlit(" ");
            }
            let occupied = display_cell_occupied(tetris, x, y);
            if occupied {
                out.append("#");
            } else {
                out.append(" ");
            }
            proof {
                assert(out@ =~= row_start + seq!['|'] + Seq::new(
                    (x + 1) as nat,
                    |xx: int| spec_cell_char(*tetris, xx, y as int),
                ));
            }
            x = x + 1;
        }
        out.append("|\n");
        proof {
            assert(out@ =~= spec_grid_rows(*tetris, y as int + 1));
        }
        y = y + 1;
    }
    if tetris.is_game_over() {
        out.append("GAME OVER - Score: ");
    } else {
        out.append("Score: ");
    }
    push_decimal(&mut out, tetris.score);
    out.append("\n");
    proof {
        assert(out@ =~= spec_render(*tetris));
    }
    out
}

/// Whether the text picture shows cell `(x, y)` as occupied: a locked block,
/// or the active piece over it while the game runs.
fn display_cell_occupied<R: RandomGenerator>(tetris: &Tetris<R>, x: usize, y: usize) -> (r: bool)
    requires
        tetris.wf(),
        x < BOARD_WIDTH,
        y < BOARD_HEIGHT,
    ensures
        r == (spec_display_cell(*tetris, x as int, y as int) is Some),
{
    let mut occupied = tetris.board[y * BOARD_WIDTH + x].is_some();
    if !tetris.game_over {
        let mut i: usize = 0;
        while i < 4
            invariant
                tetris.wf(),
                !tetris.game_over,
                x < BOARD_WIDTH,
                y < BOARD_HEIGHT,
                i <= 4,
                occupied == (tetris.board@[cell_index(x as int, y as int)] is Some
                    || spec_piece_covers_n(
                    tetris.current_piece,
                    tetris.piece_pos,
                    x as int,
                    y as int,
                    i as int,
                )),
            decreases 4 - i,
        {
            let (dx, dy) = tetris.current_piece.shape[i];
            if tetris.piece_pos.0 as i32 + dx as i32 == x as i32 && tetris.piece_pos.1 as i32
                + dy as i32 == y as i32 {
                occupied = true;
            }
            i = i + 1;
        }
    }
    occupied
}

} // verus!
