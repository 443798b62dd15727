//! A falling-block puzzle game whose board is rendered onto an addressable
//! LED strip: the game engine (board, piece geometry, placement rules,
//! locking, line clears, game over), the serpentine coordinate mapper from
//! board cells to physical LED indices, and the pulse encoder that turns a
//! color into the timed high/low pulses of the strip's single-wire protocol.

use vstd::prelude::*;

pub mod encoder;
pub mod game;
pub mod mapper;
pub mod render;

pub use encoder::create_led_bits;
pub use encoder::create_led_bits_rgbw;
pub use encoder::encode_channels;
pub use encoder::Pulse;
pub use encoder::PulseTimings;
pub use encoder::SignalLevel;
pub use game::tetromino_template;
pub use game::Color;
pub use game::RandomGenerator;
pub use game::Tetris;
pub use game::Tetromino;
pub use mapper::board_to_led_index;
pub use render::build_frame;
pub use render::color_to_rgb;
pub use render::draw_on_screen;

verus! {

/// Number of columns of the board.
pub const BOARD_WIDTH: usize = 10;

/// Number of rows of the board.
pub const BOARD_HEIGHT: usize = 20;

/// Total number of cells of the board, one physical LED per cell.
pub const BOARD_CELLS: usize = 200;

} // verus!
