//! Behavior of the LED-strip side: serpentine coordinate mapping, pulse
//! encoding, the color table, and the frame buffer.

use tetris_game::{
    board_to_led_index, build_frame, color_to_rgb, create_led_bits, create_led_bits_rgbw, Color,
    Pulse, PulseTimings, RandomGenerator, SignalLevel, Tetris, BOARD_CELLS, BOARD_HEIGHT,
    BOARD_WIDTH,
};

struct FixedRng;

impl RandomGenerator for FixedRng {
    fn next_random(&mut self) -> usize {
        0
    }
}

const TIMINGS: PulseTimings = PulseTimings { t0h: 35, t0l: 90, t1h: 70, t1l: 55, reset: 800 };

fn zero_pulse() -> Pulse {
    Pulse {
        first_level: SignalLevel::High,
        first_ticks: TIMINGS.t0h,
        second_level: SignalLevel::Low,
        second_ticks: TIMINGS.t0l,
    }
}

fn one_pulse() -> Pulse {
    Pulse {
        first_level: SignalLevel::High,
        first_ticks: TIMINGS.t1h,
        second_level: SignalLevel::Low,
        second_ticks: TIMINGS.t1l,
    }
}

fn reset_pulse() -> Pulse {
    Pulse {
        first_level: SignalLevel::Low,
        first_ticks: TIMINGS.reset,
        second_level: SignalLevel::Low,
        second_ticks: 0,
    }
}

#[test]
fn mapper_concrete_values() {
    // Even columns run top to bottom, odd columns bottom to top.
    assert_eq!(board_to_led_index(0, 0, false), 0);
    assert_eq!(board_to_led_index(0, 19, false), 19);
    assert_eq!(board_to_led_index(1, 19, false), 20);
    assert_eq!(board_to_led_index(1, 0, false), 39);
    assert_eq!(board_to_led_index(2, 0, false), 40);
    // The global vertical flip reverses every column.
    assert_eq!(board_to_led_index(0, 0, true), 19);
    assert_eq!(board_to_led_index(0, 19, true), 0);
    assert_eq!(board_to_led_index(1, 0, true), 20);
}

#[test]
fn mapper_is_bijective_unflipped() {
    let mut seen = [false; BOARD_CELLS];
    for x in 0..BOARD_WIDTH {
        for y in 0..BOARD_HEIGHT {
            let idx = board_to_led_index(x, y, false);
            assert!(idx < BOARD_CELLS);
            assert!(!seen[idx]);
            seen[idx] = true;
        }
    }
    assert!(seen.iter().all(|&b| b));
}

#[test]
fn mapper_is_bijective_flipped() {
    let mut seen = [false; BOARD_CELLS];
    for x in 0..BOARD_WIDTH {
        for y in 0..BOARD_HEIGHT {
            let idx = board_to_led_index(x, y, true);
            assert!(idx < BOARD_CELLS);
            assert!(!seen[idx]);
            seen[idx] = true;
        }
    }
    assert!(seen.iter().all(|&b| b));
}

#[test]
fn encoder_black_is_all_zero_bits() {
    let pulses = create_led_bits(0, 0, 0, &TIMINGS);
    assert_eq!(pulses.len(), 25);
    for p in &pulses[..24] {
        assert_eq!(*p, zero_pulse());
    }
    assert_eq!(pulses[24], reset_pulse());
}

#[test]
fn encoder_msb_first_within_byte() {
    // Green is the first transmitted channel; 0x80 sets only its first bit,
    // 0x01 only its last.
    let pulses = create_led_bits(0, 0x80, 0, &TIMINGS);
    assert_eq!(pulses[0], one_pulse());
    for p in &pulses[1..24] {
        assert_eq!(*p, zero_pulse());
    }
    let pulses = create_led_bits(0, 0x01, 0, &TIMINGS);
    for p in &pulses[..7] {
        assert_eq!(*p, zero_pulse());
    }
    assert_eq!(pulses[7], one_pulse());
    for p in &pulses[8..24] {
        assert_eq!(*p, zero_pulse());
    }
}

#[test]
fn encoder_channel_order_is_green_red_blue() {
    let pulses = create_led_bits(0xFF, 0, 0, &TIMINGS);
    // Red occupies the second transmitted byte.
    for p in &pulses[..8] {
        assert_eq!(*p, zero_pulse());
    }
    for p in &pulses[8..16] {
        assert_eq!(*p, one_pulse());
    }
    for p in &pulses[16..24] {
        assert_eq!(*p, zero_pulse());
    }
    assert_eq!(pulses[24], reset_pulse());
}

#[test]
fn encoder_is_deterministic() {
    let a = create_led_bits(13, 200, 77, &TIMINGS);
    let b = create_led_bits(13, 200, 77, &TIMINGS);
    assert_eq!(a, b);
}

#[test]
fn encoder_reset_pulse_closes_every_train() {
    for &(r, g, b) in &[(0u8, 0u8, 0u8), (255, 255, 255), (1, 2, 3)] {
        let pulses = create_led_bits(r, g, b, &TIMINGS);
        assert_eq!(pulses.len(), 25);
        assert_eq!(*pulses.last().unwrap(), reset_pulse());
    }
}

#[test]
fn encoder_rgbw_has_four_channels() {
    let pulses = create_led_bits_rgbw(0, 0, 0, 0xFF, &TIMINGS);
    assert_eq!(pulses.len(), 33);
    for p in &pulses[..24] {
        assert_eq!(*p, zero_pulse());
    }
    for p in &pulses[24..32] {
        assert_eq!(*p, one_pulse());
    }
    assert_eq!(pulses[32], reset_pulse());
}

#[test]
fn color_table_scales_brightness() {
    assert_eq!(color_to_rgb(Color::Red, 12), (12, 0, 0));
    assert_eq!(color_to_rgb(Color::Green, 12), (0, 12, 0));
    assert_eq!(color_to_rgb(Color::Blue, 12), (0, 0, 12));
    assert_eq!(color_to_rgb(Color::Yellow, 12), (6, 6, 0));
    assert_eq!(color_to_rgb(Color::Cyan, 12), (0, 6, 6));
    assert_eq!(color_to_rgb(Color::Magenta, 12), (6, 0, 6));
    assert_eq!(color_to_rgb(Color::White, 12), (4, 4, 4));
}

#[test]
fn frame_shows_piece_and_locked_cells() {
    let mut game = Tetris::new(FixedRng);
    // One locked block in a corner, away from the active piece.
    game.board[19 * BOARD_WIDTH] = Some(Color::Red);
    let frame = build_frame(&game, false, 12);
    assert_eq!(frame.len(), BOARD_CELLS);
    // The locked block.
    assert_eq!(frame[board_to_led_index(0, 19, false)], (12, 0, 0));
    // The active I piece covers (3..7, 1) in its color.
    for x in 3..7 {
        assert_eq!(frame[board_to_led_index(x, 1, false)], (0, 6, 6));
    }
    // Everything else is off.
    for x in 0..BOARD_WIDTH {
        for y in 0..BOARD_HEIGHT {
            let lit = (y == 19 && x == 0) || (y == 1 && (3..7).contains(&x));
            if !lit {
                assert_eq!(frame[board_to_led_index(x, y, false)], (0, 0, 0));
            }
        }
    }
}

#[test]
fn frame_hides_piece_after_game_over() {
    let mut game = Tetris::new(FixedRng);
    game.game_over = true;
    let frame = build_frame(&game, false, 12);
    for slot in &frame {
        assert_eq!(*slot, (0, 0, 0));
    }
}
