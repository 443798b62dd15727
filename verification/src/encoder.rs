//! The pulse encoder: a color tuple becomes the exact ordered sequence of
//! timed high/low pulses of the strip's single-wire protocol — for every
//! channel byte in transmission order, one pulse pair per bit from the most
//! significant bit down, closed by one reset/latch pulse.

use vstd::prelude::*;

verus! {

/// The two logic levels of the data line.
#[derive(Clone, Copy, PartialEq, Eq, Structural, Debug)]
pub enum SignalLevel {
    High,
    Low,
}

/// One protocol pulse: the line is held at `first_level` for `first_ticks`
/// time units, then at `second_level` for `second_ticks`.
#[derive(Clone, Copy, PartialEq, Eq, Structural, Debug)]
pub struct Pulse {
    pub first_level: SignalLevel,
    pub first_ticks: u16,
    pub second_level: SignalLevel,
    pub second_ticks: u16,
}

/// The strip-variant timing constants: high/low durations of a zero bit and
/// of a one bit, and the minimum low time of the closing reset/latch pulse.
#[derive(Clone, Copy, PartialEq, Eq, Structural, Debug)]
pub struct PulseTimings {
    pub t0h: u16,
    pub t0l: u16,
    pub t1h: u16,
    pub t1l: u16,
    pub reset: u16,
}

/// The pulse pair of a zero bit.
pub open spec fn zero_pulse(t: PulseTimings) -> Pulse {
    Pulse {
        first_level: SignalLevel::High,
        first_ticks: t.t0h,
        second_level: SignalLevel::Low,
        second_ticks: t.t0l,
    }
}

/// The pulse pair of a one bit.
pub open spec fn one_pulse(t: PulseTimings) -> Pulse {
    Pulse {
        first_level: SignalLevel::High,
        first_ticks: t.t1h,
        second_level: SignalLevel::Low,
        second_ticks: t.t1l,
    }
}

/// The closing reset/latch pulse: the line held low.
pub open spec fn reset_pulse(t: PulseTimings) -> Pulse {
    Pulse {
        first_level: SignalLevel::Low,
        first_ticks: t.reset,
        second_level: SignalLevel::Low,
        second_ticks: 0,
    }
}

/// Bit `k` of `byte`, with bit 7 the most significant.
pub open spec fn spec_bit(byte: u8, k: int) -> bool {
    byte & (1u8 << k) != 0
}

/// The full encoding of channel bytes `channels` under timings `t`: for each
/// byte, its eight bits from most significant to least significant, one pulse
/// pair each, then the reset/latch pulse. The length is always
/// `8 * channels.len() + 1`.
pub open spec fn spec_encode(channels: Seq<u8>, t: PulseTimings) -> Seq<Pulse> {
    Seq::new(
        channels.len() * 8 + 1,
        |i: int|
            if i == channels.len() * 8 {
                reset_pulse(t)
            } else if spec_bit(channels[i / 8], 7 - (i % 8)) {
                one_pulse(t)
            } else {
                zero_pulse(t)
            },
    )
}

/// Encode any number of channel bytes, in the order given, into the protocol
/// pulse train.
pub fn encode_channels(channels: &Vec<u8>, t: &PulseTimings) -> (pulses: Vec<Pulse>)
    requires
        channels@.len() * 8 + 1 <= usize::MAX,
    ensures
        pulses@ == spec_encode(channels@, *t),
{
    let mut pulses: Vec<Pulse> = Vec::new();
    let n = channels.len();
    let mut c: usize = 0;
    while c < n
        invariant
            c <= n,
            n == channels@.len(),
            n * 8 + 1 <= usize::MAX,
            pulses@.len() == c * 8,
            forall|k: int|
                0 <= k < c * 8 ==> pulses@[k] == (if spec_bit(channels@[k / 8], 7 - (k % 8)) {
                    one_pulse(*t)
                } else {
                    zero_pulse(*t)
                }),
        decreases n - c,
    {
        let byte = channels[c];
        let mut j: usize = 0;
        while j < 8
            invariant
                c < n,
                n == channels@.len(),
                n * 8 + 1 <= usize::MAX,
                j <= 8,
                byte == channels@[c as int],
                pulses@.len() == c * 8 + j,
                forall|k: int|
                    0 <= k < c * 8 + j ==> pulses@[k] == (if spec_bit(
                        channels@[k / 8],
                        7 - (k % 8),
                    ) {
                        one_pulse(*t)
                    } else {
                        zero_pulse(*t)
                    }),
            decreases 8 - j,
        {
            let bit: usize = 7 - j;
            let one = byte & (1u8 << bit) != 0;
            proof {
                assert((c * 8 + j) / 8 == c && (c * 8 + j) % 8 == j) by (nonlinear_arith)
                    requires
                        0 <= j < 8,
                        c >= 0,
                ;
            }
            if one {
                pulses.push(
                    Pulse {
                        first_level: SignalLevel::High,
                        first_ticks: t.t1h,
                        second_level: SignalLevel::Low,
                        second_ticks: t.t1l,
                    },
                );
            } else {
                pulses.push(
                    Pulse {
                        first_level: SignalLevel::High,
                        first_ticks: t.t0h,
                        second_level: SignalLevel::Low,
                        second_ticks: t.t0l,
                    },
                );
            }
            j = j + 1;
        }
        c = c + 1;
    }
    pulses.push(
        Pulse {
            first_level: SignalLevel::Low,
            first_ticks: t.reset,
            second_level: SignalLevel::Low,
            second_ticks: 0,
        },
    );
    proof {
        assert(pulses@ =~= spec_encode(channels@, *t));
    }
    pulses
}

/// Encode one RGB LED in the strip protocol's green, red, blue transmission
/// order: 25 pulses, the last one the reset/latch pulse.
pub fn create_led_bits(r: u8, g: u8, b: u8, t: &PulseTimings) -> (pulses: Vec<Pulse>)
    ensures
        pulses@ == spec_encode(seq![g, r, b], *t),
        pulses@.len() == 25,
{
    let mut channels: Vec<u8> = Vec::new();
    channels.push(g);
    channels.push(r);
    channels.push(b);
    proof {
        assert(channels@ =~= seq![g, r, b]);
    }
    encode_channels(&channels, t)
}

/// Encode one RGBW LED in the strip protocol's green, red, blue, white
/// transmission order: 33 pulses, the last one the reset/latch pulse.
pub fn create_led_bits_rgbw(r: u8, g: u8, b: u8, w: u8, t: &PulseTimings) -> (pulses: Vec<
    Pulse,
>)
    ensures
        pulses@ == spec_encode(seq![g, r, b, w], *t),
        pulses@.len() == 33,
{
    let mut channels: Vec<u8> = Vec::new();
    channels.push(g);
    channels.push(r);
    channels.push(b);
    channels.push(w);
    proof {
        assert(channels@ =~= seq![g, r, b, w]);
    }
    encode_channels(&channels, t)
}

/// Law: the encoding is a function of the channel bytes and the timing
/// constants alone — any two pulse trains produced for the same inputs are
/// identical.
pub proof fn lemma_encode_deterministic(
    channels: Seq<u8>,
    t: PulseTimings,
    p1: Seq<Pulse>,
    p2: Seq<Pulse>,
)
    requires
        p1 == spec_encode(channels, t),
        p2 == spec_encode(channels, t),
    ensures
        p1 == p2,
{
}

/// Law: whatever the color, the pulse train has exactly `8 * channels + 1`
/// entries and closes with the fixed reset/latch pulse.
pub proof fn lemma_encode_frame(channels: Seq<u8>, t: PulseTimings)
    ensures
        spec_encode(channels, t).len() == channels.len() * 8 + 1,
        spec_encode(channels, t).last() == reset_pulse(t),
{
}

} // verus!
