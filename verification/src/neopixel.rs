//! The protocol engine: a channel-order policy that turns a color into the
//! 24 wire bits, and a writer that turns each bit into a pair of calibrated
//! high/low pulse durations on its exclusively owned output line.

use vstd::prelude::*;
use crate::color::Rgb24;
use crate::pin::OutputPin;
use crate::pin::Segment;

verus! {

/// Nanoseconds the line is held high for a "one" pulse.
pub const ONE_HIGH_NS: u64 = 800;

/// Nanoseconds the line is held high for a "zero" pulse.
pub const ZERO_HIGH_NS: u64 = 400;

/// Trailing low nanoseconds added to every pulse; on hardware this slack
/// absorbs the fixed overhead of the pin-drive instructions themselves, so
/// that both pulse shapes occupy the same total period.
pub const TRIM_NS: u64 = 50;

/// Nanoseconds the line is held low to latch the strip at end of frame.
pub const LATCH_NS: u64 = 300000;

/// How long the line is held high for one bit, in nanoseconds.
pub open spec fn high_ns(bit: bool) -> u64 {
    if bit {
        ONE_HIGH_NS
    } else {
        ZERO_HIGH_NS
    }
}

/// How long the line is held low after the high part of one bit, in
/// nanoseconds: the opposite shape's high time plus the trailing trim, so
/// every pulse occupies the same total period.
pub open spec fn low_ns(bit: bool) -> u64 {
    if bit {
        (ZERO_HIGH_NS + TRIM_NS) as u64
    } else {
        (ONE_HIGH_NS + TRIM_NS) as u64
    }
}

/// The two line segments one bit puts on the wire: its high stretch, then
/// its low stretch.
pub open spec fn bit_segments(bit: bool) -> Seq<Segment> {
    seq![
        Segment { high: true, ns: high_ns(bit) },
        Segment { high: false, ns: low_ns(bit) },
    ]
}

/// The segments a whole bit sequence puts on the wire: each bit's pair of
/// segments, in sequence order, with no gap.
pub open spec fn train_segments(bits: Seq<bool>) -> Seq<Segment>
    decreases bits.len(),
{
    if bits.len() == 0 {
        Seq::empty()
    } else {
        bit_segments(bits[0]) + train_segments(bits.drop_first())
    }
}

/// Whether bit `i` of `byte` is set; bit 0 is the least significant.
pub open spec fn bit_of(byte: u8, i: u8) -> bool {
    (byte >> i) & 1 == 1
}

/// The wire bit at position `i` under blue-red-green order: the blue
/// channel's bits 0..8 first, then red's, then green's, each channel least
/// significant bit first.
pub open spec fn brg_bit(color: Rgb24, i: int) -> bool {
    if i < 8 {
        bit_of(color.b, i as u8)
    } else if i < 16 {
        bit_of(color.r, (i - 8) as u8)
    } else {
        bit_of(color.g, (i - 16) as u8)
    }
}

/// The protocol engine. It exclusively owns one output line for its whole
/// lifetime and is parameterized once, at construction, by the channel-order
/// policy `ORDER`; it holds no other state.
pub struct NeoPixelWriter<ORDER> {
    pin: OutputPin,
    order: core::marker::PhantomData<ORDER>,
}

impl<ORDER> NeoPixelWriter<ORDER> {
    /// The recorded history of the owned line: every finished segment,
    /// followed by the still-open stretch at the current level.
    pub closed spec fn history(self) -> Seq<Segment> {
        self.pin.history()
    }

    /// Hold the line ~800ns: on hardware a fixed-count busy-wait calibrated
    /// to the clock; here the calibrated duration itself is the contract.
    fn wait_800ns(&mut self)
        requires
            old(self).pin.spec_elapsed() + 800 <= u64::MAX,
        ensures
            final(self).pin.spec_level() == old(self).pin.spec_level(),
            final(self).pin.spec_elapsed() == old(self).pin.spec_elapsed() + 800,
            final(self).pin.closed_segments() == old(self).pin.closed_segments(),
    {
        self.pin.hold(800);
    }

    /// Hold the line ~400ns; calibrated like `wait_800ns`.
    fn wait_400ns(&mut self)
        requires
            old(self).pin.spec_elapsed() + 400 <= u64::MAX,
        ensures
            final(self).pin.spec_level() == old(self).pin.spec_level(),
            final(self).pin.spec_elapsed() == old(self).pin.spec_elapsed() + 400,
            final(self).pin.closed_segments() == old(self).pin.closed_segments(),
    {
        self.pin.hold(400);
    }

    /// Hold the line ~50ns; the trailing trim that keeps both pulse shapes
    /// on the same total period.
    fn wait_50ns(&mut self)
        requires
            old(self).pin.spec_elapsed() + 50 <= u64::MAX,
        ensures
            final(self).pin.spec_level() == old(self).pin.spec_level(),
            final(self).pin.spec_elapsed() == old(self).pin.spec_elapsed() + 50,
            final(self).pin.closed_segments() == old(self).pin.closed_segments(),
    {
        self.pin.hold(50);
    }

    /// Write a `one` bit to the line: ~800ns high, then ~450ns low.
    fn write_one(&mut self)
        ensures
            final(self).history() == old(self).history() + bit_segments(true),
    {
        self.pin.set_high();
        self.wait_800ns();
        self.pin.set_low();
        self.wait_400ns();
        self.wait_50ns();
        proof {
            assert(self.history() =~= old(self).history() + bit_segments(true));
        }
    }

    /// Write a `zero` bit to the line: ~400ns high, then ~850ns low.
    fn write_zero(&mut self)
        ensures
            final(self).history() == old(self).history() + bit_segments(false),
    {
        self.pin.set_high();
        self.wait_400ns();
        self.pin.set_low();
        self.wait_800ns();
        self.wait_50ns();
        proof {
            assert(self.history() =~= old(self).history() + bit_segments(false));
        }
    }

    /// Emit one pulse per bit, in sequence order, back to back.
    fn write_bytes(&mut self, bits: &Vec<bool>)
        ensures
            final(self).history() == old(self).history() + train_segments(bits@),
    {
        let ghost h0 = self.history();
        let mut i: usize = 0;
        while i < bits.len()
            invariant
                i <= bits@.len(),
                self.history() == h0 + train_segments(bits@.take(i as int)),
            decreases bits@.len() - i,
        {
            if bits[i] {
                self.write_one();
            } else {
                self.write_zero();
            }
            proof {
                lemma_train_snoc(bits@, i as int);
            }
            i = i + 1;
        }
        proof {
            assert(bits@.take(bits@.len() as int) =~= bits@);
        }
    }
}

/// A channel-order policy: the order of the color channels, and of each
/// channel's bits, in the data stream. Each physical LED family gets one
/// stateless implementor.
pub trait PixelOrder: Sized {
    /// The 24 wire bits this order sends for a color, first bit first.
    spec fn bits(color: Rgb24) -> Seq<bool>;

    /// Every order sends exactly 24 bits per color.
    proof fn bits_len(color: Rgb24)
        ensures
            Self::bits(color).len() == 24,
    ;

    /// Send the color's bits, in order, as pulses on the writer's line.
    fn send_color(writer: &mut NeoPixelWriter<Self>, color: Rgb24)
        ensures
            final(writer).history() == old(writer).history() + train_segments(
                Self::bits(color),
            ),
    ;
}

/// BRG order. Used for most WS2812Bs.
pub struct Brg;

impl PixelOrder for Brg {
    /// Blue's bits 0..8, then red's, then green's, each least significant
    /// bit first.
    open spec fn bits(color: Rgb24) -> Seq<bool> {
        Seq::new(24, |i: int| brg_bit(color, i))
    }

    proof fn bits_len(color: Rgb24) {
    }

    fn send_color(writer: &mut NeoPixelWriter<Brg>, color: Rgb24) {
        let mut bits: Vec<bool> = Vec::new();
        let mut i: usize = 0;
        while i < 24
            invariant
                i <= 24,
                bits@.len() == i,
                forall|j: int| 0 <= j < i ==> bits@[j] == brg_bit(color, j),
            decreases 24 - i,
        {
            let byte: u8 = if i < 8 {
                color.b
            } else if i < 16 {
                color.r
            } else {
                color.g
            };
            let sh: u8 = (i % 8) as u8;
            let bit: bool = (byte >> sh) & 1 == 1;
            bits.push(bit);
            i = i + 1;
        }
        proof {
            assert(bits@ =~= Self::bits(color));
        }
        writer.write_bytes(&bits);
    }
}

impl<ORDER: PixelOrder> NeoPixelWriter<ORDER> {
    /// Create a new writer, binding exclusive ownership of one output line.
    pub fn new(pin: OutputPin) -> (w: Self)
        ensures
            w.history() == pin.history(),
    {
        NeoPixelWriter { pin, order: core::marker::PhantomData }
    }

    /// Write a color to the line: its 24 bits under the bound channel order,
    /// each as one pulse, blocking until all 24 pulses are out, with no
    /// buffering and no latch in between. Calls may be chained back to back
    /// to stream consecutive LEDs.
    pub fn write(&mut self, color: Rgb24)
        ensures
            final(self).history() == old(self).history() + train_segments(ORDER::bits(color)),
            train_segments(ORDER::bits(color)).len() == 48,
    {
        proof {
            ORDER::bits_len(color);
            lemma_train_shape(ORDER::bits(color));
        }
        ORDER::send_color(self, color);
    }

    /// Signal the end of the frame: force the line low and hold it low for
    /// ~300us, whatever state the writer was in. This is the sole signal
    /// that makes the chain render its received colors.
    pub fn wait(&mut self)
        ensures
            final(self).history() == old(self).history().push(
                (Segment { high: false, ns: LATCH_NS }),
            ),
            final(self).history().last().high == false,
            final(self).history().last().ns >= 300000,
    {
        self.pin.set_low();
        self.pin.hold(LATCH_NS);
        proof {
            assert(self.history() =~= old(self).history().push(
                (Segment { high: false, ns: LATCH_NS }),
            ));
        }
    }

    /// Borrow the owned line, to inspect what was driven onto it.
    pub fn pin(&self) -> (p: &OutputPin)
        ensures
            p.history() == self.history(),
    {
        &self.pin
    }
}

/// Appending bit sequences appends their trains: the stream of two bit
/// sequences sent back to back is the two streams back to back.
pub proof fn lemma_train_append(a: Seq<bool>, b: Seq<bool>)
    ensures
        train_segments(a + b) == train_segments(a) + train_segments(b),
    decreases a.len(),
{
    if a.len() == 0 {
        assert(a + b =~= b);
        assert(train_segments(a) + train_segments(b) =~= train_segments(b));
    } else {
        assert((a + b).drop_first() =~= a.drop_first() + b);
        lemma_train_append(a.drop_first(), b);
        assert(bit_segments(a[0]) + (train_segments(a.drop_first()) + train_segments(b)) =~= (
        bit_segments(a[0]) + train_segments(a.drop_first())) + train_segments(b));
    }
}

/// One more bit extends the train by that bit's two segments.
proof fn lemma_train_snoc(bits: Seq<bool>, i: int)
    requires
        0 <= i < bits.len(),
    ensures
        train_segments(bits.take(i + 1)) == train_segments(bits.take(i)) + bit_segments(bits[i]),
{
    assert(bits.take(i + 1) =~= bits.take(i) + seq![bits[i]]);
    lemma_train_append(bits.take(i), seq![bits[i]]);
    assert(seq![bits[i]].drop_first() =~= Seq::<bool>::empty());
    assert(train_segments(seq![bits[i]]) == bit_segments(bits[i]) + train_segments(
        Seq::<bool>::empty(),
    ));
    assert(bit_segments(bits[i]) + Seq::<Segment>::empty() =~= bit_segments(bits[i]));
}

/// The exact shape of a bit sequence's train: two segments per bit; segment
/// 2i is bit i's high stretch and segment 2i+1 its low stretch.
pub proof fn lemma_train_shape(bits: Seq<bool>)
    ensures
        train_segments(bits).len() == 2 * bits.len(),
        forall|j: int|
            0 <= j < 2 * bits.len() ==> #[trigger] train_segments(bits)[j] == (if j % 2 == 0 {
                Segment { high: true, ns: high_ns(bits[j / 2]) }
            } else {
                Segment { high: false, ns: low_ns(bits[j / 2]) }
            }),
    decreases bits.len(),
{
    if bits.len() > 0 {
        lemma_train_shape(bits.drop_first());
        assert forall|j: int| 0 <= j < 2 * bits.len() implies #[trigger] train_segments(bits)[j]
            == (if j % 2 == 0 {
            Segment { high: true, ns: high_ns(bits[j / 2]) }
        } else {
            Segment { high: false, ns: low_ns(bits[j / 2]) }
        }) by {
            if j >= 2 {
                assert(train_segments(bits)[j] == train_segments(bits.drop_first())[j - 2]);
                assert(bits.drop_first()[(j - 2) / 2] == bits[j / 2]);
            }
        }
    }
}

/// Wire bit `i` of the blue-red-green order is blue's bit `i` for `i` below
/// 8, red's bit `i - 8` for `i` in 8..16, and green's bit `i - 16` for `i`
/// in 16..24.
pub proof fn lemma_brg_bit_layout(color: Rgb24, i: int)
    requires
        0 <= i < 24,
    ensures
        0 <= i < 8 ==> Brg::bits(color)[i] == bit_of(color.b, i as u8),
        8 <= i < 16 ==> Brg::bits(color)[i] == bit_of(color.r, (i - 8) as u8),
        16 <= i < 24 ==> Brg::bits(color)[i] == bit_of(color.g, (i - 16) as u8),
{
}

/// A "one" pulse is ~800ns high then ~450ns low; a "zero" pulse is ~400ns
/// high then ~850ns low; and both shapes occupy the same total period of
/// ~1250ns, as the wire protocol's tolerance window requires.
pub proof fn lemma_pulse_timing()
    ensures
        bit_segments(true) == seq![
            (Segment { high: true, ns: 800 }),
            (Segment { high: false, ns: 450 }),
        ],
        bit_segments(false) == seq![
            (Segment { high: true, ns: 400 }),
            (Segment { high: false, ns: 850 }),
        ],
        forall|bit: bool| high_ns(bit) + low_ns(bit) == 1250,
{
    assert(bit_segments(true) =~= seq![
        (Segment { high: true, ns: 800 }),
        (Segment { high: false, ns: 450 }),
    ]);
    assert(bit_segments(false) =~= seq![
        (Segment { high: true, ns: 400 }),
        (Segment { high: false, ns: 850 }),
    ]);
}

/// The bits of a whole frame: each color's bits under `ORDER`, in writing
/// order, back to back.
pub open spec fn frame_bits<ORDER: PixelOrder>(colors: Seq<Rgb24>) -> Seq<bool>
    decreases colors.len(),
{
    if colors.len() == 0 {
        Seq::empty()
    } else {
        ORDER::bits(colors[0]) + frame_bits::<ORDER>(colors.drop_first())
    }
}

/// Consecutive writes with no latch between them put one continuous train on
/// the wire: exactly 24 bits per color, two segments per bit, every segment
/// a pulse segment of at most 850ns — far below the ~300us low that latches
/// the chain, so the stream carries no latch gap.
pub proof fn lemma_frame_continuous<ORDER: PixelOrder>(colors: Seq<Rgb24>)
    ensures
        frame_bits::<ORDER>(colors).len() == 24 * colors.len(),
        train_segments(frame_bits::<ORDER>(colors)).len() == 48 * colors.len(),
        forall|j: int|
            0 <= j < 48 * colors.len() ==> #[trigger] train_segments(
                frame_bits::<ORDER>(colors),
            )[j].ns <= 850,
        forall|j: int|
            0 <= j < 48 * colors.len() ==> #[trigger] train_segments(
                frame_bits::<ORDER>(colors),
            )[j].high == (j % 2 == 0),
    decreases colors.len(),
{
    if colors.len() == 0 {
    } else {
        ORDER::bits_len(colors[0]);
        lemma_frame_continuous::<ORDER>(colors.drop_first());
    }
    lemma_train_shape(frame_bits::<ORDER>(colors));
}

} // verus!
