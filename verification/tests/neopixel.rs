use ws2812::color::Rgb24;
use ws2812::neopixel::Brg;
use ws2812::neopixel::NeoPixelWriter;
use ws2812::pin::OutputPin;
use ws2812::pin::Segment;

/// The 24 wire bits the blue-red-green order sends: blue's bits 0..8, then
/// red's, then green's, each channel least significant bit first.
fn expected_brg_bits(r: u8, g: u8, b: u8) -> Vec<bool> {
    let mut bits: Vec<bool> = Vec::new();
    for i in 0..8 {
        bits.push((b >> i) & 1 == 1);
    }
    for i in 0..8 {
        bits.push((r >> i) & 1 == 1);
    }
    for i in 0..8 {
        bits.push((g >> i) & 1 == 1);
    }
    bits
}

/// Everything recorded on the writer's line: the finished segments plus the
/// still-open stretch at the current level, as (high, nanoseconds) pairs.
fn full_history(w: &NeoPixelWriter<Brg>) -> Vec<(bool, u64)> {
    let pin = w.pin();
    let mut h: Vec<(bool, u64)> = pin.segments().iter().map(|s| (s.high, s.ns)).collect();
    h.push((pin.level(), pin.elapsed_ns()));
    h
}

/// The (high_ns, low_ns) pulse pairs of a history, skipping the stretch that
/// was open before the first pulse. Panics if the tail is not alternating
/// high/low pairs.
fn pulses(history: &[(bool, u64)]) -> Vec<(u64, u64)> {
    assert!(history.len() % 2 == 1);
    let mut out: Vec<(u64, u64)> = Vec::new();
    for pair in history[1..].chunks(2) {
        let (high, h_ns) = pair[0];
        let (low, l_ns) = pair[1];
        assert!(high);
        assert!(!low);
        out.push((h_ns, l_ns));
    }
    out
}

fn written(colors: &[Rgb24]) -> NeoPixelWriter<Brg> {
    let mut w: NeoPixelWriter<Brg> = NeoPixelWriter::new(OutputPin::new());
    for c in colors {
        w.write(*c);
    }
    w
}

#[test]
fn rgb24_new_holds_channels() {
    let c = Rgb24::new(1, 2, 3);
    assert_eq!(c.r, 1);
    assert_eq!(c.g, 2);
    assert_eq!(c.b, 3);
    assert_eq!(c, Rgb24::new(1, 2, 3));
    assert_ne!(c, Rgb24::new(1, 2, 4));
}

#[test]
fn pin_records_what_is_driven() {
    let mut pin = OutputPin::new();
    assert!(!pin.level());
    assert_eq!(pin.elapsed_ns(), 0);
    assert!(pin.segments().is_empty());
    pin.set_high();
    pin.hold(5);
    pin.set_low();
    pin.hold(7);
    assert_eq!(
        pin.segments().as_slice(),
        &[Segment { high: false, ns: 0 }, Segment { high: true, ns: 5 }]
    );
    assert!(!pin.level());
    assert_eq!(pin.elapsed_ns(), 7);
}

#[test]
fn write_emits_exactly_24_pulses() {
    for c in [Rgb24::new(0, 0, 0), Rgb24::new(255, 255, 255), Rgb24::new(17, 170, 99)] {
        let w = written(&[c]);
        let h = full_history(&w);
        // the stretch open before the write, then 24 high/low pairs
        assert_eq!(h.len(), 1 + 48);
        assert_eq!(h[0], (false, 0));
        assert_eq!(pulses(&h).len(), 24);
    }
}

#[test]
fn brg_sends_blue_then_red_then_green_lsb_first() {
    let (r, g, b) = (0xA5, 0x3C, 0x5A);
    let w = written(&[Rgb24::new(r, g, b)]);
    let got = pulses(&full_history(&w));
    let bits = expected_brg_bits(r, g, b);
    assert_eq!(got.len(), 24);
    for i in 0..24 {
        let expected = if bits[i] { (800, 450) } else { (400, 850) };
        assert_eq!(got[i], expected, "pulse {}", i);
    }
}

#[test]
fn black_is_all_zero_bits() {
    let w = written(&[Rgb24::new(0, 0, 0)]);
    for (i, p) in pulses(&full_history(&w)).iter().enumerate() {
        assert_eq!(*p, (400, 850), "pulse {}", i);
    }
}

#[test]
fn white_is_all_one_bits() {
    let w = written(&[Rgb24::new(255, 255, 255)]);
    for (i, p) in pulses(&full_history(&w)).iter().enumerate() {
        assert_eq!(*p, (800, 450), "pulse {}", i);
    }
}

#[test]
fn pure_red_fills_only_the_middle_eight() {
    let w = written(&[Rgb24::new(255, 0, 0)]);
    let got = pulses(&full_history(&w));
    for i in 0..24 {
        let expected = if (8..16).contains(&i) { (800, 450) } else { (400, 850) };
        assert_eq!(got[i], expected, "pulse {}", i);
    }
}

#[test]
fn both_pulse_shapes_share_one_period() {
    let w = written(&[Rgb24::new(0x0F, 0, 0)]);
    let got = pulses(&full_history(&w));
    for (i, (h_ns, l_ns)) in got.iter().enumerate() {
        assert!(*h_ns == 800 || *h_ns == 400, "pulse {}", i);
        assert_eq!(*l_ns, if *h_ns == 800 { 450 } else { 850 }, "pulse {}", i);
        assert_eq!(h_ns + l_ns, 1250, "pulse {}", i);
    }
    // the color has both bit values, so both shapes were exercised
    assert!(got.iter().any(|p| p.0 == 800));
    assert!(got.iter().any(|p| p.0 == 400));
}

#[test]
fn end_frame_holds_the_line_low_300us() {
    // straight after construction
    let mut w: NeoPixelWriter<Brg> = NeoPixelWriter::new(OutputPin::new());
    w.wait();
    assert!(!w.pin().level());
    assert_eq!(w.pin().elapsed_ns(), 300_000);

    // after a frame of writes
    let mut w = written(&[Rgb24::new(3, 2, 1), Rgb24::new(9, 8, 7)]);
    w.wait();
    assert!(!w.pin().level());
    assert_eq!(w.pin().elapsed_ns(), 300_000);

    // and again, whatever came before
    w.wait();
    assert!(!w.pin().level());
    assert_eq!(w.pin().elapsed_ns(), 300_000);
}

#[test]
fn chained_writes_form_one_continuous_stream() {
    let colors = [Rgb24::new(255, 0, 0), Rgb24::new(0, 255, 0), Rgb24::new(0, 0, 255)];
    let w = written(&colors);
    let h = full_history(&w);
    let got = pulses(&h);
    // exactly 24 * N pulses, back to back
    assert_eq!(got.len(), 24 * colors.len());
    // no stretch anywhere in the stream is remotely long enough to latch
    for (i, (_, ns)) in h[1..].iter().enumerate() {
        assert!(*ns <= 850, "stretch {}", i);
    }
    // and the stream is the three colors' pulse trains in order
    let mut bits: Vec<bool> = Vec::new();
    for c in &colors {
        bits.extend(expected_brg_bits(c.r, c.g, c.b));
    }
    for i in 0..got.len() {
        let expected = if bits[i] { (800, 450) } else { (400, 850) };
        assert_eq!(got[i], expected, "pulse {}", i);
    }
}

#[test]
fn new_writer_keeps_what_the_line_already_recorded() {
    let mut pin = OutputPin::new();
    pin.set_high();
    pin.hold(7);
    let w: NeoPixelWriter<Brg> = NeoPixelWriter::new(pin);
    assert_eq!(w.pin().segments().as_slice(), &[Segment { high: false, ns: 0 }]);
    assert!(w.pin().level());
    assert_eq!(w.pin().elapsed_ns(), 7);
}
