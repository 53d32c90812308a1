//! The frame writer: streams a sequence of colors to a byte sink as one
//! properly framed WS2812 transmission.
//!
//! Each color becomes one 12-byte transport write (the encoded green, red
//! and blue channels, in the chip's wire order), and the frame ends with one
//! reset write of zero bytes long enough to hold the bus low for the 300
//! microseconds that latch the colors into the LED chain.

use vstd::prelude::*;
use crate::encoding::encode_byte;
use crate::encoding::spec_encode_byte;
use crate::sink::ByteSink;

verus! {

/// One LED's color: three independent 8-bit channels.
#[derive(Clone, Copy, PartialEq, Eq, Structural, Debug)]
pub struct Rgb8 {
    pub r: u8,
    pub g: u8,
    pub b: u8,
}

impl Rgb8 {
    /// A color from its red, green and blue channel values.
    pub fn new(r: u8, g: u8, b: u8) -> (c: Rgb8)
        ensures
            c == (Rgb8 { r, g, b }),
    {
        Rgb8 { r, g, b }
    }
}

/// Zero bytes in one reset write: 1120 low bit-times. A frame is latched by
/// at least 300 microseconds of continuous low signal — at least
/// `clock_hz * 3 / 10000` bit-times — which 140 zero bytes provide for SPI
/// clocks up to about 3.73 MHz, just under the reference rate. The count is
/// a timing invariant, not an arbitrary constant: it must grow with the
/// clock rate.
pub const RESET_BYTES: usize = 140;

/// The 12-byte buffer transmitted for one color: the encoded green channel,
/// then red, then blue — the chip expects green first on the wire.
pub open spec fn spec_color_frame(c: Rgb8) -> Seq<u8> {
    spec_encode_byte(c.g) + spec_encode_byte(c.r) + spec_encode_byte(c.b)
}

/// The reset frame: `RESET_BYTES` zero bytes.
pub open spec fn spec_reset_frame() -> Seq<u8> {
    Seq::new(RESET_BYTES as nat, |i: int| 0u8)
}

/// The per-color buffers of a color sequence, in transmission order.
pub open spec fn spec_color_writes(colors: Seq<Rgb8>) -> Seq<Seq<u8>> {
    colors.map(|i: int, c: Rgb8| spec_color_frame(c))
}

/// Everything one `write` call asks of the transport: one buffer per color,
/// in sequence order, then the reset frame.
pub open spec fn spec_frame_writes(colors: Seq<Rgb8>) -> Seq<Seq<u8>> {
    spec_color_writes(colors).push(spec_reset_frame())
}

/// The given buffers as transport-log entries, every call accepted.
pub open spec fn spec_accepted(writes: Seq<Seq<u8>>) -> Seq<(Seq<u8>, bool)> {
    writes.map(|i: int, w: Seq<u8>| (w, true))
}

/// The transport-log entries of a frame transmission that failed on its
/// `k`-th call: the frame's first `k` buffers, every call before the last
/// accepted and the last refused.
pub open spec fn spec_failed_prefix(colors: Seq<Rgb8>, k: int) -> Seq<(Seq<u8>, bool)>
    recommends
        1 <= k <= colors.len() + 1,
{
    Seq::new(k as nat, |j: int| (spec_frame_writes(colors)[j], j < k - 1))
}

/// Frame shape: a sequence of `n` colors is transmitted as exactly `n`
/// per-color writes of twelve bytes each, in sequence order, followed by
/// one reset write of `RESET_BYTES` zero bytes, and nothing else.
pub proof fn lemma_frame_shape(colors: Seq<Rgb8>)
    ensures
        spec_frame_writes(colors).len() == colors.len() + 1,
        forall|i: int|
            0 <= i < colors.len() ==> #[trigger] spec_frame_writes(colors)[i]
                == spec_color_frame(colors[i]),
        forall|i: int|
            0 <= i < colors.len() ==> #[trigger] spec_frame_writes(colors)[i].len() == 12,
        spec_frame_writes(colors)[colors.len() as int] == spec_reset_frame(),
        spec_reset_frame().len() == RESET_BYTES,
        forall|j: int| 0 <= j < RESET_BYTES ==> #[trigger] spec_reset_frame()[j] == 0u8,
{
}

/// An empty color sequence still makes exactly one transport write: the
/// reset frame alone, which blanks nothing but latches the (empty) frame.
pub proof fn lemma_empty_frame()
    ensures
        spec_frame_writes(Seq::<Rgb8>::empty()) =~= seq![spec_reset_frame()],
{
}

/// Success reporting: a frame transmitted in full has every one of its
/// calls accepted — no entry of an accepted log carries a refusal.
pub proof fn lemma_accepted_shape(writes: Seq<Seq<u8>>)
    ensures
        spec_accepted(writes).len() == writes.len(),
        forall|j: int|
            0 <= j < writes.len() ==> #[trigger] spec_accepted(writes)[j] == (writes[j], true),
{
}

/// Failure propagation: a frame transmission that fails on its `k`-th call
/// stops there — the log holds exactly the frame's first `k` buffers, the
/// calls before the failing one accepted, the failing one refused, and no
/// call after it.
pub proof fn lemma_failed_prefix_shape(colors: Seq<Rgb8>, k: int)
    requires
        1 <= k <= colors.len() + 1,
    ensures
        spec_failed_prefix(colors, k).len() == k,
        forall|j: int|
            0 <= j < k ==> (#[trigger] spec_failed_prefix(colors, k)[j]).0 == spec_frame_writes(
                colors,
            )[j],
        forall|j: int| 0 <= j < k - 1 ==> (#[trigger] spec_failed_prefix(colors, k)[j]).1 == true,
        spec_failed_prefix(colors, k)[k - 1].1 == false,
{
}

/// Wraps a byte-sink transport to drive a WS2812 LED string. The writer
/// holds no LED state of its own: the `n`-th color transmitted drives the
/// `n`-th LED of the chain.
pub struct Ws2812BlockingWriter<SPI> {
    spi: SPI,
}

impl<SPI: ByteSink> Ws2812BlockingWriter<SPI> {
    /// Every call this writer has made on its transport so far: the buffer
    /// handed over and whether the transport accepted it.
    pub closed spec fn spi_log(&self) -> Seq<(Seq<u8>, bool)> {
        self.spi.log()
    }

    /// A writer over the given transport.
    pub fn new(spi: SPI) -> (w: Self)
        ensures
            w.spi_log() == spi.log(),
    {
        Ws2812BlockingWriter { spi }
    }

    /// Hand the transport back, consuming the writer.
    pub fn release(self) -> (spi: SPI)
        ensures
            spi.log() == self.spi_log(),
    {
        self.spi
    }

    /// Transmit one color's 12-byte frame as one transport call: the green,
    /// red and blue channels, in the chip's wire order, each expanded
    /// through the encoding table. Returns exactly that call's result.
    pub fn write_color(&mut self, color: Rgb8) -> (r: Result<(), SPI::Error>)
        ensures
            final(self).spi_log() == old(self).spi_log().push(
                (spec_color_frame(color), r is Ok),
            ),
    {
        let mut buffer: Vec<u8> = Vec::new();
        push_encoded(&mut buffer, color.g);
        push_encoded(&mut buffer, color.r);
        push_encoded(&mut buffer, color.b);
        proof {
            assert(buffer@ =~= spec_color_frame(color));
        }
        self.spi.write_bytes(buffer.as_slice())
    }

    /// Transmit the reset frame as one transport call: `RESET_BYTES` zero
    /// bytes, enough low signal to latch the colors transmitted before it.
    /// Returns exactly that call's result.
    pub fn flush(&mut self) -> (r: Result<(), SPI::Error>)
        ensures
            final(self).spi_log() == old(self).spi_log().push((spec_reset_frame(), r is Ok)),
    {
        let zeros: [u8; RESET_BYTES] = [0u8; RESET_BYTES];
        proof {
            assert(zeros@ =~= spec_reset_frame());
        }
        self.spi.write_bytes(&zeros)
    }

    /// Transmit a whole frame: one 12-byte write per color, in sequence
    /// order, then one reset write.
    ///
    /// Success is returned exactly when the transport accepted every call:
    /// on success the log grows by the frame's writes, all accepted; on a
    /// transport failure the error is returned at once — the log ends with
    /// the refused call, every call before it accepted, and no further
    /// write is issued, the reset included.
    pub fn write(&mut self, colors: &[Rgb8]) -> (r: Result<(), SPI::Error>)
        ensures
            r is Ok ==> final(self).spi_log() == old(self).spi_log() + spec_accepted(
                spec_frame_writes(colors@),
            ),
            r is Err ==> exists|k: int|
                1 <= k <= colors@.len() + 1 && final(self).spi_log() == old(self).spi_log()
                    + #[trigger] spec_failed_prefix(colors@, k),
    {
        let mut i: usize = 0;
        while i < colors.len()
            invariant
                i <= colors@.len(),
                self.spi_log() == old(self).spi_log() + spec_accepted(
                    spec_color_writes(colors@.take(i as int)),
                ),
            decreases colors@.len() - i,
        {
            let c = colors[i];
            let result = self.write_color(c);
            if let Err(e) = result {
                proof {
                    let k: int = i + 1;
                    assert(spec_failed_prefix(colors@, k) =~= spec_accepted(
                        spec_color_writes(colors@.take(i as int)),
                    ).push((spec_color_frame(c), false)));
                    assert(self.spi_log() =~= old(self).spi_log() + spec_failed_prefix(
                        colors@,
                        k,
                    ));
                    assert(1 <= k <= colors@.len() + 1 && self.spi_log() == old(self).spi_log()
                        + spec_failed_prefix(colors@, k));
                }
                return Err(e);
            }
            proof {
                assert(spec_accepted(spec_color_writes(colors@.take(i + 1))) =~= spec_accepted(
                    spec_color_writes(colors@.take(i as int)),
                ).push((spec_color_frame(c), true)));
                assert(self.spi_log() =~= old(self).spi_log() + spec_accepted(
                    spec_color_writes(colors@.take(i + 1)),
                ));
            }
            i = i + 1;
        }
        proof {
            assert(colors@.take(colors@.len() as int) =~= colors@);
        }
        let result = self.flush();
        if let Err(e) = result {
            proof {
                let k: int = colors@.len() as int + 1;
                assert(spec_failed_prefix(colors@, k) =~= spec_accepted(
                    spec_color_writes(colors@),
                ).push((spec_reset_frame(), false)));
                assert(self.spi_log() =~= old(self).spi_log() + spec_failed_prefix(colors@, k));
                assert(1 <= k <= colors@.len() + 1 && self.spi_log() == old(self).spi_log()
                    + spec_failed_prefix(colors@, k));
            }
            return Err(e);
        }
        proof {
            assert(spec_accepted(spec_frame_writes(colors@)) =~= spec_accepted(
                spec_color_writes(colors@),
            ).push((spec_reset_frame(), true)));
            assert(self.spi_log() =~= old(self).spi_log() + spec_accepted(
                spec_frame_writes(colors@),
            ));
        }
        Ok(())
    }
}

/// Append the four-byte table row for `v` to the working buffer.
fn push_encoded(buf: &mut Vec<u8>, v: u8)
    ensures
        final(buf)@ == old(buf)@ + spec_encode_byte(v),
{
    let row = encode_byte(v);
    buf.push(row[0]);
    buf.push(row[1]);
    buf.push(row[2]);
    buf.push(row[3]);
    proof {
        assert(buf@ =~= old(buf)@ + spec_encode_byte(v));
    }
}

} // verus!
