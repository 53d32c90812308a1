//! The WS2812 SPI encoding table.
//!
//! Each 8-bit color value is represented on the bus by four SPI bytes. Every
//! protocol bit of the value becomes one 4-bit SPI nibble: `0111` for a
//! logical one (long high pulse) and `0100` for a logical zero (short high
//! pulse). The leading nibble bit is forced low in both patterns so that the
//! bus idles low between transmissions: on some platforms the SPI idle level
//! equals the most significant bit of the last byte sent, and an idle-high
//! line would corrupt the next frame.

use vstd::prelude::*;

verus! {

/// SPI nibble pattern for one protocol bit: `0111` encodes a one, `0100`
/// encodes a zero. Only the low four bits are meaningful.
pub open spec fn spec_bit_pattern(bit: bool) -> u32 {
    if bit {
        0b0111u32
    } else {
        0b0100u32
    }
}

/// 16-bit SPI pattern for a 4-bit nibble: the patterns of its four bits,
/// most significant bit first.
pub open spec fn spec_nibble_pattern(nibble: u8) -> u32 {
    (spec_bit_pattern(nibble & 0b1000 != 0) << 12u32)
        | (spec_bit_pattern(nibble & 0b0100 != 0) << 8u32)
        | (spec_bit_pattern(nibble & 0b0010 != 0) << 4u32)
        | spec_bit_pattern(nibble & 0b0001 != 0)
}

/// 32-bit SPI waveform of a whole byte: the high nibble's pattern, then the
/// low nibble's.
pub open spec fn spec_waveform(v: u8) -> u32 {
    (spec_nibble_pattern((v >> 4u8) & 0x0F) << 16u32) | spec_nibble_pattern(v & 0x0F)
}

/// The four SPI bytes that encode the byte `v`, most significant byte of the
/// waveform first: one row of the encoding table.
pub open spec fn spec_encode_byte(v: u8) -> Seq<u8> {
    seq![
        ((spec_waveform(v) >> 24u32) & 0xFF) as u8,
        ((spec_waveform(v) >> 16u32) & 0xFF) as u8,
        ((spec_waveform(v) >> 8u32) & 0xFF) as u8,
        (spec_waveform(v) & 0xFF) as u8,
    ]
}

/// The two protocol bits carried by one encoded SPI byte, as a value in
/// `0..4`: bit 1 of each nibble distinguishes the one pattern `0111` from
/// the zero pattern `0100`.
pub open spec fn spec_decode_pair(b: u8) -> u8 {
    (((b >> 5u8) & 1) << 1u8) | ((b >> 1u8) & 1)
}

/// Recover a byte from the 32-bit waveform that encodes it.
pub open spec fn spec_decode_waveform(w: u32) -> u8 {
    (((spec_decode_pair(((w >> 24u32) & 0xFF) as u8) as u32) << 6u32)
        | ((spec_decode_pair(((w >> 16u32) & 0xFF) as u8) as u32) << 4u32)
        | ((spec_decode_pair(((w >> 8u32) & 0xFF) as u8) as u32) << 2u32)
        | (spec_decode_pair((w & 0xFF) as u8) as u32)) as u8
}

/// Recover the original byte from a four-byte table row, reading each row
/// byte's two encoded bits, most significant first.
pub open spec fn spec_decode_row(row: Seq<u8>) -> u8
    recommends
        row.len() == 4,
{
    (((spec_decode_pair(row[0]) as u32) << 6u32)
        | ((spec_decode_pair(row[1]) as u32) << 4u32)
        | ((spec_decode_pair(row[2]) as u32) << 2u32)
        | (spec_decode_pair(row[3]) as u32)) as u8
}

/// Every byte value round-trips through the table: decoding the four-byte
/// row for `v` yields `v` again, and the row always has the configured
/// width of four bytes.
pub proof fn lemma_encode_round_trip(v: u8)
    ensures
        spec_encode_byte(v).len() == 4,
        spec_decode_row(spec_encode_byte(v)) == v,
{
    assert(spec_decode_waveform(spec_waveform(v)) == v) by (bit_vector);
    assert(spec_decode_row(spec_encode_byte(v)) == spec_decode_waveform(spec_waveform(v)));
}

/// Idle safety: no encoded byte ever has its most significant bit set, so
/// the bus line is never left high between transmissions.
pub proof fn lemma_encode_idle_safe(v: u8)
    ensures
        forall|i: int| 0 <= i < 4 ==> #[trigger] spec_encode_byte(v)[i] < 0x80,
{
    assert(((spec_waveform(v) >> 24u32) & 0xFF) < 0x80 && ((spec_waveform(v) >> 16u32) & 0xFF)
        < 0x80 && ((spec_waveform(v) >> 8u32) & 0xFF) < 0x80 && (spec_waveform(v) & 0xFF)
        < 0x80) by (bit_vector);
}

/// SPI nibble pattern for one protocol bit. The top bit of the nibble is
/// kept low regardless of the bit's polarity, so the bus idles low after
/// the byte holding this nibble has been clocked out.
pub fn bit_4_u32(v: bool) -> (r: u32)
    ensures
        r == spec_bit_pattern(v),
{
    if v {
        0b0111u32
    } else {
        0b0100u32
    }
}

/// The full 16-bit SPI pattern for a 4-bit nibble value, most significant
/// source bit first.
pub fn nibble_16_u32(nibble: u8) -> (r: u32)
    ensures
        r == spec_nibble_pattern(nibble),
{
    (bit_4_u32((nibble & 0b1000) != 0) << 12u32)
        | (bit_4_u32((nibble & 0b0100) != 0) << 8u32)
        | (bit_4_u32((nibble & 0b0010) != 0) << 4u32)
        | bit_4_u32((nibble & 0b0001) != 0)
}

/// One row of the encoding table: the four SPI bytes whose waveform
/// represents the byte `v` on the bus.
pub fn encode_byte(v: u8) -> (r: [u8; 4])
    ensures
        r@ == spec_encode_byte(v),
{
    let data: u32 = (nibble_16_u32((v >> 4u8) & 0x0F) << 16u32) | nibble_16_u32(v & 0x0F);
    proof {
        assert(((data >> 24u32) & 0xFF) < 256 && ((data >> 16u32) & 0xFF) < 256 && ((data
            >> 8u32) & 0xFF) < 256 && (data & 0xFF) < 256) by (bit_vector);
    }
    let r: [u8; 4] = [
        ((data >> 24u32) & 0xFF) as u8,
        ((data >> 16u32) & 0xFF) as u8,
        ((data >> 8u32) & 0xFF) as u8,
        (data & 0xFF) as u8,
    ];
    assert(r@ =~= spec_encode_byte(v));
    r
}

/// Materialize the whole encoding table: row `v` holds the four SPI bytes
/// for byte value `v`, for every `v` in `0..256`.
pub fn ws2812_constants() -> (t: Vec<[u8; 4]>)
    ensures
        t@.len() == 256,
        forall|v: int| 0 <= v < 256 ==> (#[trigger] t@[v])@ == spec_encode_byte(v as u8),
{
    let mut t: Vec<[u8; 4]> = Vec::new();
    let mut v: usize = 0;
    while v < 256
        invariant
            v <= 256,
            t@.len() == v,
            forall|i: int| 0 <= i < v ==> (#[trigger] t@[i])@ == spec_encode_byte(i as u8),
        decreases 256 - v,
    {
        t.push(encode_byte(v as u8));
        v = v + 1;
    }
    t
}

} // verus!
