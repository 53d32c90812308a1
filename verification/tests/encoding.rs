use ws2812_blocking_spi::encoding::bit_4_u32;
use ws2812_blocking_spi::encoding::encode_byte;
use ws2812_blocking_spi::encoding::nibble_16_u32;
use ws2812_blocking_spi::encoding::ws2812_constants;

/// Recover the byte a table row encodes: each row byte carries two protocol
/// bits, one per nibble, distinguished by bit 1 of the nibble.
fn decode_row(row: &[u8; 4]) -> u8 {
    let mut v: u8 = 0;
    for b in row.iter() {
        v = (v << 1) | ((b >> 5) & 1);
        v = (v << 1) | ((b >> 1) & 1);
    }
    v
}

#[test]
fn bit_patterns() {
    assert_eq!(bit_4_u32(true), 0b0111);
    assert_eq!(bit_4_u32(false), 0b0100);
}

#[test]
fn nibble_patterns() {
    assert_eq!(nibble_16_u32(0b0000), 0x4444);
    assert_eq!(nibble_16_u32(0b1111), 0x7777);
    assert_eq!(nibble_16_u32(0b1000), 0x7444);
    assert_eq!(nibble_16_u32(0b0001), 0x4447);
    assert_eq!(nibble_16_u32(0b0110), 0x4774);
}

#[test]
fn known_value_zero() {
    assert_eq!(
        encode_byte(0b0000_0000),
        [0b0100_0100, 0b0100_0100, 0b0100_0100, 0b0100_0100]
    );
}

#[test]
fn known_value_mixed() {
    assert_eq!(
        encode_byte(0b0100_1100),
        [0b0100_0111, 0b0100_0100, 0b0111_0111, 0b0100_0100]
    );
}

#[test]
fn table_has_all_rows() {
    let table = ws2812_constants();
    assert_eq!(table.len(), 256);
    for v in 0..=255u8 {
        assert_eq!(table[v as usize], encode_byte(v));
    }
}

#[test]
fn table_round_trip() {
    let table = ws2812_constants();
    for v in 0..=255u8 {
        assert_eq!(decode_row(&table[v as usize]), v);
    }
}

#[test]
fn table_idle_safe() {
    let table = ws2812_constants();
    for row in table.iter() {
        for b in row.iter() {
            assert_eq!(b & 0x80, 0, "encoded byte {b:#010b} would idle high");
        }
    }
}
