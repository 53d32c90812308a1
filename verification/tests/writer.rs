use ws2812_blocking_spi::encoding::encode_byte;
use ws2812_blocking_spi::sink::RecordingSink;
use ws2812_blocking_spi::sink::SinkError;
use ws2812_blocking_spi::writer::Rgb8;
use ws2812_blocking_spi::writer::Ws2812BlockingWriter;
use ws2812_blocking_spi::writer::RESET_BYTES;

/// The 12 bytes one color puts on the wire: green, then red, then blue.
fn color_frame(c: Rgb8) -> Vec<u8> {
    let mut frame = Vec::new();
    frame.extend_from_slice(&encode_byte(c.g));
    frame.extend_from_slice(&encode_byte(c.r));
    frame.extend_from_slice(&encode_byte(c.b));
    frame
}

#[test]
fn frame_layout_three_colors() {
    let colors = [
        Rgb8::new(0xFF, 0x00, 0x00),
        Rgb8::new(0x00, 0xFF, 0x00),
        Rgb8::new(0x12, 0x34, 0x56),
    ];
    let mut writer = Ws2812BlockingWriter::new(RecordingSink::new());
    assert_eq!(writer.write(&colors), Ok(()));
    let sink = writer.release();
    assert_eq!(sink.writes.len(), 4);
    for (i, c) in colors.iter().enumerate() {
        assert_eq!(sink.writes[i].len(), 12);
        assert_eq!(sink.writes[i], color_frame(*c));
    }
    assert_eq!(sink.writes[3], vec![0u8; RESET_BYTES]);
}

#[test]
fn channel_order_is_green_red_blue() {
    let c = Rgb8::new(0x01, 0x02, 0x03);
    let mut writer = Ws2812BlockingWriter::new(RecordingSink::new());
    assert_eq!(writer.write(&[c]), Ok(()));
    let sink = writer.release();
    assert_eq!(sink.writes[0][0..4], encode_byte(0x02));
    assert_eq!(sink.writes[0][4..8], encode_byte(0x01));
    assert_eq!(sink.writes[0][8..12], encode_byte(0x03));
}

#[test]
fn zero_length_sequence_sends_only_reset() {
    let mut writer = Ws2812BlockingWriter::new(RecordingSink::new());
    assert_eq!(writer.write(&[]), Ok(()));
    let sink = writer.release();
    assert_eq!(sink.writes.len(), 1);
    assert_eq!(sink.writes[0], vec![0u8; RESET_BYTES]);
}

#[test]
fn reset_is_at_least_140_zero_bytes() {
    let mut writer = Ws2812BlockingWriter::new(RecordingSink::new());
    assert_eq!(writer.flush(), Ok(()));
    let sink = writer.release();
    assert_eq!(sink.writes.len(), 1);
    assert!(sink.writes[0].len() >= 140);
    assert!(sink.writes[0].iter().all(|b| *b == 0));
}

#[test]
fn failure_on_first_color_stops_at_once() {
    let colors = [Rgb8::new(1, 2, 3), Rgb8::new(4, 5, 6)];
    let mut writer = Ws2812BlockingWriter::new(RecordingSink::failing_on(1));
    assert_eq!(writer.write(&colors), Err(SinkError));
    let sink = writer.release();
    assert_eq!(sink.writes.len(), 1);
}

#[test]
fn failure_mid_sequence_stops_at_once() {
    let colors = [Rgb8::new(1, 2, 3), Rgb8::new(4, 5, 6), Rgb8::new(7, 8, 9)];
    let mut writer = Ws2812BlockingWriter::new(RecordingSink::failing_on(2));
    assert_eq!(writer.write(&colors), Err(SinkError));
    let sink = writer.release();
    assert_eq!(sink.writes.len(), 2);
    assert_eq!(sink.writes[0], color_frame(colors[0]));
    assert_eq!(sink.writes[1], color_frame(colors[1]));
}

#[test]
fn failure_on_reset_is_surfaced() {
    let colors = [Rgb8::new(1, 2, 3), Rgb8::new(4, 5, 6)];
    let mut writer = Ws2812BlockingWriter::new(RecordingSink::failing_on(3));
    assert_eq!(writer.write(&colors), Err(SinkError));
    let sink = writer.release();
    assert_eq!(sink.writes.len(), 3);
    assert_eq!(sink.writes[2], vec![0u8; RESET_BYTES]);
}

#[test]
fn long_strand_is_streamed_color_by_color() {
    let colors: Vec<Rgb8> = (0..1000u32)
        .map(|i| Rgb8::new((i % 256) as u8, (i / 4 % 256) as u8, (i * 7 % 256) as u8))
        .collect();
    let mut writer = Ws2812BlockingWriter::new(RecordingSink::new());
    assert_eq!(writer.write(&colors), Ok(()));
    let sink = writer.release();
    assert_eq!(sink.writes.len(), 1001);
    for w in sink.writes[..1000].iter() {
        assert_eq!(w.len(), 12);
    }
    assert_eq!(sink.writes[1000].len(), RESET_BYTES);
}

#[test]
fn write_color_sends_one_frame() {
    let c = Rgb8::new(0xAB, 0xCD, 0xEF);
    let mut writer = Ws2812BlockingWriter::new(RecordingSink::new());
    assert_eq!(writer.write_color(c), Ok(()));
    let sink = writer.release();
    assert_eq!(sink.writes.len(), 1);
    assert_eq!(sink.writes[0], color_frame(c));
}

#[test]
fn write_color_surfaces_a_refusal() {
    let mut writer = Ws2812BlockingWriter::new(RecordingSink::failing_on(1));
    assert_eq!(writer.write_color(Rgb8::new(1, 2, 3)), Err(SinkError));
    let sink = writer.release();
    assert_eq!(sink.writes.len(), 1);
}

#[test]
fn flush_surfaces_a_refusal() {
    let mut writer = Ws2812BlockingWriter::new(RecordingSink::failing_on(1));
    assert_eq!(writer.flush(), Err(SinkError));
    let sink = writer.release();
    assert_eq!(sink.writes.len(), 1);
    assert_eq!(sink.writes[0], vec![0u8; RESET_BYTES]);
}

#[test]
fn streaming_colors_then_flush_matches_write() {
    let colors = [Rgb8::new(1, 2, 3), Rgb8::new(4, 5, 6)];
    let mut streamed = Ws2812BlockingWriter::new(RecordingSink::new());
    for c in colors.iter() {
        assert_eq!(streamed.write_color(*c), Ok(()));
    }
    assert_eq!(streamed.flush(), Ok(()));
    let mut whole = Ws2812BlockingWriter::new(RecordingSink::new());
    assert_eq!(whole.write(&colors), Ok(()));
    assert_eq!(streamed.release().writes, whole.release().writes);
}

#[test]
fn consecutive_frames_append_to_the_log() {
    let mut writer = Ws2812BlockingWriter::new(RecordingSink::new());
    assert_eq!(writer.write(&[Rgb8::new(9, 9, 9)]), Ok(()));
    assert_eq!(writer.write(&[]), Ok(()));
    let sink = writer.release();
    assert_eq!(sink.writes.len(), 3);
    assert_eq!(sink.writes[0], color_frame(Rgb8::new(9, 9, 9)));
    assert_eq!(sink.writes[1], vec![0u8; RESET_BYTES]);
    assert_eq!(sink.writes[2], vec![0u8; RESET_BYTES]);
}
