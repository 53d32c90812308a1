//! Drive WS2812 (NeoPixel) LED strings over a plain byte-oriented SPI bus.
//!
//! The WS2812 one-wire protocol encodes each logical bit as a high/low pulse
//! of a particular width. A byte-oriented SPI transmitter cannot produce those
//! pulses directly, so every 8-bit color value is re-encoded into a fixed
//! four-byte SPI pattern whose bits, clocked out at the bus rate, reproduce
//! the required waveform. The [`encoding`] module holds that table logic, and
//! the [`writer`] module streams whole color frames, reset pulse included,
//! through any byte sink that implements [`sink::ByteSink`].

pub mod encoding;
pub mod sink;
pub mod writer;
