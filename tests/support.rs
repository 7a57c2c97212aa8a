use bytedump::buffer::LineBuffer;
use bytedump::config::{resolve_config, ConfigError, DumpConfig, Mode, MAX_LINE_UNITS};
use bytedump::input::{choose_strategy, InputStrategy, MMAP_THRESHOLD};
use bytedump::tables::{classify, hex_digit_char, ByteClass, ByteTables, Paint};

#[test]
fn line_buffer_push_extend_reset() {
    let mut b = LineBuffer::new();
    assert_eq!(b.len(), 0);
    b.push(b'x');
    b.extend(b"yz");
    assert_eq!(b.as_slice(), b"xyz");
    assert_eq!(b.len(), 3);
    b.reset();
    assert_eq!(b.len(), 0);
    assert_eq!(b.as_slice(), b"");
    b.extend(b"q");
    assert_eq!(b.as_slice(), b"q");
}

#[test]
fn line_buffer_fills_to_capacity() {
    let mut b = LineBuffer::with_capacity(3);
    b.extend(b"abc");
    assert_eq!(b.as_slice(), b"abc");
    let mut d = LineBuffer::default();
    let big = vec![7u8; 1024];
    d.extend(&big);
    assert_eq!(d.len(), 1024);
}

#[test]
fn classes_of_bytes() {
    assert_eq!(classify(0x00), ByteClass::Null);
    assert_eq!(classify(0x01), ByteClass::Control);
    assert_eq!(classify(0x1f), ByteClass::Control);
    assert_eq!(classify(0x7f), ByteClass::Control);
    assert_eq!(classify(0x20), ByteClass::Printable);
    assert_eq!(classify(0x7e), ByteClass::Printable);
    assert_eq!(classify(0x80), ByteClass::Extended);
    assert_eq!(classify(0xff), ByteClass::Extended);
}

#[test]
fn tables_hold_each_rendering() {
    let t = ByteTables::new();
    assert_eq!(t.hex(0xab), b"ab ");
    assert_eq!(t.hex(0x05), b"05 ");
    assert_eq!(t.binary(0x81), b"10000001");
    assert_eq!(t.class(0x0a), ByteClass::Control);
    assert_eq!(t.escape(b'~'), b"~");
    assert_eq!(t.escape(0x0a), b"\\n");
    assert_eq!(t.escape(0x0d), b"\\r");
    assert_eq!(t.escape(0x09), b"\\t");
    assert_eq!(t.escape(0x00), b"\\0");
    assert_eq!(t.escape(0x1b), b"\\x1b");
    assert_eq!(t.escape(0xc3), b"\\xc3");
    assert_eq!(t.paint(Paint::Plain), b"");
    assert_eq!(t.paint(Paint::Gray), b"\x1b[90m");
    assert_eq!(t.paint(Paint::Red), b"\x1b[91m");
    assert_eq!(t.paint(Paint::Green), b"\x1b[32m");
    assert_eq!(t.paint(Paint::Orange), b"\x1b[38;5;130m");
    assert_eq!(t.reset(), b"\x1b[0m");
}

#[test]
fn hex_digits() {
    assert_eq!(hex_digit_char(0), b'0');
    assert_eq!(hex_digit_char(9), b'9');
    assert_eq!(hex_digit_char(10), b'a');
    assert_eq!(hex_digit_char(15), b'f');
}

#[test]
fn config_defaults_by_mode() {
    let (m, c) = resolve_config(None, true, false, false, false).unwrap();
    assert_eq!(m, Mode::Hex);
    assert_eq!(c.bytes_per_line, 16);
    let (m, c) = resolve_config(None, false, true, true, false).unwrap();
    assert_eq!(m, Mode::Binary);
    assert_eq!(c, DumpConfig { bytes_per_line: 64, color_enabled: true, space_highlight: false });
    let (m, c) = resolve_config(Some(5), false, false, false, true).unwrap();
    assert_eq!(m, Mode::Text);
    assert_eq!(c, DumpConfig { bytes_per_line: 5, color_enabled: false, space_highlight: true });
}

#[test]
fn config_rejects_zero_length() {
    assert_eq!(resolve_config(Some(0), false, false, false, false), Err(ConfigError::InvalidLength(0)));
    assert_eq!(
        resolve_config(Some(MAX_LINE_UNITS + 1), true, false, false, false),
        Err(ConfigError::InvalidLength(MAX_LINE_UNITS + 1))
    );
}

#[test]
fn config_rejects_two_modes() {
    assert_eq!(resolve_config(Some(8), true, true, false, false), Err(ConfigError::ConflictingModes));
}

#[test]
fn strategy_by_size_and_kind() {
    assert_eq!(choose_strategy(100 * 1024, true), InputStrategy::Mapped);
    assert_eq!(choose_strategy(MMAP_THRESHOLD, true), InputStrategy::Mapped);
    assert_eq!(choose_strategy(MMAP_THRESHOLD - 1, true), InputStrategy::Streamed);
    assert_eq!(choose_strategy(100 * 1024, false), InputStrategy::Streamed);
}
