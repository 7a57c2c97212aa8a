use bytedump::binary::BinaryDumper;
use bytedump::config::{DumpConfig, Mode};
use bytedump::dump::{dump_bytes, Dumper};
use bytedump::hex::HexDumper;
use bytedump::text::TextDumper;

const GRAY: &str = "\x1b[90m";
const RED: &str = "\x1b[91m";
const GREEN: &str = "\x1b[32m";
const ORANGE: &str = "\x1b[38;5;130m";
const RESET: &str = "\x1b[0m";

fn cfg(n: usize, color: bool, space: bool) -> DumpConfig {
    DumpConfig { bytes_per_line: n, color_enabled: color, space_highlight: space }
}

fn label(off: &str) -> String {
    format!("{}{}{}| ", GRAY, off, RESET)
}

fn hex_run(c: DumpConfig, data: &[u8]) -> String {
    let mut d = HexDumper::new(c);
    let mut out = Vec::new();
    d.process(data, &mut out);
    d.finish(&mut out);
    String::from_utf8(out).unwrap()
}

fn binary_run(c: DumpConfig, data: &[u8]) -> String {
    let mut d = BinaryDumper::new(c);
    let mut out = Vec::new();
    d.process(data, &mut out);
    d.finish(&mut out);
    String::from_utf8(out).unwrap()
}

fn text_run(c: DumpConfig, data: &[u8]) -> String {
    let mut d = TextDumper::new(c);
    let mut out = Vec::new();
    d.process(data, &mut out);
    d.finish(&mut out);
    String::from_utf8(out).unwrap()
}

#[test]
fn hex_two_bytes_make_one_partial_line() {
    let out = hex_run(cfg(16, false, false), b"AB");
    assert_eq!(out, format!("{}41 42 |\n", label("0000000")));
}

#[test]
fn hex_space_highlight_without_color() {
    let out = hex_run(cfg(16, false, true), &[0x20]);
    assert_eq!(out, format!("{}{}20 {}|\n", label("0000000"), GREEN, RESET));
}

#[test]
fn hex_sixteen_bytes_fill_exactly_one_line() {
    let data: Vec<u8> = (0u8..16).collect();
    let out = hex_run(cfg(16, false, false), &data);
    let expected = format!(
        "{}00 01 02 03 04 05 06 07 08 09 0a 0b 0c 0d 0e 0f |\n{}\n",
        label("0000000"),
        label("0000010")
    );
    assert_eq!(out, expected);
}

#[test]
fn hex_partial_last_line_has_no_extra_label() {
    let data: Vec<u8> = (0u8..5).collect();
    let out = hex_run(cfg(4, false, false), &data);
    let expected = format!("{}00 01 02 03 |\n{}04 |\n", label("0000000"), label("0000004"));
    assert_eq!(out, expected);
}

#[test]
fn hex_colors_by_class() {
    let out = hex_run(cfg(16, true, false), &[0x00, 0x01, 0x41, 0x7f, 0x80, 0x20]);
    let expected = format!(
        "{}{}00 {}{}01 {}41 {}7f {}{}80 {}20 |\n",
        label("0000000"),
        GRAY,
        RESET,
        RED,
        RESET,
        RED,
        RESET,
        ORANGE,
        RESET
    );
    assert_eq!(out, expected);
}

#[test]
fn hex_color_with_space_highlight_paints_space_green() {
    let out = hex_run(cfg(16, true, true), &[0x20]);
    assert_eq!(out, format!("{}{}20 {}|\n", label("0000000"), GREEN, RESET));
}

#[test]
fn hex_all_bytes_render_as_lowercase_digits() {
    let data: Vec<u8> = (0u16..256).map(|v| v as u8).collect();
    let out = hex_run(cfg(256, false, false), &data);
    let body = &out[label("0000000").len()..];
    let mut parsed = Vec::new();
    for (i, chunk) in body.as_bytes().chunks(3).take(256).enumerate() {
        let text = std::str::from_utf8(chunk).unwrap();
        assert_eq!(text, format!("{:02x} ", i));
        parsed.push(u8::from_str_radix(&text[..2], 16).unwrap());
    }
    assert_eq!(parsed, data);
}

#[test]
fn binary_bits_of_every_byte_read_back() {
    let data: Vec<u8> = (0u16..256).map(|v| v as u8).collect();
    let out = binary_run(cfg(2048, false, false), &data);
    let body = &out[label("0000000").len()..];
    let mut parsed = Vec::new();
    for (i, chunk) in body.as_bytes().chunks(8).take(256).enumerate() {
        let text = std::str::from_utf8(chunk).unwrap();
        assert_eq!(text, format!("{:08b}", i));
        parsed.push(u8::from_str_radix(text, 2).unwrap());
    }
    assert_eq!(parsed, data);
}

#[test]
fn binary_plain_splits_a_byte_across_lines() {
    let out = binary_run(cfg(4, false, false), &[0xa5]);
    let expected = format!("{}1010 |\n{}0101 |\n{}\n", label("0000000"), label("0000000"), label("0000000"));
    assert_eq!(out, expected);
}

#[test]
fn binary_plain_lines_of_whole_bytes() {
    let out = binary_run(cfg(16, false, false), &[0x01, 0x02, 0x03]);
    let expected = format!("{}0000000100000010 |\n{}00000011 |\n", label("0000000"), label("0000002"));
    assert_eq!(out, expected);
}

#[test]
fn binary_color_paints_whole_groups() {
    let out = binary_run(cfg(16, true, false), &[0x00, 0x41, 0xff]);
    let expected = format!(
        "{}{}00000000{}01000001 |\n{}{}11111111{} |\n",
        label("0000000"),
        GRAY,
        RESET,
        label("0000002"),
        ORANGE,
        RESET
    );
    assert_eq!(out, expected);
}

#[test]
fn binary_color_never_wraps_inside_a_byte() {
    let out = binary_run(cfg(4, true, true), &[0x20, 0x01]);
    let expected = format!(
        "{}{}00100000{} |\n{}{}00000001{} |\n{}\n",
        label("0000000"),
        GREEN,
        RESET,
        label("0000001"),
        RED,
        RESET,
        label("0000002")
    );
    assert_eq!(out, expected);
}

#[test]
fn text_newline_renders_as_two_characters() {
    let out = text_run(cfg(3, false, false), &[b'a', 0x0a, b'b']);
    let expected = format!("{}a\\n |\n{}b |\n", label("0000000"), label("0000002"));
    assert_eq!(out, expected);
}

#[test]
fn text_last_line_closes_after_escape() {
    let out = text_run(cfg(2, false, false), &[0x0a, 0x41]);
    let expected = format!("{}\\n |\n{}A |\n", label("0000000"), label("0000001"));
    assert_eq!(out, expected);
}

#[test]
fn text_escape_forms() {
    let out = text_run(cfg(64, false, false), &[b'A', 0x0d, 0x09, 0x00, 0x01, 0x7f, 0xff]);
    let expected = format!("{}A\\r\\t\\0\\x01\\x7f\\xff |\n", label("0000000"));
    assert_eq!(out, expected);
}

#[test]
fn text_escape_moves_whole_to_next_line() {
    let out = text_run(cfg(4, false, false), &[0x00, 0x01]);
    let expected = format!("{}\\0 |\n{}\\x01 |\n{}\n", label("0000000"), label("0000001"), label("0000002"));
    assert_eq!(out, expected);
}

#[test]
fn text_space_highlight_shows_underscore() {
    let out = text_run(cfg(64, false, true), b"a b");
    assert_eq!(out, format!("{}a{}_{}b |\n", label("0000000"), GREEN, RESET));
}

#[test]
fn text_color_by_class() {
    let out = text_run(cfg(64, true, false), &[0x00, 0x0a, b'z', 0x80]);
    let expected = format!(
        "{}{}\\0{}{}\\n{}z{}\\x80{} |\n",
        label("0000000"),
        GRAY,
        RESET,
        RED,
        RESET,
        ORANGE,
        RESET
    );
    assert_eq!(out, expected);
}

#[test]
fn offset_label_is_seven_hex_digits() {
    let data = vec![0x41u8; 0x1234];
    let out = hex_run(cfg(0x1000, false, false), &data);
    assert!(out.contains(&label("0001000")));
    assert!(out.ends_with(&format!("{}{}|\n", label("0001000"), "41 ".repeat(0x234))));
}

#[test]
fn chunked_input_matches_one_call() {
    let data: Vec<u8> = (0u32..5000).map(|v| (v * 7 % 251) as u8).collect();
    for mode in [Mode::Hex, Mode::Binary, Mode::Text] {
        for c in [cfg(16, false, false), cfg(13, true, true), cfg(64, false, true)] {
            let whole = dump_bytes(mode, c, &data);
            let mut d = Dumper::new(mode, c);
            let mut out = Vec::new();
            for chunk in data.chunks(97) {
                d.process(chunk, &mut out);
            }
            d.finish(&mut out);
            assert_eq!(out, whole);
        }
    }
}

#[test]
fn offsets_sum_to_bytes_consumed() {
    let data = vec![0x0au8; 100];
    let out = text_run(cfg(10, false, false), &data);
    assert!(out.contains(&label("0000064")));
    let out = hex_run(cfg(7, false, false), &data);
    assert!(out.ends_with(&format!("{}{}|\n", label("0000062"), "0a ".repeat(2))));
}

#[test]
fn same_input_twice_gives_identical_output() {
    let data: Vec<u8> = (0u32..1000).map(|v| (v % 256) as u8).collect();
    let c = cfg(16, true, true);
    assert_eq!(dump_bytes(Mode::Hex, c, &data), dump_bytes(Mode::Hex, c, &data));
    assert_eq!(dump_bytes(Mode::Text, c, &data), dump_bytes(Mode::Text, c, &data));
}

#[test]
fn mapped_and_streamed_delivery_agree() {
    let data: Vec<u8> = (0u32..100 * 1024).map(|v| (v * 31 % 256) as u8).collect();
    let c = cfg(16, false, false);
    let whole = dump_bytes(Mode::Hex, c, &data);
    let mut d = Dumper::new(Mode::Hex, c);
    let mut out = Vec::new();
    for chunk in data.chunks(4096) {
        d.process(chunk, &mut out);
    }
    d.finish(&mut out);
    assert_eq!(out, whole);
}

#[test]
fn empty_input_is_a_single_newline_or_label() {
    assert_eq!(dump_bytes(Mode::Hex, cfg(16, false, false), &[]), format!("{}\n", label("0000000")).into_bytes());
    let mut d = Dumper::new(Mode::Text, cfg(16, false, false));
    let mut out = Vec::new();
    d.finish(&mut out);
    assert_eq!(out, b"\n".to_vec());
}

#[test]
fn can_take_reports_room() {
    let d = HexDumper::new(cfg(16, false, false));
    assert!(d.can_take(1000));
    assert!(!d.can_take(usize::MAX));
}

#[test]
fn binary_lines_of_split_bytes_read_back() {
    let data: Vec<u8> = (0u8..10).map(|v| v.wrapping_mul(37)).collect();
    let out = binary_run(cfg(12, false, false), &data);
    let mut bits = String::new();
    for line in out.split('\n').filter(|l| !l.is_empty()) {
        let body = &line[label("0000000").len()..];
        bits.push_str(body.trim_end_matches(" |"));
    }
    assert_eq!(bits.len(), 80);
    let parsed: Vec<u8> = bits
        .as_bytes()
        .chunks(8)
        .map(|c| u8::from_str_radix(std::str::from_utf8(c).unwrap(), 2).unwrap())
        .collect();
    assert_eq!(parsed, data);
    assert!(out.ends_with(&format!("{}{} |\n", label("0000006"), &bits[72..])));
}
