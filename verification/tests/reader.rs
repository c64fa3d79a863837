use rcin::RInStream;
use rcin::VecSource;

fn reader_of(text: &str) -> RInStream<VecSource> {
    RInStream::from_source(VecSource::new(text.as_bytes().to_vec()))
}

fn byte_reader(bytes: Vec<u8>) -> RInStream<VecSource> {
    RInStream::from_source(VecSource::new(bytes))
}

#[test]
fn read_line_with_trailing_newline() {
    let mut r = reader_of("1\n2\n");
    assert_eq!(r.read_line(), Some(String::from("1")));
    assert_eq!(r.read_line(), Some(String::from("2")));
    assert_eq!(r.read_line(), None);
    assert!(!r.valid());
}

#[test]
fn read_line_without_trailing_newline() {
    let mut r = reader_of("1\n2");
    assert_eq!(r.read_line(), Some(String::from("1")));
    assert_eq!(r.read_line(), Some(String::from("2")));
    assert_eq!(r.read_line(), None);
    assert!(!r.valid());
}

#[test]
fn skip_line_then_read_line() {
    let mut r = reader_of("header\nrest");
    r.skip_line();
    assert_eq!(r.read_line(), Some(String::from("rest")));
}

#[test]
fn blank_line_is_empty_text_not_absence() {
    let mut r = reader_of("\na");
    assert_eq!(r.read_line(), Some(String::new()));
    assert_eq!(r.read_line(), Some(String::from("a")));
    assert_eq!(r.read_line(), None);
}

#[test]
fn skip_line_at_end_without_newline() {
    let mut r = reader_of("abc");
    r.skip_line();
    assert!(!r.valid());
    assert_eq!(r.read_line(), None);
}

#[test]
fn four_byte_round_trip() {
    let mut r = byte_reader(vec![0xF0, 0x9F, 0x98, 0x80]);
    assert_eq!(r.read_char(), std::char::from_u32(0x1F600));
    assert_eq!(r.read_char(), None);
    assert!(!r.valid());
}

#[test]
fn two_and_three_byte_round_trip() {
    let mut bytes = Vec::new();
    let mut buf = [0u8; 4];
    for c in ['\u{00E9}', '\u{20AC}'] {
        bytes.extend_from_slice(c.encode_utf8(&mut buf).as_bytes());
    }
    let mut r = byte_reader(bytes);
    assert_eq!(r.read_char(), Some('\u{00E9}'));
    assert_eq!(r.read_char(), Some('\u{20AC}'));
    assert_eq!(r.read_char(), None);
}

#[test]
fn scalar_split_across_refills() {
    let mut r = RInStream::new(VecSource::new(vec![0xF0, 0x9F, 0x98, 0x80]), 2);
    assert_eq!(r.read_char(), std::char::from_u32(0x1F600));
}

#[test]
fn stray_continuation_byte_yields_nothing() {
    let mut r = byte_reader(vec![0x80, 0x41]);
    assert_eq!(r.read_char(), None);
    assert!(r.valid());
    assert_eq!(r.read_char(), Some('A'));
}

#[test]
fn incomplete_sequence_at_end_of_data() {
    let mut r = byte_reader(vec![0xF0, 0x9F]);
    assert_eq!(r.read_char(), None);
    assert!(!r.valid());
}

#[test]
fn surrogate_encoding_yields_nothing() {
    let mut r = byte_reader(vec![0xED, 0xA0, 0x80]);
    assert_eq!(r.read_char(), None);
    assert!(r.valid());
    assert_eq!(r.read_char(), None);
    assert!(!r.valid());
}

#[test]
fn overlong_encoding_is_not_rejected() {
    let mut r = byte_reader(vec![0xC1, 0x81]);
    assert_eq!(r.read_char(), Some('A'));
}

#[test]
fn lead_byte_past_f7_yields_nothing() {
    let mut r = byte_reader(vec![0xFF, 0x42]);
    assert_eq!(r.read_char(), None);
    assert!(r.valid());
    assert_eq!(r.read_char(), Some('B'));
}

#[test]
fn empty_source_everything_absent() {
    let mut r = reader_of("");
    assert!(r.valid());
    assert_eq!(r.read_char(), None);
    assert!(!r.valid());
    assert_eq!(r.read_line(), None);
    assert_eq!(r.read::<i64>(), None);
}

#[test]
fn ascii_int_stream_in_order_then_invalid() {
    let mut r = reader_of("10 -3 42\n");
    assert_eq!(r.read::<i64>(), Some(10));
    assert_eq!(r.read::<i64>(), Some(-3));
    assert_eq!(r.read::<i64>(), Some(42));
    assert_eq!(r.read::<i64>(), None);
    assert!(!r.valid());
}

#[test]
fn token_parse_boundary_consumes_whole_token() {
    let mut r = reader_of("17x y\n");
    assert_eq!(r.read::<i64>(), None);
    assert_eq!(r.read::<String>(), Some(String::from("y")));
}

#[test]
fn token_parse_boundary_then_exhausted() {
    let mut r = reader_of("17x\n");
    assert_eq!(r.read::<i64>(), None);
    assert!(r.valid());
    assert_eq!(r.read::<i64>(), None);
    assert!(!r.valid());
}

#[test]
fn buffer_boundary_tokens() {
    let mut r = RInStream::new(VecSource::new(b"ab cdefgh 12".to_vec()), 4);
    assert_eq!(r.read::<String>(), Some(String::from("ab")));
    assert_eq!(r.read::<String>(), Some(String::from("cdefgh")));
    assert_eq!(r.read::<u32>(), Some(12));
    assert_eq!(r.read::<String>(), None);
    assert!(!r.valid());
}

#[test]
fn unicode_whitespace_separates_tokens() {
    let mut r = reader_of("a\tb\u{00A0}c");
    assert_eq!(r.read::<String>(), Some(String::from("a")));
    assert_eq!(r.read::<String>(), Some(String::from("b")));
    assert_eq!(r.read::<String>(), Some(String::from("c")));
}

#[test]
fn read_char_can_yield_whitespace() {
    let mut r = reader_of(" x");
    assert_eq!(r.read_char(), Some(' '));
    assert_eq!(r.read_char(), Some('x'));
}

#[test]
fn token_ended_by_exhaustion_still_parses() {
    let mut r = reader_of("42");
    assert_eq!(r.read::<i64>(), Some(42));
    assert!(!r.valid());
    assert_eq!(r.read::<i64>(), None);
}

#[test]
fn only_whitespace_yields_nothing_and_invalidates() {
    let mut r = reader_of(" \t \n ");
    assert_eq!(r.read::<i64>(), None);
    assert!(!r.valid());
}

#[test]
fn capacity_one_reader_still_scans() {
    let mut r = RInStream::new(VecSource::new(b"7 8\nneun".to_vec()), 1);
    assert_eq!(r.read::<u32>(), Some(7));
    assert_eq!(r.read::<u32>(), Some(8));
    assert_eq!(r.read_line(), Some(String::from("neun")));
    assert_eq!(r.read_line(), None);
}

#[test]
fn default_buffer_reader_reads_tokens() {
    let mut r = reader_of("5 6");
    assert_eq!(r.read::<u32>(), Some(5));
    assert_eq!(r.read::<u32>(), Some(6));
    assert_eq!(r.read::<u32>(), None);
}
