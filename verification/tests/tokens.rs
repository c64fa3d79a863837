use rcin::RInStream;
use rcin::VecSource;

fn reader_of(text: &str) -> RInStream<VecSource> {
    RInStream::from_source(VecSource::new(text.as_bytes().to_vec()))
}

#[test]
fn leading_plus_and_zeros() {
    let mut r = reader_of("+7 0017");
    assert_eq!(r.read::<u64>(), Some(7));
    assert_eq!(r.read::<u64>(), Some(17));
}

#[test]
fn signed_bounds_of_i64() {
    let mut r = reader_of("-9223372036854775808 9223372036854775807");
    assert_eq!(r.read::<i64>(), Some(i64::MIN));
    assert_eq!(r.read::<i64>(), Some(i64::MAX));
}

#[test]
fn just_past_the_i64_bounds() {
    let mut r = reader_of("-9223372036854775809 9223372036854775808");
    assert_eq!(r.read::<i64>(), None);
    assert_eq!(r.read::<i64>(), None);
}

#[test]
fn unsigned_bounds_of_u64() {
    let mut r = reader_of("18446744073709551615 18446744073709551616");
    assert_eq!(r.read::<u64>(), Some(u64::MAX));
    assert_eq!(r.read::<u64>(), None);
}

#[test]
fn far_past_every_bound() {
    let mut r = reader_of("184467440737095516151234567890");
    assert_eq!(r.read::<u64>(), None);
}

#[test]
fn signed_bounds_of_i32() {
    let mut r = reader_of("-2147483648 2147483647 -2147483649 2147483648");
    assert_eq!(r.read::<i32>(), Some(i32::MIN));
    assert_eq!(r.read::<i32>(), Some(i32::MAX));
    assert_eq!(r.read::<i32>(), None);
    assert_eq!(r.read::<i32>(), None);
}

#[test]
fn unsigned_bounds_of_u32() {
    let mut r = reader_of("4294967295 4294967296");
    assert_eq!(r.read::<u32>(), Some(u32::MAX));
    assert_eq!(r.read::<u32>(), None);
}

#[test]
fn minus_is_no_unsigned_token() {
    let mut r = reader_of("-5");
    assert_eq!(r.read::<u64>(), None);
}

#[test]
fn bare_sign_is_no_number() {
    let mut r = reader_of("+ -");
    assert_eq!(r.read::<i64>(), None);
    assert_eq!(r.read::<i64>(), None);
}

#[test]
fn inner_sign_is_no_number() {
    let mut r = reader_of("1-2");
    assert_eq!(r.read::<i64>(), None);
}

#[test]
fn char_token_is_one_character() {
    let mut r = reader_of("x yz");
    assert_eq!(r.read::<char>(), Some('x'));
    assert_eq!(r.read::<char>(), None);
}

#[test]
fn string_token_keeps_text() {
    let mut r = reader_of("  wort \n");
    assert_eq!(r.read::<String>(), Some(String::from("wort")));
    assert_eq!(r.read::<String>(), None);
}
