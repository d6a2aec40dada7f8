use keystream64::error::Error;
use keystream64::hex::{decode_fixed, decode_variable, encode};
use keystream64::values::{Block, Key};

fn bits_of(s: &str) -> Vec<bool> {
    s.chars().map(|c| c == '1').collect()
}

#[test]
fn decode_fixed_accepts_exact_width() {
    let bits = decode_fixed("AAAABBBBCCCCDDDD", 64).unwrap();
    assert_eq!(bits.len(), 64);
    // 0xA = 1010, so the buffer starts 1010 1010 1010 1010 1011 ...
    assert_eq!(&bits[0..8], &bits_of("10101010")[..]);
    assert_eq!(&bits[16..24], &bits_of("10111011")[..]);
}

#[test]
fn decode_fixed_is_case_insensitive_and_strips_prefix_and_whitespace() {
    let reference = decode_fixed("AAAABBBBCCCCDDDD", 64).unwrap();
    assert_eq!(decode_fixed("aaaabbbbccccdddd", 64).unwrap(), reference);
    assert_eq!(decode_fixed("0xAAAABBBBCCCCDDDD", 64).unwrap(), reference);
    assert_eq!(decode_fixed("  0Xaaaabbbbccccdddd \n", 64).unwrap(), reference);
}

#[test]
fn decode_fixed_rejects_wrong_length() {
    assert_eq!(decode_fixed("AAAABBBBCCCCDDD", 64), Err(Error::InvalidLength));
    assert_eq!(decode_fixed("AAAABBBBCCCCDDDDE", 64), Err(Error::InvalidLength));
    assert_eq!(decode_fixed("", 64), Err(Error::InvalidLength));
}

#[test]
fn decode_fixed_rejects_bad_character() {
    assert_eq!(decode_fixed("AAAABBBBCCCCDDDG", 64), Err(Error::InvalidCharacter));
}

#[test]
fn decode_fixed_length_error_takes_precedence() {
    // wrong width and a bad character: the width is checked first
    assert_eq!(decode_fixed("xyz", 64), Err(Error::InvalidLength));
}

#[test]
fn decode_variable_accepts_any_length() {
    assert_eq!(decode_variable("").unwrap().len(), 0);
    assert_eq!(decode_variable("F").unwrap(), bits_of("1111"));
    // an odd digit count is accepted: three digits give twelve bits
    assert_eq!(decode_variable("A0F").unwrap(), bits_of("101000001111"));
}

#[test]
fn decode_variable_rejects_bad_character() {
    assert_eq!(decode_variable("xyz"), Err(Error::InvalidCharacter));
    assert_eq!(decode_variable("12g4"), Err(Error::InvalidCharacter));
}

#[test]
fn encode_round_trips_uppercased() {
    // encoding a decoding returns the input, uppercased and stripped
    let bits = decode_fixed("aaaabbbbccccdddd", 64).unwrap();
    assert_eq!(encode(&bits), "AAAABBBBCCCCDDDD");
    let bits = decode_fixed(" 0x0123456789abcdef ", 64).unwrap();
    assert_eq!(encode(&bits), "0123456789ABCDEF");
    let bits = decode_variable("deadBEEF").unwrap();
    assert_eq!(encode(&bits), "DEADBEEF");
}

#[test]
fn encode_pads_to_a_leading_zero_nibble() {
    // two bits 10 are padded at the front to 0010, the digit 2
    assert_eq!(encode(&bits_of("10")), "2");
    assert_eq!(encode(&bits_of("")), "");
    assert_eq!(encode(&bits_of("111")), "7");
}

#[test]
fn key_parse_accepts_sixteen_digits() {
    let k = Key::parse("AAAABBBBCCCCDDDD").unwrap();
    assert_eq!(k.to_hex(), "AAAABBBBCCCCDDDD");
    assert_eq!(k.as_bits().len(), 64);
}

#[test]
fn key_parse_rejects_wrong_length_and_bad_digit() {
    assert!(matches!(Key::parse("AAAABBBBCCCCDDD"), Err(Error::InvalidLength)));
    assert!(matches!(Key::parse("AAAABBBBCCCCDDDDE"), Err(Error::InvalidLength)));
    assert!(matches!(Key::parse("AAAABBBBCCCCDDDG"), Err(Error::InvalidCharacter)));
    // a prefix is stripped before the width check: fourteen digits remain
    assert!(matches!(Key::parse("0xAAAABBBBCCCCDD"), Err(Error::InvalidLength)));
}

#[test]
fn block_parse_mirrors_key_parse() {
    let b = Block::parse("ffffffffffffffff").unwrap();
    assert_eq!(b.to_hex(), "FFFFFFFFFFFFFFFF");
    assert!(matches!(Block::parse("FFFF"), Err(Error::InvalidLength)));
    assert!(matches!(Block::parse("FFFFFFFFFFFFFFFz"), Err(Error::InvalidCharacter)));
}

#[test]
fn key_equality_and_clone_are_structural() {
    let a = Key::parse("aaaabbbbccccdddd").unwrap();
    let b = Key::parse("AAAABBBBCCCCDDDD").unwrap();
    let c = Key::parse("0000000000000001").unwrap();
    assert!(a == b);
    assert!(!(a == c));
    assert!(a.clone() == b);
    let d = Block::parse("FFFFFFFFFFFFFFFF").unwrap();
    assert!(d.clone() == d);
}

#[test]
fn error_messages_are_distinct() {
    assert_ne!(Error::InvalidLength.message(), Error::InvalidCharacter.message());
    assert_ne!(Error::InvalidCharacter.message(), Error::PrimitiveFailure.message());
}
