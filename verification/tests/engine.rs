use keystream64::engine::transform;
use keystream64::hex::{decode_variable, encode};
use keystream64::values::{Block, Key};

// The expected keystream, computed straight through the primitive: the
// DES encryption of the IV bytes under the key bytes.
fn reference_keystream(key_hex: &str, iv_hex: &str) -> Vec<bool> {
    let key_bytes = hex_bytes(key_hex);
    let iv_bytes = hex_bytes(iv_hex);
    let cipher = <des::Des as des::cipher::KeyInit>::new_from_slice(&key_bytes).unwrap();
    let mut data: des::cipher::Block<des::Des> =
        des::cipher::Array::try_from(&iv_bytes[..]).unwrap();
    des::cipher::BlockCipherEncrypt::encrypt_block(&cipher, &mut data);
    bytes_to_bits(&data)
}

fn hex_bytes(s: &str) -> Vec<u8> {
    s.as_bytes()
        .chunks(2)
        .map(|p| u8::from_str_radix(std::str::from_utf8(p).unwrap(), 16).unwrap())
        .collect()
}

fn bytes_to_bits(bytes: &[u8]) -> Vec<bool> {
    let mut out = Vec::new();
    for &v in bytes {
        for j in (0..8).rev() {
            out.push(v & (1 << j) != 0);
        }
    }
    out
}

fn xor_prefix(bits: &[bool], ks: &[bool]) -> Vec<bool> {
    bits.iter().enumerate().map(|(i, &b)| b != ks[i % 64]).collect()
}

const KEY: &str = "AAAABBBBCCCCDDDD";
const IV: &str = "FFFFFFFFFFFFFFFF";

#[test]
fn zero_input_yields_the_keystream() {
    // exclusive-or with an all-zero 64-bit input is the identity, so the
    // output is exactly the primitive's encoding of the IV under the key
    let key = Key::parse(KEY).unwrap();
    let iv = Block::parse(IV).unwrap();
    let input = decode_variable("0000000000000000").unwrap();
    let out = transform(&input, &key, &iv).unwrap();
    assert_eq!(out, reference_keystream(KEY, IV));
}

#[test]
fn ninety_six_bit_input_spans_two_chunks() {
    // one full 64-bit chunk plus a 32-bit remainder: the first 64 output
    // bits are chunk one XOR the keystream, the last 32 are the remainder
    // XOR the keystream's first 32 bits
    let key = Key::parse(KEY).unwrap();
    let iv = Block::parse(IV).unwrap();
    let input = decode_variable("0123456789ABCDEF11223344").unwrap();
    assert_eq!(input.len(), 96);
    let ks = reference_keystream(KEY, IV);
    let out = transform(&input, &key, &iv).unwrap();
    assert_eq!(out.len(), 96);
    let expected_head = xor_prefix(&input[0..64], &ks);
    let expected_tail = xor_prefix(&input[64..96], &ks);
    assert_eq!(&out[0..64], &expected_head[..]);
    assert_eq!(&out[64..96], &expected_tail[..]);
}

#[test]
fn empty_input_yields_empty_output() {
    let key = Key::parse(KEY).unwrap();
    let iv = Block::parse(IV).unwrap();
    let input: Vec<bool> = Vec::new();
    let out = transform(&input, &key, &iv).unwrap();
    assert_eq!(out.len(), 0);
}

#[test]
fn transform_is_an_involution() {
    let key = Key::parse(KEY).unwrap();
    let iv = Block::parse(IV).unwrap();
    let input = decode_variable("DEADBEEF0123456789ABCDEF55").unwrap();
    let once = transform(&input, &key, &iv).unwrap();
    assert_ne!(once, input);
    let twice = transform(&once, &key, &iv).unwrap();
    assert_eq!(twice, input);
}

#[test]
fn transform_preserves_odd_bit_lengths() {
    // the buffer need not hold a whole number of nibbles or bytes
    let key = Key::parse(KEY).unwrap();
    let iv = Block::parse(IV).unwrap();
    let input = vec![true, false, true, true, false];
    let out = transform(&input, &key, &iv).unwrap();
    assert_eq!(out.len(), 5);
    let twice = transform(&out, &key, &iv).unwrap();
    assert_eq!(twice, input);
}

#[test]
fn transform_depends_on_key_and_iv() {
    let key = Key::parse(KEY).unwrap();
    let other_key = Key::parse("0000000000000000").unwrap();
    let iv = Block::parse(IV).unwrap();
    let other_iv = Block::parse("0000000000000001").unwrap();
    let input = decode_variable("FFFFFFFFFFFFFFFF").unwrap();
    let base = transform(&input, &key, &iv).unwrap();
    assert_ne!(transform(&input, &other_key, &iv).unwrap(), base);
    assert_ne!(transform(&input, &key, &other_iv).unwrap(), base);
}

#[test]
fn console_flow_encodes_to_hex() {
    // the console shell's round: decode the message, transform, encode
    let key = Key::parse(KEY).unwrap();
    let iv = Block::parse(IV).unwrap();
    let input = decode_variable("0000000000000000").unwrap();
    let out = transform(&input, &key, &iv).unwrap();
    let ks = reference_keystream(KEY, IV);
    let mut expected = String::new();
    for nibble in ks.chunks(4) {
        let v = (nibble[0] as u8) * 8 + (nibble[1] as u8) * 4 + (nibble[2] as u8) * 2
            + (nibble[3] as u8);
        expected.push(char::from_digit(v as u32, 16).unwrap().to_ascii_uppercase());
    }
    assert_eq!(encode(&out), expected);
}
