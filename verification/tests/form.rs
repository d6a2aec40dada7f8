use keystream64::error::Error;
use keystream64::form::{to_upper_text, DesApp, InputType, Message};
use keystream64::hex::decode_variable;
use keystream64::values::{Block, Key};

fn text(s: &str, input_type: InputType) -> Message {
    Message::Input { input: s.to_string(), input_type }
}

#[test]
fn new_form_is_empty() {
    let app = DesApp::new();
    assert!(app.cipher.is_none());
    assert!(app.key.is_none());
    assert!(app.iv.is_none());
    assert!(app.encoded.is_none());
    assert_eq!(app.cipher_input, "");
    assert!(app.error.0.is_none() && app.error.1.is_none() && app.error.2.is_none());
}

#[test]
fn output_appears_once_all_fields_are_valid() {
    let mut app = DesApp::new();
    app.update(text("00", InputType::Text));
    assert_eq!(app.cipher.as_deref(), Some(&decode_variable("00").unwrap()[..]));
    assert!(app.encoded.is_none());
    app.update(text("AAAABBBBCCCCDDDD", InputType::Key));
    assert!(app.key.is_some());
    assert!(app.encoded.is_none());
    app.update(text("FFFFFFFFFFFFFFFF", InputType::IV));
    assert!(app.iv.is_some());
    // all three fields hold values: the transform's output is computed
    let key = Key::parse("AAAABBBBCCCCDDDD").unwrap();
    let iv = Block::parse("FFFFFFFFFFFFFFFF").unwrap();
    let expected =
        keystream64::engine::transform(&decode_variable("00").unwrap(), &key, &iv).unwrap();
    assert_eq!(app.encoded.as_ref(), Some(&expected));
}

#[test]
fn malformed_message_is_rejected_before_the_engine_runs() {
    let mut app = DesApp::new();
    app.update(text("AAAABBBBCCCCDDDD", InputType::Key));
    app.update(text("FFFFFFFFFFFFFFFF", InputType::IV));
    app.update(text("xyz", InputType::Text));
    assert_eq!(app.cipher_input, "XYZ");
    assert!(app.cipher.is_none());
    assert_eq!(app.error.0, Some(Error::InvalidCharacter));
    // no decodable message, so no output is ever computed
    assert!(app.encoded.is_none());
}

#[test]
fn fields_store_uppercased_text() {
    let mut app = DesApp::new();
    app.update(text("0xab", InputType::Text));
    assert_eq!(app.cipher_input, "0XAB");
    assert!(app.cipher.is_some());
    app.update(text("aaaabbbbccccdddd", InputType::Key));
    assert_eq!(app.key_input, "AAAABBBBCCCCDDDD");
    assert!(app.key.is_some());
    app.update(text("ffffffffffffffff", InputType::IV));
    assert_eq!(app.iv_input, "FFFFFFFFFFFFFFFF");
    assert!(app.iv.is_some());
    assert!(app.encoded.is_some());
}

#[test]
fn upper_text_maps_ascii_letters_only() {
    assert_eq!(to_upper_text("deadBEEF-0x yz"), "DEADBEEF-0X YZ");
    assert_eq!(to_upper_text(""), "");
    // a non-ASCII letter passes through unchanged
    assert_eq!(to_upper_text("aä"), "Aä");
}

#[test]
fn key_field_ignores_text_beyond_sixteen_characters() {
    let mut app = DesApp::new();
    app.update(text("AAAABBBBCCCCDDDD", InputType::Key));
    let stored = app.key_input.clone();
    // a seventeenth character leaves the stored text as it was
    app.update(text("AAAABBBBCCCCDDDD1", InputType::Key));
    assert_eq!(app.key_input, stored);
    assert!(app.key.is_some());
}

#[test]
fn key_field_parses_only_at_sixteen_characters() {
    let mut app = DesApp::new();
    app.update(text("AAAA", InputType::Key));
    assert!(app.key.is_none());
    assert!(app.error.1.is_none());
    app.update(text("AAAABBBBCCCCDDDG", InputType::Key));
    assert!(app.key.is_none());
    assert_eq!(app.error.1, Some(Error::InvalidCharacter));
    app.update(text("0xAAAABBBBCCCCDD", InputType::Key));
    assert_eq!(app.error.1, Some(Error::InvalidLength));
    app.update(text("aaaabbbbccccdddd", InputType::Key));
    assert!(app.key.is_some());
    assert!(app.error.1.is_none());
}

#[test]
fn iv_field_reports_its_own_error() {
    let mut app = DesApp::new();
    app.update(text("FFFFFFFFFFFFFFFG", InputType::IV));
    assert!(app.iv.is_none());
    assert_eq!(app.error.2, Some(Error::InvalidCharacter));
    assert!(app.error.1.is_none());
}

#[test]
fn clearing_a_field_clears_the_output() {
    let mut app = DesApp::new();
    app.update(text("00", InputType::Text));
    app.update(text("AAAABBBBCCCCDDDD", InputType::Key));
    app.update(text("FFFFFFFFFFFFFFFF", InputType::IV));
    assert!(app.encoded.is_some());
    app.update(text("xyz", InputType::Text));
    assert!(app.encoded.is_none());
}

#[test]
fn unrelated_events_keep_the_state() {
    let mut app = DesApp::new();
    app.update(text("00", InputType::Text));
    app.update(text("AAAABBBBCCCCDDDD", InputType::Key));
    app.update(text("FFFFFFFFFFFFFFFF", InputType::IV));
    let encoded = app.encoded.clone();
    app.update(Message::ChangeTheme);
    assert_eq!(app.encoded, encoded);
    app.update(Message::Ignore("anything".to_string()));
    assert_eq!(app.encoded, encoded);
}

#[test]
fn computed_event_stores_the_output_when_fields_hold() {
    let mut app = DesApp::new();
    app.update(text("00", InputType::Text));
    app.update(text("AAAABBBBCCCCDDDD", InputType::Key));
    app.update(text("FFFFFFFFFFFFFFFF", InputType::IV));
    let bits = vec![true, false, true];
    app.update(Message::EncodedTextComputed(bits.clone()));
    assert_eq!(app.encoded, Some(bits));
    // with a field missing the same event leaves no output behind
    let mut empty = DesApp::new();
    empty.update(Message::EncodedTextComputed(vec![true]));
    assert!(empty.encoded.is_none());
}
