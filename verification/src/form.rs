//! The interactive form's state and its transition rules.
//!
//! Three text fields hold the message, the key and the IV as hex text,
//! each stored uppercased for display (the ASCII mapping: a non-ASCII
//! letter passes through unchanged, and is never a hex digit anyway).
//! The message field is re-decoded on every edit; the key and IV fields
//! take at most 16 characters and are parsed only once exactly 16
//! characters are present. Whenever all three fields hold validly parsed
//! values and an edit changed one of them, the transform's output is
//! recomputed; when any field is missing, the output is cleared. Each
//! field carries its own error slot, reported independently.
//!
//! The cosmetic appearance toggle of a graphical shell is not part of
//! this state: a shell keeps its theme beside this struct and treats
//! `ChangeTheme` as its own concern.

use vstd::prelude::*;
use vstd::string::StringSliceAdditionalSpecFns;
use vstd::string::StrSliceExecFns;

use crate::engine;
use crate::error::Error;
use crate::hex;
use crate::values::{Block, Key};

verus! {

/// Which text field an input event edits.
#[derive(Clone, Copy, Debug, PartialEq, Eq, Structural)]
pub enum InputType {
    Text,
    Key,
    IV,
}

/// An event handled by the form.
pub enum Message {
    Input { input: String, input_type: InputType },
    EncodedTextComputed(Vec<bool>),
    ChangeTheme,
    Ignore(String),
}

/// The UTF-8 bytes of a text, the form in which hex decoding reads it.
pub open spec fn text_bytes(s: Seq<char>) -> Seq<u8> {
    vstd::utf8::encode_utf8(s)
}

/// A lowercase ASCII letter raised to uppercase; any other character,
/// including a non-ASCII one, is kept as it is.
pub open spec fn upper_char(c: char) -> char {
    if c == 'a' {
        'A'
    } else if c == 'b' {
        'B'
    } else if c == 'c' {
        'C'
    } else if c == 'd' {
        'D'
    } else if c == 'e' {
        'E'
    } else if c == 'f' {
        'F'
    } else if c == 'g' {
        'G'
    } else if c == 'h' {
        'H'
    } else if c == 'i' {
        'I'
    } else if c == 'j' {
        'J'
    } else if c == 'k' {
        'K'
    } else if c == 'l' {
        'L'
    } else if c == 'm' {
        'M'
    } else if c == 'n' {
        'N'
    } else if c == 'o' {
        'O'
    } else if c == 'p' {
        'P'
    } else if c == 'q' {
        'Q'
    } else if c == 'r' {
        'R'
    } else if c == 's' {
        'S'
    } else if c == 't' {
        'T'
    } else if c == 'u' {
        'U'
    } else if c == 'v' {
        'V'
    } else if c == 'w' {
        'W'
    } else if c == 'x' {
        'X'
    } else if c == 'y' {
        'Y'
    } else if c == 'z' {
        'Z'
    } else {
        c
    }
}

/// A text with every lowercase ASCII letter raised to uppercase.
pub open spec fn upper_chars(s: Seq<char>) -> Seq<char> {
    s.map_values(|c: char| upper_char(c))
}

/// A lowercase ASCII letter raised to uppercase.
fn upper_char_exec(c: char) -> (r: char)
    ensures
        r == upper_char(c),
{
    if c == 'a' {
        'A'
    } else if c == 'b' {
        'B'
    } else if c == 'c' {
        'C'
    } else if c == 'd' {
        'D'
    } else if c == 'e' {
        'E'
    } else if c == 'f' {
        'F'
    } else if c == 'g' {
        'G'
    } else if c == 'h' {
        'H'
    } else if c == 'i' {
        'I'
    } else if c == 'j' {
        'J'
    } else if c == 'k' {
        'K'
    } else if c == 'l' {
        'L'
    } else if c == 'm' {
        'M'
    } else if c == 'n' {
        'N'
    } else if c == 'o' {
        'O'
    } else if c == 'p' {
        'P'
    } else if c == 'q' {
        'Q'
    } else if c == 'r' {
        'R'
    } else if c == 's' {
        'S'
    } else if c == 't' {
        'T'
    } else if c == 'u' {
        'U'
    } else if c == 'v' {
        'V'
    } else if c == 'w' {
        'W'
    } else if c == 'x' {
        'X'
    } else if c == 'y' {
        'Y'
    } else if c == 'z' {
        'Z'
    } else {
        c
    }
}

/// Relies on `String::push`: appends exactly the given character to the
/// end of the string.
#[verifier::external_body]
fn push_char(s: &mut String, c: char)
    ensures
        final(s)@ == old(s)@.push(c),
{
    s.push(c);
}

/// The text with every lowercase ASCII letter raised to uppercase, as
/// the form stores its fields for display. The mapping is the ASCII one:
/// a non-ASCII letter passes through unchanged (it can never be a hex
/// digit, so decoding treats it the same either way).
pub fn to_upper_text(s: &str) -> (r: String)
    ensures
        r@ == upper_chars(s@),
{
    let n = s.unicode_len();
    let mut out = String::new();
    let mut i: usize = 0;
    proof {
        assert(upper_chars(s@.take(0)) =~= Seq::<char>::empty());
    }
    while i < n
        invariant
            0 <= i <= s@.len(),
            n == s@.len(),
            out@ == upper_chars(s@.take(i as int)),
        decreases n - i,
    {
        let c = s.get_char(i);
        push_char(&mut out, upper_char_exec(c));
        proof {
            assert(out@ =~= upper_chars(s@.take(i as int + 1)));
        }
        i += 1;
    }
    proof {
        assert(s@.take(s@.len() as int) =~= s@);
    }
    out
}

/// What decoding a message field yields: the bits when every remaining
/// digit is hex, nothing otherwise.
pub open spec fn variable_decoding(s: Seq<u8>) -> Option<Seq<bool>> {
    let n = hex::normalize(s);
    if hex::hex_only(n) {
        Some(hex::hex_bits(n))
    } else {
        None
    }
}

/// What parsing a key or IV field yields: the bits when exactly 16 hex
/// digits remain, nothing otherwise.
pub open spec fn fixed_decoding(s: Seq<u8>) -> Option<Seq<bool>> {
    let n = hex::normalize(s);
    if n.len() == 16 && hex::hex_only(n) {
        Some(hex::hex_bits(n))
    } else {
        None
    }
}

/// The error a key or IV field reports: length is checked first.
pub open spec fn fixed_error(s: Seq<u8>) -> Option<Error> {
    let n = hex::normalize(s);
    if n.len() != 16 {
        Some(Error::InvalidLength)
    } else if !hex::hex_only(n) {
        Some(Error::InvalidCharacter)
    } else {
        None
    }
}

/// The bits held by an optional buffer.
pub open spec fn opt_bits(o: Option<Vec<bool>>) -> Option<Seq<bool>> {
    match o {
        Some(v) => Some(v@),
        None => None,
    }
}

/// The bits held by an optional key.
pub open spec fn opt_key_bits(o: Option<Key>) -> Option<Seq<bool>> {
    match o {
        Some(k) => Some(k@),
        None => None,
    }
}

/// The bits held by an optional block.
pub open spec fn opt_block_bits(o: Option<Block>) -> Option<Seq<bool>> {
    match o {
        Some(b) => Some(b@),
        None => None,
    }
}

/// The form's state: the three fields' raw text, their parsed values,
/// their error slots, and the computed output.
pub struct DesApp {
    pub cipher: Option<Vec<bool>>,
    pub key: Option<Key>,
    pub iv: Option<Block>,
    pub encoded: Option<Vec<bool>>,
    pub cipher_input: String,
    pub key_input: String,
    pub iv_input: String,
    pub error: (Option<Error>, Option<Error>, Option<Error>),
}

impl DesApp {
    /// True when all three fields hold validly parsed values.
    pub open spec fn all_present(&self) -> bool {
        self.cipher is Some && self.key is Some && self.iv is Some
    }

    /// The output owed after a transition: recomputed when a field
    /// changed and all three are present, kept when nothing changed,
    /// cleared when a field is missing. `mid` is the output right after
    /// the event itself was applied.
    pub open spec fn owed_output(&self, mid: Option<Vec<bool>>, changed: bool) -> Option<
        Seq<bool>,
    > {
        if self.all_present() {
            if changed {
                Some(
                    engine::xor_stream(
                        self.cipher.unwrap()@,
                        engine::keystream_of(self.key.unwrap()@, self.iv.unwrap()@),
                    ),
                )
            } else {
                opt_bits(mid)
            }
        } else {
            None
        }
    }

    /// The empty form: no text, nothing parsed, no output, no errors.
    pub fn new() -> (r: DesApp)
        ensures
            r.cipher is None,
            r.key is None,
            r.iv is None,
            r.encoded is None,
            r.cipher_input@ == Seq::<char>::empty(),
            r.key_input@ == Seq::<char>::empty(),
            r.iv_input@ == Seq::<char>::empty(),
            r.error.0 is None && r.error.1 is None && r.error.2 is None,
    {
        DesApp {
            cipher: None,
            key: None,
            iv: None,
            encoded: None,
            cipher_input: String::new(),
            key_input: String::new(),
            iv_input: String::new(),
            error: (None, None, None),
        }
    }

    /// The window title a graphical shell displays for this form.
    pub fn title(&self) -> (r: String)
        ensures
            r@ == "Anonymization example"@,
    {
        String::from_str("Anonymization example")
    }

    /// Applies one event to the form.
    ///
    /// A message edit stores the text uppercased and re-decodes the
    /// stored text; a key or IV edit stores the uppercased text only
    /// when the typed text has at most 16 characters, and parses the
    /// stored text only when it has exactly 16; a computed-output event
    /// stores that output. After the event, the output is recomputed,
    /// kept or cleared as `owed_output` states.
    pub fn update(&mut self, message: Message)
        ensures
            ({
                let pre = *old(self);
                let post = *final(self);
                match message {
                    Message::Input { input, input_type } => {
                        match input_type {
                            InputType::Text => {
                                let up = upper_chars(input@);
                                let d = variable_decoding(text_bytes(up));
                                &&& post.cipher_input@ == up
                                &&& opt_bits(post.cipher) == d
                                &&& post.error.0 == (if d is Some {
                                    Option::<Error>::None
                                } else {
                                    Some(Error::InvalidCharacter)
                                })
                                &&& post.key == pre.key
                                &&& post.iv == pre.iv
                                &&& post.key_input == pre.key_input
                                &&& post.iv_input == pre.iv_input
                                &&& post.error.1 == pre.error.1
                                &&& post.error.2 == pre.error.2
                                &&& opt_bits(post.encoded) == post.owed_output(pre.encoded, true)
                            },
                            InputType::Key => {
                                let stored = if text_bytes(input@).len() <= 16 {
                                    upper_chars(input@)
                                } else {
                                    pre.key_input@
                                };
                                let parse_now = text_bytes(stored).len() == 16;
                                &&& post.key_input@ == stored
                                &&& parse_now ==> opt_key_bits(post.key) == fixed_decoding(
                                    text_bytes(stored),
                                ) && post.error.1 == fixed_error(text_bytes(stored))
                                &&& !parse_now ==> post.key == pre.key && post.error.1
                                    == pre.error.1
                                &&& post.cipher == pre.cipher
                                &&& post.iv == pre.iv
                                &&& post.cipher_input == pre.cipher_input
                                &&& post.iv_input == pre.iv_input
                                &&& post.error.0 == pre.error.0
                                &&& post.error.2 == pre.error.2
                                &&& opt_bits(post.encoded) == post.owed_output(
                                    pre.encoded,
                                    parse_now,
                                )
                            },
                            InputType::IV => {
                                let stored = if text_bytes(input@).len() <= 16 {
                                    upper_chars(input@)
                                } else {
                                    pre.iv_input@
                                };
                                let parse_now = text_bytes(stored).len() == 16;
                                &&& post.iv_input@ == stored
                                &&& parse_now ==> opt_block_bits(post.iv) == fixed_decoding(
                                    text_bytes(stored),
                                ) && post.error.2 == fixed_error(text_bytes(stored))
                                &&& !parse_now ==> post.iv == pre.iv && post.error.2
                                    == pre.error.2
                                &&& post.cipher == pre.cipher
                                &&& post.key == pre.key
                                &&& post.cipher_input == pre.cipher_input
                                &&& post.key_input == pre.key_input
                                &&& post.error.0 == pre.error.0
                                &&& post.error.1 == pre.error.1
                                &&& opt_bits(post.encoded) == post.owed_output(
                                    pre.encoded,
                                    parse_now,
                                )
                            },
                        }
                    },
                    Message::EncodedTextComputed(bits) => {
                        &&& post.cipher == pre.cipher
                        &&& post.key == pre.key
                        &&& post.iv == pre.iv
                        &&& post.cipher_input == pre.cipher_input
                        &&& post.key_input == pre.key_input
                        &&& post.iv_input == pre.iv_input
                        &&& post.error == pre.error
                        &&& opt_bits(post.encoded) == post.owed_output(Some(bits), false)
                    },
                    _ => {
                        &&& post.cipher == pre.cipher
                        &&& post.key == pre.key
                        &&& post.iv == pre.iv
                        &&& post.cipher_input == pre.cipher_input
                        &&& post.key_input == pre.key_input
                        &&& post.iv_input == pre.iv_input
                        &&& post.error == pre.error
                        &&& opt_bits(post.encoded) == post.owed_output(pre.encoded, false)
                    },
                }
            }),
    {
        let mut changed = false;
        match message {
            Message::Input { input, input_type } => match input_type {
                InputType::Text => {
                    let up = to_upper_text(input.as_str());
                    match hex::decode_variable(up.as_str()) {
                        Ok(c) => {
                            self.cipher = Some(c);
                            self.error.0 = None;
                        },
                        Err(_) => {
                            self.cipher = None;
                            self.error.0 = Some(Error::InvalidCharacter);
                        },
                    }
                    self.cipher_input = up;
                    changed = true;
                },
                InputType::Key => {
                    if input.as_str().as_bytes().len() <= 16 {
                        self.key_input = to_upper_text(input.as_str());
                    }
                    if self.key_input.as_str().as_bytes().len() == 16 {
                        match Key::parse(self.key_input.as_str()) {
                            Ok(k) => {
                                self.key = Some(k);
                                self.error.1 = None;
                            },
                            Err(e) => {
                                self.key = None;
                                self.error.1 = Some(e);
                            },
                        }
                        changed = true;
                    }
                },
                InputType::IV => {
                    if input.as_str().as_bytes().len() <= 16 {
                        self.iv_input = to_upper_text(input.as_str());
                    }
                    if self.iv_input.as_str().as_bytes().len() == 16 {
                        match Block::parse(self.iv_input.as_str()) {
                            Ok(b) => {
                                self.iv = Some(b);
                                self.error.2 = None;
                            },
                            Err(e) => {
                                self.iv = None;
                                self.error.2 = Some(e);
                            },
                        }
                        changed = true;
                    }
                },
            },
            Message::EncodedTextComputed(bits) => {
                self.encoded = Some(bits);
            },
            Message::ChangeTheme => {},
            Message::Ignore(_) => {},
        }
        if self.cipher.is_some() && self.key.is_some() && self.iv.is_some() {
            if changed {
                match engine::transform(
                    self.cipher.as_ref().unwrap(),
                    self.key.as_ref().unwrap(),
                    self.iv.as_ref().unwrap(),
                ) {
                    Ok(out) => {
                        self.encoded = Some(out);
                    },
                    Err(_) => {
                        // unreachable: the transform always succeeds with
                        // the total primitive behind it
                        self.encoded = None;
                    },
                }
            }
        } else {
            self.encoded = None;
        }
    }
}

} // verus!
