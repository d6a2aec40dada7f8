//! Fixed-width 64-bit value types.
//!
//! A `Key` and a `Block` both carry exactly 64 bits and are built only by
//! decoding a 16-digit hex string, but they are distinct nominal types: a
//! block (used as an IV or as keystream) can never stand where a key is
//! expected, nor the other way round.

use vstd::prelude::*;
use vstd::string::StringSliceAdditionalSpecFns;

use crate::error::Error;
use crate::hex;

verus! {

/// Copies a bit vector.
fn copy_bits(a: &Vec<bool>) -> (r: Vec<bool>)
    ensures
        r@ == a@,
{
    let mut out: Vec<bool> = Vec::new();
    let mut i: usize = 0;
    while i < a.len()
        invariant
            0 <= i <= a@.len(),
            out@ == a@.take(i as int),
        decreases a@.len() - i,
    {
        out.push(a[i]);
        proof {
            assert(out@ =~= a@.take(i as int + 1));
        }
        i += 1;
    }
    proof {
        assert(a@.take(a@.len() as int) =~= a@);
    }
    out
}

/// Compares two bit vectors.
fn bits_eq(a: &Vec<bool>, b: &Vec<bool>) -> (r: bool)
    ensures
        r == (a@ == b@),
{
    if a.len() != b.len() {
        proof {
            assert(a@ != b@);
        }
        return false;
    }
    let mut i: usize = 0;
    while i < a.len()
        invariant
            0 <= i <= a@.len(),
            a@.len() == b@.len(),
            forall|k: int| 0 <= k < i ==> a@[k] == b@[k],
        decreases a@.len() - i,
    {
        if a[i] != b[i] {
            proof {
                assert(a@[i as int] != b@[i as int]);
            }
            return false;
        }
        i += 1;
    }
    proof {
        assert(a@ =~= b@);
    }
    true
}

/// A 64-bit cipher key, built only from validated hex text.
pub struct Key {
    bits: Vec<bool>,
}

/// A 64-bit block, used as an IV input to the primitive and as its
/// keystream output; structurally like a `Key` but never interchangeable
/// with one.
pub struct Block {
    bits: Vec<bool>,
}

impl View for Key {
    type V = Seq<bool>;

    closed spec fn view(&self) -> Seq<bool> {
        self.bits@
    }
}

impl View for Block {
    type V = Seq<bool>;

    closed spec fn view(&self) -> Seq<bool> {
        self.bits@
    }
}

impl Key {
    #[verifier::type_invariant]
    spec fn type_inv(self) -> bool {
        self.bits@.len() == 64
    }

    /// Decodes a 16-digit hex string (after trimming whitespace and one
    /// `0x` prefix) into a key; any other digit count fails with
    /// `InvalidLength`, a non-hex digit with `InvalidCharacter`.
    pub fn parse(text: &str) -> (r: Result<Key, Error>)
        ensures
            ({
                let n = hex::normalize(text.spec_bytes());
                &&& (r is Ok <==> n.len() == 16 && hex::hex_only(n))
                &&& (r matches Ok(k) ==> k@ == hex::hex_bits(n))
                &&& (r matches Err(e) ==> {
                    &&& (e == Error::InvalidLength <==> n.len() != 16)
                    &&& (e == Error::InvalidCharacter <==> n.len() == 16 && !hex::hex_only(n))
                })
            }),
    {
        match hex::decode_fixed(text, 64) {
            Ok(bits) => Ok(Key { bits }),
            Err(e) => Err(e),
        }
    }

    /// The uppercase hex text of the key's 64 bits.
    pub fn to_hex(&self) -> (r: String)
        ensures
            r@ == hex::encode_bytes(self@).map_values(|b: u8| b as char),
    {
        proof {
            use_type_invariant(self);
        }
        hex::encode(&self.bits)
    }

    /// The key's bits, most significant first.
    pub fn as_bits(&self) -> (r: &Vec<bool>)
        ensures
            r@ == self@,
            r@.len() == 64,
    {
        proof {
            use_type_invariant(self);
        }
        &self.bits
    }
}

impl Block {
    #[verifier::type_invariant]
    spec fn type_inv(self) -> bool {
        self.bits@.len() == 64
    }

    /// Decodes a 16-digit hex string (after trimming whitespace and one
    /// `0x` prefix) into a block; any other digit count fails with
    /// `InvalidLength`, a non-hex digit with `InvalidCharacter`.
    pub fn parse(text: &str) -> (r: Result<Block, Error>)
        ensures
            ({
                let n = hex::normalize(text.spec_bytes());
                &&& (r is Ok <==> n.len() == 16 && hex::hex_only(n))
                &&& (r matches Ok(b) ==> b@ == hex::hex_bits(n))
                &&& (r matches Err(e) ==> {
                    &&& (e == Error::InvalidLength <==> n.len() != 16)
                    &&& (e == Error::InvalidCharacter <==> n.len() == 16 && !hex::hex_only(n))
                })
            }),
    {
        match hex::decode_fixed(text, 64) {
            Ok(bits) => Ok(Block { bits }),
            Err(e) => Err(e),
        }
    }

    /// The uppercase hex text of the block's 64 bits.
    pub fn to_hex(&self) -> (r: String)
        ensures
            r@ == hex::encode_bytes(self@).map_values(|b: u8| b as char),
    {
        proof {
            use_type_invariant(self);
        }
        hex::encode(&self.bits)
    }

    /// The block's bits, most significant first.
    pub fn as_bits(&self) -> (r: &Vec<bool>)
        ensures
            r@ == self@,
            r@.len() == 64,
    {
        proof {
            use_type_invariant(self);
        }
        &self.bits
    }
}

impl Clone for Key {
    /// Cloning is structural: the copy carries the same bits.
    fn clone(&self) -> (r: Self)
        ensures
            r@ == self@,
    {
        proof {
            use_type_invariant(self);
        }
        Key { bits: copy_bits(&self.bits) }
    }
}

impl Clone for Block {
    /// Cloning is structural: the copy carries the same bits.
    fn clone(&self) -> (r: Self)
        ensures
            r@ == self@,
    {
        proof {
            use_type_invariant(self);
        }
        Block { bits: copy_bits(&self.bits) }
    }
}

impl PartialEq for Key {
    /// Equality is structural: two keys are equal when their bits are.
    fn eq(&self, other: &Self) -> (r: bool) {
        bits_eq(&self.bits, &other.bits)
    }
}

impl vstd::std_specs::cmp::PartialEqSpecImpl for Key {
    open spec fn obeys_eq_spec() -> bool {
        true
    }

    open spec fn eq_spec(&self, other: &Self) -> bool {
        self@ == other@
    }
}

impl PartialEq for Block {
    /// Equality is structural: two blocks are equal when their bits are.
    fn eq(&self, other: &Self) -> (r: bool) {
        bits_eq(&self.bits, &other.bits)
    }
}

impl vstd::std_specs::cmp::PartialEqSpecImpl for Block {
    open spec fn obeys_eq_spec() -> bool {
        true
    }

    open spec fn eq_spec(&self, other: &Self) -> bool {
        self@ == other@
    }
}

} // verus!
