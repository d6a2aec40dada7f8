//! The keystream mode engine.
//!
//! One invocation of the external block-cipher primitive on the IV under
//! the key yields a single 64-bit keystream block. The input buffer is
//! then partitioned into consecutive 64-bit chunks (the final chunk may be
//! shorter) and each chunk is combined with the keystream, positionally
//! from the keystream's start, by bitwise exclusive-or. The same keystream
//! block is reused, unmodified, for every chunk — a deliberate
//! simplification, not a standard chaining mode, and a known
//! confidentiality weakness for multi-block messages.
//!
//! The primitive is invoked exactly once per transform call, also for a
//! zero-length input (whose output is the empty buffer either way).

use vstd::prelude::*;

use crate::error::Error;
use crate::values::{Block, Key};

verus! {

/// Bit `j` of a byte, most significant first.
pub open spec fn byte_bit(v: u8, j: int) -> bool {
    if j == 0 {
        v & 128 != 0
    } else if j == 1 {
        v & 64 != 0
    } else if j == 2 {
        v & 32 != 0
    } else if j == 3 {
        v & 16 != 0
    } else if j == 4 {
        v & 8 != 0
    } else if j == 5 {
        v & 4 != 0
    } else if j == 6 {
        v & 2 != 0
    } else {
        v & 1 != 0
    }
}

/// The eight bits of a byte, most significant first.
pub open spec fn byte_bits(v: u8) -> Seq<bool> {
    Seq::new(8, |j: int| byte_bit(v, j))
}

/// The bit sequence of a byte sequence, eight bits per byte in byte
/// order, most significant bit of each byte first.
pub open spec fn bits_of_bytes(s: Seq<u8>) -> Seq<bool>
    decreases s.len(),
{
    if s.len() == 0 {
        Seq::empty()
    } else {
        bits_of_bytes(s.drop_last()) + byte_bits(s.last())
    }
}

/// The value of eight bits read most significant first.
pub open spec fn byte_of_bits(b: Seq<bool>) -> u8 {
    ((if b[0] {
        128int
    } else {
        0int
    }) + (if b[1] {
        64int
    } else {
        0int
    }) + (if b[2] {
        32int
    } else {
        0int
    }) + (if b[3] {
        16int
    } else {
        0int
    }) + (if b[4] {
        8int
    } else {
        0int
    }) + (if b[5] {
        4int
    } else {
        0int
    }) + (if b[6] {
        2int
    } else {
        0int
    }) + (if b[7] {
        1int
    } else {
        0int
    })) as u8
}

/// The byte sequence of a bit sequence whose length is a multiple of
/// eight, one byte per group of eight bits.
pub open spec fn bytes_of_bits(b: Seq<bool>) -> Seq<u8>
    decreases b.len(),
{
    if b.len() < 8 {
        Seq::empty()
    } else {
        bytes_of_bits(b.take(b.len() - 8)) + seq![byte_of_bits(b.skip(b.len() - 8))]
    }
}

/// What the external primitive returns for an 8-byte key and an 8-byte
/// block: a value determined by those two arguments alone.
pub uninterp spec fn des_of(key: Seq<u8>, block: Seq<u8>) -> Seq<u8>;

/// The keystream derived from a key and an IV: the primitive's encoding
/// of the IV under the key, read as 64 bits.
pub open spec fn keystream_of(key: Seq<bool>, iv: Seq<bool>) -> Seq<bool> {
    bits_of_bytes(des_of(bytes_of_bits(key), bytes_of_bits(iv)))
}

/// The combination of a buffer with a keystream block: bit `i` of the
/// buffer exclusive-or bit `i % 64` of the keystream, so every full
/// 64-bit chunk, and a shorter final chunk, is combined positionally from
/// the keystream's start.
pub open spec fn xor_stream(b: Seq<bool>, ks: Seq<bool>) -> Seq<bool> {
    Seq::new(b.len(), |i: int| b[i] != ks[i % 64])
}

/// Relies on `des::Des` of the RustCrypto `des` crate (`KeyInit::new`
/// and `BlockCipherEncrypt::encrypt_block`): DES encryption of a single
/// 8-byte block under an 8-byte key; total, and deterministic in the key
/// and block bytes alone.
#[verifier::external_body]
fn primitive_encode(key: &Vec<u8>, block: &Vec<u8>) -> (r: Vec<u8>)
    requires
        key@.len() == 8,
        block@.len() == 8,
    ensures
        r@ == des_of(key@, block@),
        r@.len() == 8,
{
    let cipher: des::Des = <des::Des as des::cipher::KeyInit>::new_from_slice(key).unwrap();
    let mut data: des::cipher::Block<des::Des> =
        des::cipher::array::Array::try_from(block.as_slice()).unwrap();
    des::cipher::BlockCipherEncrypt::encrypt_block(&cipher, &mut data);
    data.to_vec()
}

/// Packs a bit vector whose length is a multiple of eight into bytes.
fn bits_to_bytes(bits: &Vec<bool>) -> (r: Vec<u8>)
    requires
        bits@.len() % 8 == 0,
    ensures
        r@ == bytes_of_bits(bits@),
        8 * r@.len() == bits@.len(),
{
    let mut out: Vec<u8> = Vec::new();
    let mut k: usize = 0;
    proof {
        assert(bits@.take(0) =~= Seq::<bool>::empty());
    }
    while k < bits.len()
        invariant
            0 <= k <= bits@.len(),
            k % 8 == 0,
            bits@.len() % 8 == 0,
            out@ == bytes_of_bits(bits@.take(k as int)),
            8 * out@.len() == k,
        decreases bits@.len() - k,
    {
        let mut v: u8 = 0;
        let mut j: usize = 0;
        proof {
            let w = byte_of_bits(bits@.subrange(k as int, k as int + 8));
            assert((w >> 8u8) as u8 == 0) by (bit_vector);
        }
        while j < 8
            invariant
                0 <= j <= 8,
                k + 8 <= bits@.len() <= usize::MAX,
                v == (byte_of_bits(bits@.subrange(k as int, k as int + 8)) >> ((8 - j)
                    as u8)) as u8,
            decreases 8 - j,
        {
            // building the byte bit by bit, most significant first
            assert(k + j < bits@.len());
            let b = bits[k + j];
            proof {
                let q = bits@.subrange(k as int, k as int + 8);
                assert(q[j as int] == bits@[k as int + j]);
                let w = byte_of_bits(q);
                let jj = j as u8;
                let b0 = q[0];
                let b1 = q[1];
                let b2 = q[2];
                let b3 = q[3];
                let b4 = q[4];
                let b5 = q[5];
                let b6 = q[6];
                let b7 = q[7];
                assert(jj < 8 ==> ((w >> ((8 - jj) as u8)) as u8) * 2 + (if (if jj == 0 {
                    b0
                } else if jj == 1 {
                    b1
                } else if jj == 2 {
                    b2
                } else if jj == 3 {
                    b3
                } else if jj == 4 {
                    b4
                } else if jj == 5 {
                    b5
                } else if jj == 6 {
                    b6
                } else {
                    b7
                }) {
                    1int
                } else {
                    0int
                }) == ((w >> ((7 - jj) as u8)) as u8)) by (bit_vector)
                    requires
                        w == (((if b0 {
                            128int
                        } else {
                            0int
                        }) + (if b1 {
                            64int
                        } else {
                            0int
                        }) + (if b2 {
                            32int
                        } else {
                            0int
                        }) + (if b3 {
                            16int
                        } else {
                            0int
                        }) + (if b4 {
                            8int
                        } else {
                            0int
                        }) + (if b5 {
                            4int
                        } else {
                            0int
                        }) + (if b6 {
                            2int
                        } else {
                            0int
                        }) + (if b7 {
                            1int
                        } else {
                            0int
                        })) as u8),
                ;
            }
            v = v * 2 + (if b {
                1
            } else {
                0
            });
            j += 1;
        }
        proof {
            let q = bits@.subrange(k as int, k as int + 8);
            let w = byte_of_bits(q);
            assert((w >> 0u8) as u8 == w) by (bit_vector);
            assert(v == w);
            let t = bits@.take(k as int + 8);
            assert(t.take(t.len() - 8) =~= bits@.take(k as int));
            assert(t.skip(t.len() - 8) =~= q);
        }
        out.push(v);
        k += 8;
    }
    proof {
        assert(bits@.take(bits@.len() as int) =~= bits@);
    }
    out
}

/// Unpacks bytes into a bit vector, eight bits per byte.
#[verifier::rlimit(50)]
fn bytes_to_bits(bytes: &Vec<u8>) -> (r: Vec<bool>)
    ensures
        r@ == bits_of_bytes(bytes@),
        r@.len() == 8 * bytes@.len(),
{
    let mut out: Vec<bool> = Vec::new();
    let mut i: usize = 0;
    proof {
        assert(bytes@.take(0) =~= Seq::<u8>::empty());
    }
    while i < bytes.len()
        invariant
            0 <= i <= bytes@.len(),
            out@ == bits_of_bytes(bytes@.take(i as int)),
            out@.len() == 8 * i,
        decreases bytes@.len() - i,
    {
        let v = bytes[i];
        out.push(v & 128 != 0);
        out.push(v & 64 != 0);
        out.push(v & 32 != 0);
        out.push(v & 16 != 0);
        out.push(v & 8 != 0);
        out.push(v & 4 != 0);
        out.push(v & 2 != 0);
        out.push(v & 1 != 0);
        proof {
            let t = bytes@.take(i as int + 1);
            assert(t.drop_last() =~= bytes@.take(i as int));
            assert(t.last() == bytes@[i as int]);
            assert(out@ =~= bits_of_bytes(bytes@.take(i as int)) + byte_bits(v));
        }
        i += 1;
    }
    proof {
        assert(bytes@.take(bytes@.len() as int) =~= bytes@);
    }
    out
}

/// Derives the keystream block for a key and an IV by invoking the
/// external primitive once.
fn derive_keystream(key: &Key, iv: &Block) -> (r: Vec<bool>)
    ensures
        r@ == keystream_of(key@, iv@),
        r@.len() == 64,
{
    let key_bytes = bits_to_bytes(key.as_bits());
    let iv_bytes = bits_to_bytes(iv.as_bits());
    let ks_bytes = primitive_encode(&key_bytes, &iv_bytes);
    bytes_to_bits(&ks_bytes)
}

/// Transforms an arbitrary-length bit buffer under a key and an IV:
/// derives the keystream once and combines every chunk of the input with
/// it by exclusive-or. The output has exactly the input's length.
///
/// With the primitive used here the invocation is total, so the call
/// always succeeds; `Err(PrimitiveFailure)` remains the declared failure
/// mode of a failing primitive.
pub fn transform(input: &Vec<bool>, key: &Key, iv: &Block) -> (r: Result<Vec<bool>, Error>)
    ensures
        r is Ok,
        r matches Ok(out) ==> out@ == xor_stream(input@, keystream_of(key@, iv@))
            && out@.len() == input@.len(),
        keystream_of(key@, iv@).len() == 64,
{
    let ks = derive_keystream(key, iv);
    let mut out: Vec<bool> = Vec::new();
    let mut i: usize = 0;
    while i < input.len()
        invariant
            0 <= i <= input@.len(),
            ks@ == keystream_of(key@, iv@),
            ks@.len() == 64,
            out@.len() == i,
            forall|m: int| 0 <= m < i ==> out@[m] == (input@[m] != ks@[m % 64]),
        decreases input@.len() - i,
    {
        out.push(input[i] != ks[i % 64]);
        i += 1;
    }
    proof {
        assert(out@ =~= xor_stream(input@, keystream_of(key@, iv@)));
    }
    Ok(out)
}

/// Law: the transform is an involution — applying it twice with the same
/// key and IV returns the starting buffer, whatever keystream the
/// primitive produced, because exclusive-or with a fixed keystream is
/// self-inverse.
pub proof fn lemma_transform_involution(b: Seq<bool>, key: Seq<bool>, iv: Seq<bool>)
    ensures
        xor_stream(xor_stream(b, keystream_of(key, iv)), keystream_of(key, iv)) == b,
{
    let ks = keystream_of(key, iv);
    assert(xor_stream(xor_stream(b, ks), ks) =~= b);
}

/// Law: the transform preserves length for every input buffer and
/// keystream.
pub proof fn lemma_transform_length(b: Seq<bool>, ks: Seq<bool>)
    ensures
        xor_stream(b, ks).len() == b.len(),
{
}

} // verus!
