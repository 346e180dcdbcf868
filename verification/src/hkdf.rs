//! HMAC and the key derivation of the Noise framework, over any hash
//! capability.

use vstd::prelude::*;
use crate::crypto_types::HashType;
use crate::utils::to_vec;

verus! {

/// A key laid out over one hash block: each key byte combined with `pad` by
/// exclusive or, and `pad` itself where the key has ended.
pub open spec fn xor_pad(key: Seq<u8>, pad: u8, block_len: nat) -> Seq<u8> {
    Seq::new(
        block_len,
        |i: int|
            if i < key.len() {
                key[i] ^ pad
            } else {
                pad
            },
    )
}

/// The key that HMAC works with: a key longer than a block is hashed first.
pub open spec fn block_key<H: HashType>(key: Seq<u8>) -> Seq<u8> {
    if key.len() > H::spec_block_len() {
        H::spec_hash(key)
    } else {
        key
    }
}

/// HMAC of RFC 2104 over the hash `H`.
pub open spec fn spec_hmac<H: HashType>(key: Seq<u8>, data: Seq<u8>) -> Seq<u8> {
    let k = block_key::<H>(key);
    let inner = H::spec_hash(xor_pad(k, 0x36u8, H::spec_block_len()) + data);
    H::spec_hash(xor_pad(k, 0x5cu8, H::spec_block_len()) + inner)
}

/// The three outputs of the key derivation: an HMAC key is extracted from
/// the chaining key and the input, and each output is the HMAC of the
/// previous one followed by its number.
pub open spec fn spec_hkdf<H: HashType>(chaining_key: Seq<u8>, input: Seq<u8>) -> (
    Seq<u8>,
    Seq<u8>,
    Seq<u8>,
) {
    let temp_key = spec_hmac::<H>(chaining_key, input);
    let output1 = spec_hmac::<H>(temp_key, seq![1u8]);
    let output2 = spec_hmac::<H>(temp_key, output1 + seq![2u8]);
    let output3 = spec_hmac::<H>(temp_key, output2 + seq![3u8]);
    (output1, output2, output3)
}

fn padded_key(key: &Vec<u8>, pad: u8, block_len: usize) -> (out: Vec<u8>)
    requires
        key@.len() <= block_len,
    ensures
        out@ == xor_pad(key@, pad, block_len as nat),
{
    let mut out: Vec<u8> = Vec::new();
    let mut i: usize = 0;
    while i < block_len
        invariant
            i <= block_len,
            out@.len() == i,
            forall|k: int| 0 <= k < i ==> out@[k] == xor_pad(key@, pad, block_len as nat)[k],
        decreases block_len - i,
    {
        if i < key.len() {
            out.push(key[i] ^ pad);
        } else {
            out.push(pad);
        }
        i += 1;
    }
    proof {
        assert(out@ =~= xor_pad(key@, pad, block_len as nat));
    }
    out
}

/// Computes HMAC over the hash of `hasher`.
pub fn hmac<H: HashType>(hasher: &H, key: &[u8], data: &[u8]) -> (out: Vec<u8>)
    ensures
        out@ == spec_hmac::<H>(key@, data@),
        out@.len() == H::spec_hash_len(),
{
    let block_len = hasher.block_len();
    let k = if key.len() > block_len {
        hasher.hash(key)
    } else {
        to_vec(key)
    };
    assert(k@ == block_key::<H>(key@));
    let mut inner_input = padded_key(&k, 0x36u8, block_len);
    inner_input.extend_from_slice(data);
    assert(inner_input@ == xor_pad(k@, 0x36u8, H::spec_block_len()) + data@);
    let inner = hasher.hash(inner_input.as_slice());
    let mut outer_input = padded_key(&k, 0x5cu8, block_len);
    outer_input.extend_from_slice(inner.as_slice());
    assert(outer_input@ == xor_pad(k@, 0x5cu8, H::spec_block_len()) + inner@);
    hasher.hash(outer_input.as_slice())
}

/// Derives two or three outputs of `HASHLEN` bytes each from a chaining key
/// and input key material. With two outputs the third vector is empty.
pub fn hkdf<H: HashType>(hasher: &H, chaining_key: &[u8], input: &[u8], num_outputs: usize) -> (out:
    (Vec<u8>, Vec<u8>, Vec<u8>))
    requires
        num_outputs == 2 || num_outputs == 3,
    ensures
        out.0@ == spec_hkdf::<H>(chaining_key@, input@).0,
        out.1@ == spec_hkdf::<H>(chaining_key@, input@).1,
        num_outputs == 3 ==> out.2@ == spec_hkdf::<H>(chaining_key@, input@).2,
        num_outputs == 2 ==> out.2@.len() == 0,
        out.0@.len() == H::spec_hash_len(),
        out.1@.len() == H::spec_hash_len(),
        num_outputs == 3 ==> out.2@.len() == H::spec_hash_len(),
{
    let temp_key = hmac(hasher, chaining_key, input);
    let one = [1u8];
    let output1 = hmac(hasher, temp_key.as_slice(), &one);
    proof {
        assert(one@ =~= seq![1u8]);
    }
    let mut input2 = to_vec(output1.as_slice());
    input2.push(2u8);
    proof {
        assert(input2@ =~= output1@ + seq![2u8]);
    }
    let output2 = hmac(hasher, temp_key.as_slice(), input2.as_slice());
    if num_outputs == 3 {
        let mut input3 = to_vec(output2.as_slice());
        input3.push(3u8);
        proof {
            assert(input3@ =~= output2@ + seq![3u8]);
        }
        let output3 = hmac(hasher, temp_key.as_slice(), input3.as_slice());
        (output1, output2, output3)
    } else {
        (output1, output2, Vec::new())
    }
}

} // verus!
