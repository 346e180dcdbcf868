//! The symmetric state: the transcript hash `h`, the chaining key `ck` and
//! the cipher state that handshake fields are encrypted with.

use vstd::prelude::*;
use vstd::slice::slice_subrange;
use crate::cipherstate::{CipherModel, CipherState};
use crate::constants::{CIPHERKEYLEN, MAXHASHLEN, MAXMSGLEN};
use crate::crypto_types::{CipherType, HashType};
use crate::hkdf::{hkdf, spec_hkdf};
use crate::utils::{push_zeros, to_array32, to_vec, zeros};

verus! {

/// What a symmetric state holds.
pub ghost struct SymmetricModel {
    /// The hash of everything mixed in so far.
    pub h: Seq<u8>,
    /// The chaining key.
    pub ck: Seq<u8>,
    /// The inner cipher state.
    pub cipher: CipherModel,
    /// Whether a pre-shared key was mixed in.
    pub has_preshared_key: bool,
}

impl SymmetricModel {
    /// The state for a protocol name: a name of at most `HASHLEN` bytes is
    /// padded with zeros to give `h`, a longer one is hashed; `ck` starts as
    /// `h`, and there is no key.
    pub open spec fn initialize<H: HashType>(protocol_name: Seq<u8>) -> SymmetricModel {
        let h = if protocol_name.len() <= H::spec_hash_len() {
            protocol_name + zeros((H::spec_hash_len() - protocol_name.len()) as nat)
        } else {
            H::spec_hash(protocol_name)
        };
        SymmetricModel { h, ck: h, cipher: CipherModel::empty(), has_preshared_key: false }
    }

    pub open spec fn has_key(self) -> bool {
        self.cipher.has_key()
    }

    /// `h` becomes the hash of `h` followed by `data`.
    pub open spec fn mix_hash<H: HashType>(self, data: Seq<u8>) -> SymmetricModel {
        SymmetricModel { h: H::spec_hash(self.h + data), ..self }
    }

    /// The key derivation is run on `ck` and `input`: its first output is the
    /// new `ck`, the first 32 bytes of its second the new cipher key.
    pub open spec fn mix_key<H: HashType>(self, input: Seq<u8>) -> SymmetricModel {
        let output = spec_hkdf::<H>(self.ck, input);
        SymmetricModel {
            ck: output.0,
            cipher: self.cipher.initialize_key(output.1.take(CIPHERKEYLEN as int)),
            ..self
        }
    }

    /// The key derivation is run on `ck` and the pre-shared key: its first
    /// output is the new `ck`, its second is mixed into `h`, and the first
    /// 32 bytes of its third are the new cipher key.
    pub open spec fn mix_preshared_key<H: HashType>(self, psk: Seq<u8>) -> SymmetricModel {
        let output = spec_hkdf::<H>(self.ck, psk);
        SymmetricModel {
            h: H::spec_hash(self.h + output.1),
            ck: output.0,
            cipher: self.cipher.initialize_key(output.2.take(CIPHERKEYLEN as int)),
            has_preshared_key: true,
        }
    }

    /// The plaintext is encrypted with `h` as associated data, and what
    /// comes out is mixed into `h`.
    pub open spec fn encrypt_and_hash<H: HashType, C: CipherType>(self, plaintext: Seq<u8>) -> (
        SymmetricModel,
        Seq<u8>,
    ) {
        let (cipher, output) = self.cipher.encrypt_with_ad::<C>(self.h, plaintext);
        (SymmetricModel { cipher, ..self }.mix_hash::<H>(output), output)
    }

    /// The ciphertext is decrypted with `h` as associated data, and the
    /// ciphertext is mixed into `h`; `None` where it does not authenticate.
    pub open spec fn decrypt_and_hash<H: HashType, C: CipherType>(self, ciphertext: Seq<u8>) -> Option<
        (SymmetricModel, Seq<u8>),
    > {
        match self.cipher.decrypt_with_ad::<C>(self.h, ciphertext) {
            Some((cipher, plaintext)) => Some(
                (SymmetricModel { cipher, ..self }.mix_hash::<H>(ciphertext), plaintext),
            ),
            None => None,
        }
    }

    /// The two transport cipher states: the key derivation is run on `ck`
    /// and an empty input, and the first 32 bytes of its first and second
    /// output are their keys.
    pub open spec fn split<H: HashType>(self) -> (CipherModel, CipherModel) {
        let output = spec_hkdf::<H>(self.ck, Seq::<u8>::empty());
        (
            CipherModel::empty().initialize_key(output.0.take(CIPHERKEYLEN as int)),
            CipherModel::empty().initialize_key(output.1.take(CIPHERKEYLEN as int)),
        )
    }
}

/// The chaining key is touched by `mix_key` and `mix_preshared_key` alone,
/// and a key that they set starts its nonce at zero.
pub proof fn lemma_chaining_key_kept<H: HashType, C: CipherType>(
    symmetric: SymmetricModel,
    data: Seq<u8>,
)
    ensures
        symmetric.mix_hash::<H>(data).ck == symmetric.ck,
        symmetric.encrypt_and_hash::<H, C>(data).0.ck == symmetric.ck,
        symmetric.decrypt_and_hash::<H, C>(data) matches Some((next, _)) ==> next.ck
            == symmetric.ck,
        symmetric.mix_key::<H>(data).has_key(),
        symmetric.mix_key::<H>(data).cipher.nonce == 0,
        symmetric.mix_key::<H>(data).h == symmetric.h,
        symmetric.mix_preshared_key::<H>(data).has_key(),
        symmetric.mix_preshared_key::<H>(data).cipher.nonce == 0,
{
}

/// The transcript hash, the chaining key and the handshake cipher.
pub struct SymmetricState<H: HashType, C: CipherType> {
    cipherstate: CipherState<C>,
    hasher: H,
    h: Vec<u8>,
    ck: Vec<u8>,
    has_key: bool,
    has_preshared_key: bool,
}

impl<H: HashType, C: CipherType> View for SymmetricState<H, C> {
    type V = SymmetricModel;

    closed spec fn view(&self) -> SymmetricModel {
        SymmetricModel {
            h: self.h@,
            ck: self.ck@,
            cipher: self.cipherstate@,
            has_preshared_key: self.has_preshared_key,
        }
    }
}

impl<H: HashType, C: CipherType> SymmetricState<H, C> {
    /// `h` and `ck` have `HASHLEN` bytes, and the key flag agrees with the
    /// inner cipher state.
    pub closed spec fn wf(&self) -> bool {
        &&& self.h@.len() == H::spec_hash_len()
        &&& self.ck@.len() == H::spec_hash_len()
        &&& CIPHERKEYLEN <= H::spec_hash_len() <= MAXHASHLEN
        &&& self.has_key == self.cipherstate@.has_key()
    }

    /// What `wf` says of the model.
    pub proof fn lemma_wf(&self)
        requires
            self.wf(),
        ensures
            self@.h.len() == H::spec_hash_len(),
            self@.ck.len() == H::spec_hash_len(),
    {
    }

    /// A state of zeros without a key, to be set up by `initialize`.
    pub fn new(hasher: H, cipher: C) -> (out: Self)
        ensures
            out.wf(),
            out@ == (SymmetricModel {
                h: zeros(H::spec_hash_len()),
                ck: zeros(H::spec_hash_len()),
                cipher: CipherModel::empty(),
                has_preshared_key: false,
            }),
    {
        let hash_len = hasher.hash_len();
        let mut h: Vec<u8> = Vec::new();
        push_zeros(&mut h, hash_len);
        let mut ck: Vec<u8> = Vec::new();
        push_zeros(&mut ck, hash_len);
        proof {
            assert(h@ =~= zeros(H::spec_hash_len()));
            assert(ck@ =~= zeros(H::spec_hash_len()));
        }
        SymmetricState {
            cipherstate: CipherState::new(cipher),
            hasher,
            h,
            ck,
            has_key: false,
            has_preshared_key: false,
        }
    }

    /// The name of the cipher.
    pub fn cipher_name(&self) -> (out: Vec<u8>)
        ensures
            out@ == C::spec_name(),
    {
        self.cipherstate.name()
    }

    /// The name of the hash function.
    pub fn hash_name(&self) -> (out: Vec<u8>)
        ensures
            out@ == H::spec_name(),
    {
        self.hasher.name()
    }

    /// Starts the state over for a protocol name.
    pub fn initialize(&mut self, protocol_name: &[u8])
        ensures
            final(self).wf(),
            final(self)@ == SymmetricModel::initialize::<H>(protocol_name@),
    {
        let hash_len = self.hasher.hash_len();
        if protocol_name.len() <= hash_len {
            let mut h = to_vec(protocol_name);
            push_zeros(&mut h, hash_len - protocol_name.len());
            self.h = h;
        } else {
            self.h = self.hasher.hash(protocol_name);
        }
        self.ck = to_vec(self.h.as_slice());
        self.cipherstate.clear();
        self.has_key = false;
        self.has_preshared_key = false;
    }

    /// Mixes `data` into the transcript hash.
    pub fn mix_hash(&mut self, data: &[u8])
        requires
            old(self).wf(),
        ensures
            final(self).wf(),
            final(self)@ == old(self)@.mix_hash::<H>(data@),
    {
        let mut input = to_vec(self.h.as_slice());
        input.extend_from_slice(data);
        assert(input@ == old(self)@.h + data@);
        self.h = self.hasher.hash(input.as_slice());
    }

    /// Mixes key material into the chaining key and sets a new cipher key.
    pub fn mix_key(&mut self, input: &[u8])
        requires
            old(self).wf(),
        ensures
            final(self).wf(),
            final(self)@ == old(self)@.mix_key::<H>(input@),
    {
        let output = hkdf(&self.hasher, self.ck.as_slice(), input, 2);
        let key = to_array32(slice_subrange(output.1.as_slice(), 0, CIPHERKEYLEN));
        self.ck = output.0;
        self.cipherstate.initialize_key(&key);
        self.has_key = true;
    }

    /// Mixes a pre-shared key into the chaining key and the transcript hash
    /// and sets a new cipher key.
    pub fn mix_preshared_key(&mut self, psk: &[u8])
        requires
            old(self).wf(),
        ensures
            final(self).wf(),
            final(self)@ == old(self)@.mix_preshared_key::<H>(psk@),
    {
        let output = hkdf(&self.hasher, self.ck.as_slice(), psk, 3);
        let key = to_array32(slice_subrange(output.2.as_slice(), 0, CIPHERKEYLEN));
        self.ck = output.0;
        self.mix_hash(output.1.as_slice());
        self.cipherstate.initialize_key(&key);
        self.has_key = true;
        self.has_preshared_key = true;
    }

    pub fn has_key(&self) -> (out: bool)
        requires
            self.wf(),
        ensures
            out == self@.has_key(),
    {
        self.has_key
    }

    pub fn has_preshared_key(&self) -> (out: bool)
        ensures
            out == self@.has_preshared_key,
    {
        self.has_preshared_key
    }

    /// The transcript hash.
    pub fn handshake_hash(&self) -> (out: Vec<u8>)
        ensures
            out@ == self@.h,
    {
        to_vec(self.h.as_slice())
    }

    /// The chaining key.
    pub fn chaining_key(&self) -> (out: Vec<u8>)
        ensures
            out@ == self@.ck,
    {
        to_vec(self.ck.as_slice())
    }

    /// The nonce that the next handshake field is encrypted with.
    pub fn nonce(&self) -> (out: u64)
        ensures
            out == self@.cipher.nonce,
    {
        self.cipherstate.nonce()
    }

    /// Encrypts `plaintext`, where there is a key, and mixes the result into
    /// the transcript hash.
    pub fn encrypt_and_hash(&mut self, plaintext: &[u8]) -> (out: Vec<u8>)
        requires
            old(self).wf(),
            old(self)@.cipher.usable(),
            plaintext@.len() <= MAXMSGLEN,
        ensures
            final(self).wf(),
            (final(self)@, out@) == old(self)@.encrypt_and_hash::<H, C>(plaintext@),
            out@.len() == old(self)@.cipher.sealed_len(plaintext@.len()),
    {
        let out = self.cipherstate.encrypt_with_ad(self.h.as_slice(), plaintext);
        self.mix_hash(out.as_slice());
        out
    }

    /// Decrypts `ciphertext`, where there is a key, and mixes the ciphertext
    /// into the transcript hash. `None` says that it did not authenticate;
    /// the state is then unchanged.
    pub fn decrypt_and_hash(&mut self, ciphertext: &[u8]) -> (out: Option<Vec<u8>>)
        requires
            old(self).wf(),
            old(self)@.cipher.usable(),
        ensures
            final(self).wf(),
            match out {
                Some(plaintext) => {
                    &&& old(self)@.decrypt_and_hash::<H, C>(ciphertext@) == Some(
                        (final(self)@, plaintext@),
                    )
                    &&& old(self)@.cipher.sealed_len(plaintext@.len()) == ciphertext@.len()
                },
                None => {
                    &&& old(self)@.decrypt_and_hash::<H, C>(ciphertext@) is None
                    &&& final(self)@ == old(self)@
                },
            },
    {
        match self.cipherstate.decrypt_with_ad(self.h.as_slice(), ciphertext) {
            Some(plaintext) => {
                self.mix_hash(ciphertext);
                Some(plaintext)
            },
            None => None,
        }
    }

    /// Derives the two transport keys and sets them in `child1`, `child2`.
    pub fn split(&self, child1: &mut CipherState<C>, child2: &mut CipherState<C>)
        requires
            self.wf(),
        ensures
            (final(child1)@, final(child2)@) == self@.split::<H>(),
    {
        let empty: [u8; 0] = [];
        let output = hkdf(&self.hasher, self.ck.as_slice(), &empty, 2);
        proof {
            assert(empty@ =~= Seq::<u8>::empty());
        }
        let key1 = to_array32(slice_subrange(output.0.as_slice(), 0, CIPHERKEYLEN));
        let key2 = to_array32(slice_subrange(output.1.as_slice(), 0, CIPHERKEYLEN));
        child1.initialize_key(&key1);
        child2.initialize_key(&key2);
    }
}

} // verus!
