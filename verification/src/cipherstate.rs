//! The cipher state: an AEAD key, present or absent, and the nonce that
//! counts its uses.

use vstd::prelude::*;
use crate::constants::{CIPHERKEYLEN, MAXMSGLEN, TAGLEN};
use crate::crypto_types::CipherType;
use crate::utils::to_vec;

verus! {

/// What a cipher state holds.
pub ghost struct CipherModel {
    pub key: Option<Seq<u8>>,
    pub nonce: u64,
}

impl CipherModel {
    /// The state without a key.
    pub open spec fn empty() -> CipherModel {
        CipherModel { key: None, nonce: 0 }
    }

    /// The state after a key is set: the nonce starts again at zero.
    pub open spec fn initialize_key(self, key: Seq<u8>) -> CipherModel {
        CipherModel { key: Some(key), nonce: 0 }
    }

    pub open spec fn has_key(self) -> bool {
        self.key is Some
    }

    /// Whether the nonce can still be used. The last value of the counter is
    /// never used.
    pub open spec fn usable(self) -> bool {
        self.key is Some ==> self.nonce < u64::MAX
    }

    /// The state with the nonce advanced by one.
    pub open spec fn advance(self) -> CipherModel {
        CipherModel { key: self.key, nonce: (self.nonce + 1) as u64 }
    }

    /// The length of what `encrypt_with_ad` gives for a plaintext of
    /// `len` bytes.
    pub open spec fn sealed_len(self, len: nat) -> nat {
        if self.key is Some {
            len + TAGLEN as nat
        } else {
            len
        }
    }

    /// With a key: the ciphertext under the current nonce, and the nonce
    /// advances. Without a key: the plaintext as it is.
    pub open spec fn encrypt_with_ad<C: CipherType>(self, ad: Seq<u8>, plaintext: Seq<u8>) -> (
        CipherModel,
        Seq<u8>,
    ) {
        match self.key {
            Some(key) => (self.advance(), C::spec_encrypt(key, self.nonce, ad, plaintext)),
            None => (self, plaintext),
        }
    }

    /// With a key: the plaintext where the ciphertext authenticates under
    /// the current nonce, and the nonce advances; `None` where it does not.
    /// Without a key: the ciphertext as it is.
    pub open spec fn decrypt_with_ad<C: CipherType>(self, ad: Seq<u8>, ciphertext: Seq<u8>) -> Option<
        (CipherModel, Seq<u8>),
    > {
        match self.key {
            Some(key) => match C::spec_decrypt(key, self.nonce, ad, ciphertext) {
                Some(plaintext) => Some((self.advance(), plaintext)),
                None => None,
            },
            None => Some((self, ciphertext)),
        }
    }
}

/// An AEAD cipher with its key slot and nonce.
pub struct CipherState<C: CipherType> {
    cipher: C,
    k: [u8; CIPHERKEYLEN],
    n: u64,
    has_key: bool,
}

impl<C: CipherType> View for CipherState<C> {
    type V = CipherModel;

    closed spec fn view(&self) -> CipherModel {
        CipherModel {
            key: if self.has_key {
                Some(self.k@)
            } else {
                None
            },
            nonce: self.n,
        }
    }
}

impl<C: CipherType> CipherState<C> {
    /// A cipher state without a key.
    pub fn new(cipher: C) -> (out: Self)
        ensures
            out@ == CipherModel::empty(),
    {
        CipherState { cipher, k: [0u8; CIPHERKEYLEN], n: 0, has_key: false }
    }

    /// The name of the cipher.
    pub fn name(&self) -> (out: Vec<u8>)
        ensures
            out@ == C::spec_name(),
    {
        self.cipher.name()
    }

    /// Sets the key and resets the nonce to zero.
    pub fn initialize_key(&mut self, key: &[u8; CIPHERKEYLEN])
        ensures
            final(self)@ == old(self)@.initialize_key(key@),
    {
        self.k = *key;
        self.n = 0;
        self.has_key = true;
    }

    /// Removes the key and resets the nonce to zero.
    pub fn clear(&mut self)
        ensures
            final(self)@ == CipherModel::empty(),
    {
        self.k = [0u8; CIPHERKEYLEN];
        self.n = 0;
        self.has_key = false;
    }

    pub fn has_key(&self) -> (out: bool)
        ensures
            out == self@.has_key(),
    {
        self.has_key
    }

    /// The key, where one is set.
    pub fn key(&self) -> (out: Option<[u8; CIPHERKEYLEN]>)
        ensures
            match out {
                Some(key) => self@.key == Some(key@),
                None => self@.key is None,
            },
    {
        if self.has_key {
            Some(self.k)
        } else {
            None
        }
    }

    /// The nonce that the next encryption or decryption uses.
    pub fn nonce(&self) -> (out: u64)
        ensures
            out == self@.nonce,
    {
        self.n
    }

    /// Encrypts `plaintext` with `ad` as associated data. Without a key the
    /// plaintext is returned unchanged.
    pub fn encrypt_with_ad(&mut self, ad: &[u8], plaintext: &[u8]) -> (out: Vec<u8>)
        requires
            old(self)@.usable(),
            ad@.len() <= MAXMSGLEN,
            plaintext@.len() <= MAXMSGLEN,
        ensures
            (final(self)@, out@) == old(self)@.encrypt_with_ad::<C>(ad@, plaintext@),
            out@.len() == old(self)@.sealed_len(plaintext@.len()),
    {
        if self.has_key {
            let out = self.cipher.encrypt(&self.k, self.n, ad, plaintext);
            self.n = self.n + 1;
            out
        } else {
            to_vec(plaintext)
        }
    }

    /// Decrypts `ciphertext` with `ad` as associated data. `None` says that
    /// the ciphertext did not authenticate; the state is then unchanged.
    /// Without a key the ciphertext is returned unchanged.
    pub fn decrypt_with_ad(&mut self, ad: &[u8], ciphertext: &[u8]) -> (out: Option<Vec<u8>>)
        requires
            old(self)@.usable(),
        ensures
            match out {
                Some(plaintext) => {
                    &&& old(self)@.decrypt_with_ad::<C>(ad@, ciphertext@) == Some(
                        (final(self)@, plaintext@),
                    )
                    &&& old(self)@.sealed_len(plaintext@.len()) == ciphertext@.len()
                },
                None => {
                    &&& old(self)@.decrypt_with_ad::<C>(ad@, ciphertext@) is None
                    &&& final(self)@ == old(self)@
                },
            },
    {
        if self.has_key {
            match self.cipher.decrypt(&self.k, self.n, ad, ciphertext) {
                Some(plaintext) => {
                    self.n = self.n + 1;
                    Some(plaintext)
                },
                None => None,
            }
        } else {
            Some(to_vec(ciphertext))
        }
    }
}

} // verus!
