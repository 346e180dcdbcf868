use vstd::prelude::*;
use crate::constants::{CIPHERKEYLEN, DHLEN, MAXBLOCKLEN, MAXHASHLEN, MAXMSGLEN, TAGLEN};

verus! {

/// A source of random bytes.
///
/// Nothing is promised of the bytes: what is done with them is verified for
/// every outcome.
pub trait RandomType {
    /// Overwrites `out` with random bytes.
    fn fill_bytes(&mut self, out: &mut [u8]);
}

/// A Diffie-Hellman key pair.
///
/// `spec_pubkey` and `spec_dh` say what `pubkey` and `dh` compute; they are
/// functions of the key pair (and the peer's key) alone.
pub trait DhType {
    /// The name of the function in a protocol name, such as `25519`.
    spec fn spec_name() -> Seq<u8>;

    /// The public key of this pair.
    spec fn spec_pubkey(&self) -> Seq<u8>;

    /// The secret that this pair shares with the holder of `pubkey`.
    spec fn spec_dh(&self, pubkey: Seq<u8>) -> Seq<u8>;

    fn name(&self) -> (out: Vec<u8>)
        ensures
            out@ == Self::spec_name(),
    ;

    /// Replaces the pair by one drawn from `rng`.
    fn generate<R: RandomType>(&mut self, rng: &mut R);

    fn pubkey(&self) -> (out: [u8; DHLEN])
        ensures
            out@ == self.spec_pubkey(),
    ;

    fn dh(&self, pubkey: &[u8; DHLEN]) -> (out: [u8; DHLEN])
        ensures
            out@ == self.spec_dh(pubkey@),
    ;
}

/// A hash function with `HASHLEN`-byte output and `BLOCKLEN`-byte blocks.
pub trait HashType {
    /// The name of the function in a protocol name, such as `SHA256`.
    spec fn spec_name() -> Seq<u8>;

    spec fn spec_block_len() -> nat;

    spec fn spec_hash_len() -> nat;

    /// The digest of `data`.
    spec fn spec_hash(data: Seq<u8>) -> Seq<u8>;

    fn name(&self) -> (out: Vec<u8>)
        ensures
            out@ == Self::spec_name(),
    ;

    fn block_len(&self) -> (len: usize)
        ensures
            len == Self::spec_block_len(),
            Self::spec_hash_len() <= len <= MAXBLOCKLEN,
    ;

    fn hash_len(&self) -> (len: usize)
        ensures
            len == Self::spec_hash_len(),
            CIPHERKEYLEN <= len <= MAXHASHLEN,
    ;

    fn hash(&self, data: &[u8]) -> (out: Vec<u8>)
        ensures
            out@ == Self::spec_hash(data@),
            out@.len() == Self::spec_hash_len(),
    ;
}

/// An AEAD cipher with a `CIPHERKEYLEN`-byte key, a 64-bit nonce and a
/// `TAGLEN`-byte tag.
pub trait CipherType {
    /// The name of the cipher in a protocol name, such as `ChaChaPoly`.
    spec fn spec_name() -> Seq<u8>;

    /// The ciphertext, tag included.
    spec fn spec_encrypt(key: Seq<u8>, nonce: u64, ad: Seq<u8>, plaintext: Seq<u8>) -> Seq<u8>;

    /// The plaintext, or `None` where the ciphertext does not authenticate.
    spec fn spec_decrypt(key: Seq<u8>, nonce: u64, ad: Seq<u8>, ciphertext: Seq<u8>) -> Option<
        Seq<u8>,
    >;

    fn name(&self) -> (out: Vec<u8>)
        ensures
            out@ == Self::spec_name(),
    ;

    fn encrypt(&self, key: &[u8; CIPHERKEYLEN], nonce: u64, ad: &[u8], plaintext: &[u8]) -> (out:
        Vec<u8>)
        requires
            ad@.len() <= MAXMSGLEN,
            plaintext@.len() <= MAXMSGLEN,
        ensures
            out@ == Self::spec_encrypt(key@, nonce, ad@, plaintext@),
            out@.len() == plaintext@.len() + TAGLEN,
    ;

    fn decrypt(&self, key: &[u8; CIPHERKEYLEN], nonce: u64, ad: &[u8], ciphertext: &[u8]) -> (out:
        Option<Vec<u8>>)
        ensures
            bytes_of(out) == Self::spec_decrypt(key@, nonce, ad@, ciphertext@),
            out matches Some(plaintext) ==> plaintext@.len() + TAGLEN == ciphertext@.len(),
    ;
}

/// The content of an optional byte vector.
pub open spec fn bytes_of(v: Option<Vec<u8>>) -> Option<Seq<u8>> {
    match v {
        Some(bytes) => Some(bytes@),
        None => None,
    }
}

} // verus!
