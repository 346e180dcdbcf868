//! The capability traits bound to concrete algorithms: X25519, SHA-2,
//! BLAKE2, ChaCha20-Poly1305 and AES-256-GCM.
//!
//! Each primitive is computed by another crate. Its result is given a name
//! here, and nothing but its length is claimed of it.

use vstd::prelude::*;
use aes_gcm::aead::{Aead, KeyInit, Payload};
use sha2::Digest;
use crate::constants::{CIPHERKEYLEN, DHLEN, MAXMSGLEN, TAGLEN};
use crate::crypto_types::{bytes_of, CipherType, DhType, HashType, RandomType};
use crate::utils::zeros;

verus! {

/// What `x25519_dalek::x25519` returns for the scalar `k` and the point `u`.
pub uninterp spec fn spec_x25519(k: Seq<u8>, u: Seq<u8>) -> Seq<u8>;

/// What `sha2::Sha256::digest` returns.
pub uninterp spec fn spec_sha256(data: Seq<u8>) -> Seq<u8>;

/// What `sha2::Sha512::digest` returns.
pub uninterp spec fn spec_sha512(data: Seq<u8>) -> Seq<u8>;

/// What `blake2::Blake2s256::digest` returns.
pub uninterp spec fn spec_blake2s(data: Seq<u8>) -> Seq<u8>;

/// What `blake2::Blake2b512::digest` returns.
pub uninterp spec fn spec_blake2b(data: Seq<u8>) -> Seq<u8>;

/// What `ChaCha20Poly1305::encrypt` returns on success: ciphertext and tag.
pub uninterp spec fn spec_chachapoly_encrypt(
    key: Seq<u8>,
    nonce: Seq<u8>,
    ad: Seq<u8>,
    plaintext: Seq<u8>,
) -> Seq<u8>;

/// What `ChaCha20Poly1305::decrypt` returns, `None` standing for its error.
pub uninterp spec fn spec_chachapoly_decrypt(
    key: Seq<u8>,
    nonce: Seq<u8>,
    ad: Seq<u8>,
    ciphertext: Seq<u8>,
) -> Option<Seq<u8>>;

/// What `Aes256Gcm::encrypt` returns on success: ciphertext and tag.
pub uninterp spec fn spec_aesgcm_encrypt(
    key: Seq<u8>,
    nonce: Seq<u8>,
    ad: Seq<u8>,
    plaintext: Seq<u8>,
) -> Seq<u8>;

/// What `Aes256Gcm::decrypt` returns, `None` standing for its error.
pub uninterp spec fn spec_aesgcm_decrypt(
    key: Seq<u8>,
    nonce: Seq<u8>,
    ad: Seq<u8>,
    ciphertext: Seq<u8>,
) -> Option<Seq<u8>>;

/// Calls `x25519_dalek::x25519`, the function of RFC 7748 on bytes. The
/// result is a function of the two arguments; nothing else is claimed.
#[verifier::external_body]
fn x25519(k: &[u8; DHLEN], u: &[u8; DHLEN]) -> (out: [u8; DHLEN])
    ensures
        out@ == spec_x25519(k@, u@),
{
    x25519_dalek::x25519(*k, *u)
}

/// Calls `sha2::Sha256::digest`. The digest has 32 bytes.
#[verifier::external_body]
fn sha256(data: &[u8]) -> (out: Vec<u8>)
    ensures
        out@ == spec_sha256(data@),
        out@.len() == 32,
{
    sha2::Sha256::digest(data).to_vec()
}

/// Calls `sha2::Sha512::digest`. The digest has 64 bytes.
#[verifier::external_body]
fn sha512(data: &[u8]) -> (out: Vec<u8>)
    ensures
        out@ == spec_sha512(data@),
        out@.len() == 64,
{
    sha2::Sha512::digest(data).to_vec()
}

/// Calls `blake2::Blake2s256::digest`. The digest has 32 bytes.
#[verifier::external_body]
fn blake2s(data: &[u8]) -> (out: Vec<u8>)
    ensures
        out@ == spec_blake2s(data@),
        out@.len() == 32,
{
    blake2::Blake2s256::digest(data).to_vec()
}

/// Calls `blake2::Blake2b512::digest`. The digest has 64 bytes.
#[verifier::external_body]
fn blake2b(data: &[u8]) -> (out: Vec<u8>)
    ensures
        out@ == spec_blake2b(data@),
        out@.len() == 64,
{
    blake2::Blake2b512::digest(data).to_vec()
}

/// Calls `ChaCha20Poly1305::encrypt` of the crate `chacha20poly1305` with a
/// 12-byte nonce. It fails only on inputs of 2^32 blocks or more, which the
/// precondition leaves out; its result is the plaintext's length plus a
/// 16-byte tag.
#[verifier::external_body]
fn chachapoly_encrypt(key: &[u8; CIPHERKEYLEN], nonce: &[u8; 12], ad: &[u8], plaintext: &[u8]) -> (out:
    Vec<u8>)
    requires
        ad@.len() <= MAXMSGLEN,
        plaintext@.len() <= MAXMSGLEN,
    ensures
        out@ == spec_chachapoly_encrypt(key@, nonce@, ad@, plaintext@),
        out@.len() == plaintext@.len() + TAGLEN,
{
    let cipher = chacha20poly1305::ChaCha20Poly1305::new(key.into());
    cipher.encrypt(nonce.into(), Payload { msg: plaintext, aad: ad }).unwrap_or_default()
}

/// Calls `ChaCha20Poly1305::decrypt` of the crate `chacha20poly1305`. It
/// fails where the input is shorter than a tag or does not authenticate;
/// otherwise the plaintext is the input without its 16-byte tag.
#[verifier::external_body]
fn chachapoly_decrypt(key: &[u8; CIPHERKEYLEN], nonce: &[u8; 12], ad: &[u8], ciphertext: &[u8]) -> (out:
    Option<Vec<u8>>)
    ensures
        bytes_of(out) == spec_chachapoly_decrypt(key@, nonce@, ad@, ciphertext@),
        out matches Some(plaintext) ==> plaintext@.len() + TAGLEN == ciphertext@.len(),
{
    let cipher = chacha20poly1305::ChaCha20Poly1305::new(key.into());
    cipher.decrypt(nonce.into(), Payload { msg: ciphertext, aad: ad }).ok()
}

/// Calls `Aes256Gcm::encrypt` of the crate `aes-gcm` with a 12-byte nonce.
/// It fails only on inputs longer than 2^36 bytes, which the precondition
/// leaves out; its result is the plaintext's length plus a 16-byte tag.
#[verifier::external_body]
fn aesgcm_encrypt(key: &[u8; CIPHERKEYLEN], nonce: &[u8; 12], ad: &[u8], plaintext: &[u8]) -> (out:
    Vec<u8>)
    requires
        ad@.len() <= MAXMSGLEN,
        plaintext@.len() <= MAXMSGLEN,
    ensures
        out@ == spec_aesgcm_encrypt(key@, nonce@, ad@, plaintext@),
        out@.len() == plaintext@.len() + TAGLEN,
{
    let cipher = aes_gcm::Aes256Gcm::new(key.into());
    cipher.encrypt(nonce.into(), Payload { msg: plaintext, aad: ad }).unwrap_or_default()
}

/// Calls `Aes256Gcm::decrypt` of the crate `aes-gcm`. It fails where the
/// input is shorter than a tag or does not authenticate; otherwise the
/// plaintext is the input without its 16-byte tag.
#[verifier::external_body]
fn aesgcm_decrypt(key: &[u8; CIPHERKEYLEN], nonce: &[u8; 12], ad: &[u8], ciphertext: &[u8]) -> (out:
    Option<Vec<u8>>)
    ensures
        bytes_of(out) == spec_aesgcm_decrypt(key@, nonce@, ad@, ciphertext@),
        out matches Some(plaintext) ==> plaintext@.len() + TAGLEN == ciphertext@.len(),
{
    let cipher = aes_gcm::Aes256Gcm::new(key.into());
    cipher.decrypt(nonce.into(), Payload { msg: ciphertext, aad: ad }).ok()
}

/// The `count` low bytes of `n`, least significant first.
pub open spec fn le_bytes(n: nat, count: nat) -> Seq<u8>
    decreases count,
{
    if count == 0 {
        seq![]
    } else {
        seq![(n % 256) as u8] + le_bytes(n / 256, (count - 1) as nat)
    }
}

/// The `count` low bytes of `n`, most significant first.
pub open spec fn be_bytes(n: nat, count: nat) -> Seq<u8>
    decreases count,
{
    if count == 0 {
        seq![]
    } else {
        be_bytes(n / 256, (count - 1) as nat) + seq![(n % 256) as u8]
    }
}

/// The 96-bit nonce of ChaCha20-Poly1305: four zero bytes, then the counter
/// in little-endian order.
pub open spec fn nonce_le(n: u64) -> Seq<u8> {
    zeros(4) + le_bytes(n as nat, 8)
}

/// The 96-bit nonce of AES-GCM: four zero bytes, then the counter in
/// big-endian order.
pub open spec fn nonce_be(n: u64) -> Seq<u8> {
    zeros(4) + be_bytes(n as nat, 8)
}

fn encode_nonce_le(n: u64) -> (out: [u8; 12])
    ensures
        out@ == nonce_le(n),
{
    let mut out = [0u8; 12];
    let mut rest: u64 = n;
    let mut i: usize = 0;
    while i < 8
        invariant
            i <= 8,
            out@.len() == 12,
            out@.take(4) == zeros(4),
            out@.subrange(4, 4 + i as int) + le_bytes(rest as nat, (8 - i) as nat) == le_bytes(
                n as nat,
                8,
            ),
        decreases 8 - i,
    {
        let ghost before = out@;
        out[4 + i] = (rest % 256) as u8;
        proof {
            assert(out@.take(4) =~= before.take(4));
            assert(out@.subrange(4, 4 + i as int + 1) =~= before.subrange(4, 4 + i as int) + seq![
                (rest % 256) as u8,
            ]);
            assert(le_bytes(rest as nat, (8 - i) as nat) == seq![(rest % 256) as u8] + le_bytes(
                (rest / 256) as nat,
                (8 - i - 1) as nat,
            ));
            assert(out@.subrange(4, 4 + i as int + 1) + le_bytes(
                (rest / 256) as nat,
                (8 - i - 1) as nat,
            ) =~= before.subrange(4, 4 + i as int) + le_bytes(rest as nat, (8 - i) as nat));
        }
        rest = rest / 256;
        i += 1;
    }
    proof {
        assert(le_bytes(rest as nat, 0) =~= seq![]);
        assert(out@ =~= out@.take(4) + out@.subrange(4, 12));
        assert(out@.subrange(4, 12) + Seq::<u8>::empty() =~= out@.subrange(4, 12));
    }
    out
}

fn encode_nonce_be(n: u64) -> (out: [u8; 12])
    ensures
        out@ == nonce_be(n),
{
    let mut out = [0u8; 12];
    let mut rest: u64 = n;
    let mut i: usize = 0;
    while i < 8
        invariant
            i <= 8,
            out@.len() == 12,
            out@.take(4) == zeros(4),
            be_bytes(rest as nat, (8 - i) as nat) + out@.subrange(12 - i as int, 12) == be_bytes(
                n as nat,
                8,
            ),
        decreases 8 - i,
    {
        let ghost before = out@;
        out[11 - i] = (rest % 256) as u8;
        proof {
            assert(out@.take(4) =~= before.take(4));
            assert(out@.subrange(11 - i as int, 12) =~= seq![(rest % 256) as u8]
                + before.subrange(12 - i as int, 12));
            assert(be_bytes(rest as nat, (8 - i) as nat) == be_bytes(
                (rest / 256) as nat,
                (8 - i - 1) as nat,
            ) + seq![(rest % 256) as u8]);
            assert(be_bytes((rest / 256) as nat, (8 - i - 1) as nat) + out@.subrange(
                11 - i as int,
                12,
            ) =~= be_bytes(rest as nat, (8 - i) as nat) + before.subrange(12 - i as int, 12));
        }
        rest = rest / 256;
        i += 1;
    }
    proof {
        assert(be_bytes(rest as nat, 0) =~= seq![]);
        assert(out@ =~= out@.take(4) + out@.subrange(4, 12));
        assert(Seq::<u8>::empty() + out@.subrange(4, 12) =~= out@.subrange(4, 12));
    }
    out
}

/// The point that X25519 public keys are multiples of: 9, then zeros.
pub open spec fn spec_basepoint() -> Seq<u8> {
    seq![9u8] + zeros(31)
}

fn basepoint() -> (out: [u8; DHLEN])
    ensures
        out@ == spec_basepoint(),
{
    let mut out = [0u8; DHLEN];
    out[0] = 9u8;
    proof {
        assert(out@ =~= spec_basepoint());
    }
    out
}

/// An X25519 key pair.
pub struct Dh25519 {
    privkey: [u8; DHLEN],
    pubkey: [u8; DHLEN],
}

impl Dh25519 {
    /// The private key of the pair.
    pub closed spec fn spec_privkey(&self) -> Seq<u8> {
        self.privkey@
    }

    /// Whether the public key is the one that belongs to the private key.
    pub open spec fn consistent(&self) -> bool {
        self.spec_pubkey() == spec_x25519(self.spec_privkey(), spec_basepoint())
    }

    /// What `spec_dh` is for this type.
    pub proof fn lemma_spec_dh(&self, pubkey: Seq<u8>)
        ensures
            self.spec_dh(pubkey) == spec_x25519(self.spec_privkey(), pubkey),
    {
    }

    /// A pair of zero keys: a slot to be filled by `generate` or `set`.
    pub fn new() -> (out: Self)
        ensures
            out.spec_privkey() == zeros(DHLEN as nat),
            out.spec_pubkey() == zeros(DHLEN as nat),
    {
        let out = Dh25519 { privkey: [0u8; DHLEN], pubkey: [0u8; DHLEN] };
        proof {
            assert(out.privkey@ =~= zeros(DHLEN as nat));
            assert(out.pubkey@ =~= zeros(DHLEN as nat));
        }
        out
    }

    /// The pair that belongs to a private key.
    pub fn from_private(privkey: [u8; DHLEN]) -> (out: Self)
        ensures
            out.spec_privkey() == privkey@,
            out.consistent(),
    {
        let base = basepoint();
        let pubkey = x25519(&privkey, &base);
        Dh25519 { privkey, pubkey }
    }

    /// Stores a pair as given; the two keys are not checked against each
    /// other.
    pub fn set(&mut self, privkey: &[u8; DHLEN], pubkey: &[u8; DHLEN])
        ensures
            final(self).spec_privkey() == privkey@,
            final(self).spec_pubkey() == pubkey@,
    {
        self.privkey = *privkey;
        self.pubkey = *pubkey;
    }
}

impl DhType for Dh25519 {
    open spec fn spec_name() -> Seq<u8> {
        seq!['2' as u8, '5' as u8, '5' as u8, '1' as u8, '9' as u8]
    }

    closed spec fn spec_pubkey(&self) -> Seq<u8> {
        self.pubkey@
    }

    closed spec fn spec_dh(&self, pubkey: Seq<u8>) -> Seq<u8> {
        spec_x25519(self.privkey@, pubkey)
    }

    fn name(&self) -> (out: Vec<u8>) {
        let out = vec!['2' as u8, '5' as u8, '5' as u8, '1' as u8, '9' as u8];
        proof {
            assert(out@ =~= Self::spec_name());
        }
        out
    }

    /// Draws 32 bytes for the private key and derives the public key.
    fn generate<R: RandomType>(&mut self, rng: &mut R)
        ensures
            final(self).consistent(),
    {
        rng.fill_bytes(&mut self.privkey);
        let base = basepoint();
        self.pubkey = x25519(&self.privkey, &base);
    }

    fn pubkey(&self) -> (out: [u8; DHLEN]) {
        self.pubkey
    }

    fn dh(&self, pubkey: &[u8; DHLEN]) -> (out: [u8; DHLEN]) {
        x25519(&self.privkey, pubkey)
    }
}

/// SHA-256.
pub struct HashSHA256 {}

impl HashType for HashSHA256 {
    open spec fn spec_name() -> Seq<u8> {
        seq!['S' as u8, 'H' as u8, 'A' as u8, '2' as u8, '5' as u8, '6' as u8]
    }

    open spec fn spec_block_len() -> nat {
        64
    }

    open spec fn spec_hash_len() -> nat {
        32
    }

    open spec fn spec_hash(data: Seq<u8>) -> Seq<u8> {
        spec_sha256(data)
    }

    fn name(&self) -> (out: Vec<u8>) {
        let out = vec!['S' as u8, 'H' as u8, 'A' as u8, '2' as u8, '5' as u8, '6' as u8];
        proof {
            assert(out@ =~= Self::spec_name());
        }
        out
    }

    fn block_len(&self) -> (len: usize) {
        64
    }

    fn hash_len(&self) -> (len: usize) {
        32
    }

    fn hash(&self, data: &[u8]) -> (out: Vec<u8>) {
        sha256(data)
    }
}

/// SHA-512.
pub struct HashSHA512 {}

impl HashType for HashSHA512 {
    open spec fn spec_name() -> Seq<u8> {
        seq!['S' as u8, 'H' as u8, 'A' as u8, '5' as u8, '1' as u8, '2' as u8]
    }

    open spec fn spec_block_len() -> nat {
        128
    }

    open spec fn spec_hash_len() -> nat {
        64
    }

    open spec fn spec_hash(data: Seq<u8>) -> Seq<u8> {
        spec_sha512(data)
    }

    fn name(&self) -> (out: Vec<u8>) {
        let out = vec!['S' as u8, 'H' as u8, 'A' as u8, '5' as u8, '1' as u8, '2' as u8];
        proof {
            assert(out@ =~= Self::spec_name());
        }
        out
    }

    fn block_len(&self) -> (len: usize) {
        128
    }

    fn hash_len(&self) -> (len: usize) {
        64
    }

    fn hash(&self, data: &[u8]) -> (out: Vec<u8>) {
        sha512(data)
    }
}

/// BLAKE2s with a 32-byte digest.
pub struct HashBLAKE2s {}

impl HashType for HashBLAKE2s {
    open spec fn spec_name() -> Seq<u8> {
        seq!['B' as u8, 'L' as u8, 'A' as u8, 'K' as u8, 'E' as u8, '2' as u8, 's' as u8]
    }

    open spec fn spec_block_len() -> nat {
        64
    }

    open spec fn spec_hash_len() -> nat {
        32
    }

    open spec fn spec_hash(data: Seq<u8>) -> Seq<u8> {
        spec_blake2s(data)
    }

    fn name(&self) -> (out: Vec<u8>) {
        let out = vec!['B' as u8, 'L' as u8, 'A' as u8, 'K' as u8, 'E' as u8, '2' as u8, 's' as u8];
        proof {
            assert(out@ =~= Self::spec_name());
        }
        out
    }

    fn block_len(&self) -> (len: usize) {
        64
    }

    fn hash_len(&self) -> (len: usize) {
        32
    }

    fn hash(&self, data: &[u8]) -> (out: Vec<u8>) {
        blake2s(data)
    }
}

/// BLAKE2b with a 64-byte digest.
pub struct HashBLAKE2b {}

impl HashType for HashBLAKE2b {
    open spec fn spec_name() -> Seq<u8> {
        seq!['B' as u8, 'L' as u8, 'A' as u8, 'K' as u8, 'E' as u8, '2' as u8, 'b' as u8]
    }

    open spec fn spec_block_len() -> nat {
        128
    }

    open spec fn spec_hash_len() -> nat {
        64
    }

    open spec fn spec_hash(data: Seq<u8>) -> Seq<u8> {
        spec_blake2b(data)
    }

    fn name(&self) -> (out: Vec<u8>) {
        let out = vec!['B' as u8, 'L' as u8, 'A' as u8, 'K' as u8, 'E' as u8, '2' as u8, 'b' as u8];
        proof {
            assert(out@ =~= Self::spec_name());
        }
        out
    }

    fn block_len(&self) -> (len: usize) {
        128
    }

    fn hash_len(&self) -> (len: usize) {
        64
    }

    fn hash(&self, data: &[u8]) -> (out: Vec<u8>) {
        blake2b(data)
    }
}

/// ChaCha20-Poly1305 with the counter as a little-endian nonce.
pub struct CipherChaChaPoly {}

impl CipherType for CipherChaChaPoly {
    open spec fn spec_name() -> Seq<u8> {
        seq![
            'C' as u8,
            'h' as u8,
            'a' as u8,
            'C' as u8,
            'h' as u8,
            'a' as u8,
            'P' as u8,
            'o' as u8,
            'l' as u8,
            'y' as u8,
        ]
    }

    open spec fn spec_encrypt(key: Seq<u8>, nonce: u64, ad: Seq<u8>, plaintext: Seq<u8>) -> Seq<
        u8,
    > {
        spec_chachapoly_encrypt(key, nonce_le(nonce), ad, plaintext)
    }

    open spec fn spec_decrypt(key: Seq<u8>, nonce: u64, ad: Seq<u8>, ciphertext: Seq<u8>) -> Option<
        Seq<u8>,
    > {
        spec_chachapoly_decrypt(key, nonce_le(nonce), ad, ciphertext)
    }

    fn name(&self) -> (out: Vec<u8>) {
        let out = vec![
            'C' as u8,
            'h' as u8,
            'a' as u8,
            'C' as u8,
            'h' as u8,
            'a' as u8,
            'P' as u8,
            'o' as u8,
            'l' as u8,
            'y' as u8,
        ];
        proof {
            assert(out@ =~= Self::spec_name());
        }
        out
    }

    fn encrypt(&self, key: &[u8; CIPHERKEYLEN], nonce: u64, ad: &[u8], plaintext: &[u8]) -> (out:
        Vec<u8>) {
        let nonce_bytes = encode_nonce_le(nonce);
        chachapoly_encrypt(key, &nonce_bytes, ad, plaintext)
    }

    fn decrypt(&self, key: &[u8; CIPHERKEYLEN], nonce: u64, ad: &[u8], ciphertext: &[u8]) -> (out:
        Option<Vec<u8>>) {
        let nonce_bytes = encode_nonce_le(nonce);
        chachapoly_decrypt(key, &nonce_bytes, ad, ciphertext)
    }
}

/// AES-256-GCM with the counter as a big-endian nonce.
pub struct CipherAESGCM {}

impl CipherType for CipherAESGCM {
    open spec fn spec_name() -> Seq<u8> {
        seq!['A' as u8, 'E' as u8, 'S' as u8, 'G' as u8, 'C' as u8, 'M' as u8]
    }

    open spec fn spec_encrypt(key: Seq<u8>, nonce: u64, ad: Seq<u8>, plaintext: Seq<u8>) -> Seq<
        u8,
    > {
        spec_aesgcm_encrypt(key, nonce_be(nonce), ad, plaintext)
    }

    open spec fn spec_decrypt(key: Seq<u8>, nonce: u64, ad: Seq<u8>, ciphertext: Seq<u8>) -> Option<
        Seq<u8>,
    > {
        spec_aesgcm_decrypt(key, nonce_be(nonce), ad, ciphertext)
    }

    fn name(&self) -> (out: Vec<u8>) {
        let out = vec!['A' as u8, 'E' as u8, 'S' as u8, 'G' as u8, 'C' as u8, 'M' as u8];
        proof {
            assert(out@ =~= Self::spec_name());
        }
        out
    }

    fn encrypt(&self, key: &[u8; CIPHERKEYLEN], nonce: u64, ad: &[u8], plaintext: &[u8]) -> (out:
        Vec<u8>) {
        let nonce_bytes = encode_nonce_be(nonce);
        aesgcm_encrypt(key, &nonce_bytes, ad, plaintext)
    }

    fn decrypt(&self, key: &[u8; CIPHERKEYLEN], nonce: u64, ad: &[u8], ciphertext: &[u8]) -> (out:
        Option<Vec<u8>>) {
        let nonce_bytes = encode_nonce_be(nonce);
        aesgcm_decrypt(key, &nonce_bytes, ad, ciphertext)
    }
}

} // verus!
