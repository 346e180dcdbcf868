//! The handshake core of the Noise Protocol Framework.
//!
//! A `HandshakeState` drives one authenticated key exchange: it mixes the
//! prologue, the optional pre-shared key and the pre-message keys into a
//! `SymmetricState`, processes one row of handshake tokens per message, and
//! at the end splits the chaining key into two transport `CipherState`s.
//!
//! Every executable function carries a contract over a mathematical model of
//! the states (`CipherModel`, `SymmetricModel`, `HandshakeModel`), and
//! `agreement` proves of the model that two parties who run a pattern
//! against each other end with the same hash and the same keys.
//!
//! The cryptographic primitives are reached through the capability traits
//! of `crypto_types`; `primitives` binds them to X25519, SHA-2, BLAKE2,
//! ChaCha20-Poly1305 and AES-256-GCM.

use vstd::prelude::*;

pub mod constants;
pub mod utils;
pub mod crypto_types;
pub mod primitives;
pub mod hkdf;
pub mod cipherstate;
pub mod symmetricstate;
pub mod patterns;
pub mod handshakemodel;
pub mod handshakestate;
pub mod agreement;
