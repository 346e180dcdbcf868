use vstd::prelude::*;

verus! {

/// Length in bytes of a Diffie-Hellman public key and of a shared secret.
pub const DHLEN: usize = 32;

/// Length in bytes of the authentication tag that an AEAD appends.
pub const TAGLEN: usize = 16;

/// Length in bytes of a cipher key.
pub const CIPHERKEYLEN: usize = 32;

/// Largest hash output, in bytes, that the library handles.
pub const MAXHASHLEN: usize = 64;

/// Largest hash block, in bytes, that the library handles.
pub const MAXBLOCKLEN: usize = 128;

/// Largest handshake message, in bytes.
pub const MAXMSGLEN: usize = 65535;

} // verus!
