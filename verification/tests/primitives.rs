use noise_handshake::cipherstate::CipherState;
use noise_handshake::constants::{CIPHERKEYLEN, DHLEN, MAXBLOCKLEN, MAXHASHLEN, TAGLEN};
use noise_handshake::crypto_types::{CipherType, DhType, HashType, RandomType};
use noise_handshake::hkdf::{hkdf, hmac};
use noise_handshake::primitives::{
    CipherAESGCM, CipherChaChaPoly, Dh25519, HashBLAKE2b, HashBLAKE2s, HashSHA256, HashSHA512,
};
use noise_handshake::symmetricstate::SymmetricState;
use noise_handshake::utils::{copy_memory, push_zeros, to_array32, to_vec};

// Known answers, computed with the hashlib and hmac modules of Python and
// with its `cryptography` package.

const KEY: [u8; 32] = [
    0x00, 0x01, 0x02, 0x03, 0x04, 0x05, 0x06, 0x07, 0x08, 0x09, 0x0a, 0x0b, 0x0c, 0x0d, 0x0e, 0x0f,
    0x10, 0x11, 0x12, 0x13, 0x14, 0x15, 0x16, 0x17, 0x18, 0x19, 0x1a, 0x1b, 0x1c, 0x1d, 0x1e, 0x1f,
];

const HMAC_SHA256_RFC4231_1: [u8; 32] = [
    0xb0, 0x34, 0x4c, 0x61, 0xd8, 0xdb, 0x38, 0x53, 0x5c, 0xa8, 0xaf, 0xce, 0xaf, 0x0b, 0xf1, 0x2b,
    0x88, 0x1d, 0xc2, 0x00, 0xc9, 0x83, 0x3d, 0xa7, 0x26, 0xe9, 0x37, 0x6c, 0x2e, 0x32, 0xcf, 0xf7,
];

const HMAC_SHA256_LONG_KEY: [u8; 32] = [
    0x60, 0xe4, 0x31, 0x59, 0x1e, 0xe0, 0xb6, 0x7f, 0x0d, 0x8a, 0x26, 0xaa, 0xcb, 0xf5, 0xb7, 0x7f,
    0x8e, 0x0b, 0xc6, 0x21, 0x37, 0x28, 0xc5, 0x14, 0x05, 0x46, 0x04, 0x0f, 0x0e, 0xe3, 0x7f, 0x54,
];

const HMAC_BLAKE2B: [u8; 64] = [
    0xaf, 0x6f, 0xbd, 0x4c, 0x9b, 0x7f, 0xeb, 0xd3, 0x47, 0x8f, 0xd8, 0x31, 0x55, 0xf9, 0xae, 0xd5,
    0x83, 0xfd, 0x9a, 0xf0, 0x68, 0xcd, 0x54, 0x7c, 0x11, 0x26, 0x5c, 0x46, 0xbf, 0x1e, 0xad, 0x78,
    0x52, 0x28, 0xf4, 0x51, 0xe3, 0xce, 0xc2, 0x4a, 0xfc, 0x6a, 0xb7, 0x8e, 0xc7, 0x42, 0x4b, 0x78,
    0x28, 0xe0, 0x1c, 0x4a, 0xfc, 0xdc, 0x70, 0x38, 0xce, 0xc7, 0xc3, 0x60, 0x01, 0x61, 0x1f, 0x4c,
];

const HKDF_SHA256_1: [u8; 32] = [
    0x78, 0x5d, 0xba, 0x36, 0xcf, 0xf1, 0xfc, 0xf5, 0x91, 0xf8, 0x12, 0xfa, 0x0b, 0x2b, 0xad, 0xe8,
    0x07, 0xaf, 0x9e, 0x50, 0xd2, 0xa9, 0x6c, 0xaf, 0x28, 0xd3, 0xc9, 0xa2, 0x85, 0x55, 0x85, 0x49,
];

const HKDF_SHA256_2: [u8; 32] = [
    0x8b, 0x4e, 0x05, 0xec, 0x15, 0x3f, 0x03, 0xcf, 0x90, 0x6c, 0x30, 0x5b, 0x98, 0x19, 0x02, 0xe2,
    0xaf, 0x26, 0xae, 0x29, 0x66, 0x39, 0x7b, 0xb4, 0x39, 0x88, 0xc4, 0xab, 0x28, 0xf3, 0xaa, 0xe1,
];

const HKDF_SHA256_3: [u8; 32] = [
    0x35, 0xef, 0xfd, 0x0e, 0x30, 0xe4, 0x48, 0x66, 0xf9, 0x08, 0x54, 0xf4, 0x8e, 0xe8, 0x0a, 0xe3,
    0x24, 0xd8, 0x56, 0xc3, 0xee, 0x9d, 0xdd, 0xe0, 0xe8, 0x73, 0x65, 0xac, 0xf4, 0xae, 0xee, 0xed,
];

const HASH_SHA256_ABC: [u8; 32] = [
    0xba, 0x78, 0x16, 0xbf, 0x8f, 0x01, 0xcf, 0xea, 0x41, 0x41, 0x40, 0xde, 0x5d, 0xae, 0x22, 0x23,
    0xb0, 0x03, 0x61, 0xa3, 0x96, 0x17, 0x7a, 0x9c, 0xb4, 0x10, 0xff, 0x61, 0xf2, 0x00, 0x15, 0xad,
];

const HKDF_SHA512_1: [u8; 64] = [
    0x01, 0x52, 0x06, 0xeb, 0xe0, 0x1b, 0xb5, 0x08, 0xcb, 0xbd, 0x8f, 0x5f, 0x1c, 0x71, 0xa8, 0xa3,
    0xda, 0x42, 0xc6, 0x71, 0x64, 0xab, 0xce, 0x53, 0x99, 0x78, 0x89, 0xea, 0xa9, 0xbb, 0x5b, 0xf6,
    0xdb, 0xc4, 0x4b, 0x6f, 0xf1, 0xe5, 0x17, 0x6a, 0xc4, 0x7c, 0x65, 0xc2, 0x20, 0x9f, 0x6a, 0x34,
    0xab, 0x76, 0xd6, 0xb0, 0x43, 0xe7, 0x45, 0x83, 0x09, 0x7b, 0x07, 0x5b, 0xa9, 0xf7, 0x09, 0x94,
];

const HKDF_SHA512_2: [u8; 64] = [
    0x33, 0x3d, 0xab, 0x72, 0x4e, 0xa8, 0x1e, 0xcc, 0xda, 0xb8, 0xdc, 0x71, 0x3c, 0x66, 0xec, 0xd0,
    0x6e, 0x3b, 0xa1, 0xec, 0xd9, 0x6c, 0xc7, 0x53, 0x59, 0x20, 0x9a, 0xae, 0x6a, 0xbf, 0x6e, 0x2d,
    0x50, 0xc4, 0x36, 0x26, 0x11, 0x24, 0xad, 0x33, 0xda, 0x3e, 0xcd, 0x3f, 0xa4, 0x86, 0xf4, 0xdc,
    0xc9, 0x56, 0x14, 0x4c, 0x60, 0x71, 0xe8, 0x0a, 0xff, 0xcf, 0x73, 0x05, 0x26, 0x9b, 0xd2, 0x99,
];

const HKDF_SHA512_3: [u8; 64] = [
    0xfb, 0x9a, 0x36, 0x17, 0x51, 0x0e, 0xf7, 0x94, 0x7c, 0xeb, 0x6f, 0x5b, 0x98, 0x77, 0xe2, 0x18,
    0x31, 0xde, 0x04, 0xb6, 0xdc, 0xae, 0xf7, 0x89, 0xc7, 0xde, 0x6d, 0xdb, 0xd9, 0x9d, 0x09, 0xa2,
    0x4f, 0x3e, 0x80, 0x55, 0x4d, 0xf8, 0xed, 0x3b, 0x9f, 0xa6, 0x15, 0xaf, 0x1b, 0x98, 0x5d, 0xec,
    0xaa, 0x66, 0xa4, 0x8d, 0x5d, 0x38, 0xcf, 0xf5, 0xea, 0x86, 0x78, 0x95, 0xb3, 0xd2, 0x40, 0x2c,
];

const HASH_SHA512_ABC: [u8; 64] = [
    0xdd, 0xaf, 0x35, 0xa1, 0x93, 0x61, 0x7a, 0xba, 0xcc, 0x41, 0x73, 0x49, 0xae, 0x20, 0x41, 0x31,
    0x12, 0xe6, 0xfa, 0x4e, 0x89, 0xa9, 0x7e, 0xa2, 0x0a, 0x9e, 0xee, 0xe6, 0x4b, 0x55, 0xd3, 0x9a,
    0x21, 0x92, 0x99, 0x2a, 0x27, 0x4f, 0xc1, 0xa8, 0x36, 0xba, 0x3c, 0x23, 0xa3, 0xfe, 0xeb, 0xbd,
    0x45, 0x4d, 0x44, 0x23, 0x64, 0x3c, 0xe8, 0x0e, 0x2a, 0x9a, 0xc9, 0x4f, 0xa5, 0x4c, 0xa4, 0x9f,
];

const HKDF_BLAKE2S_1: [u8; 32] = [
    0x93, 0xe2, 0xa6, 0x58, 0x83, 0xe3, 0x4a, 0xc9, 0x54, 0x85, 0xf5, 0xd0, 0xaa, 0x4b, 0x09, 0x16,
    0x3a, 0x4e, 0x94, 0x4d, 0xab, 0x8c, 0xf9, 0x40, 0x6d, 0x3a, 0x13, 0x8e, 0x36, 0x28, 0x51, 0xc6,
];

const HKDF_BLAKE2S_2: [u8; 32] = [
    0xdd, 0x6f, 0xae, 0x42, 0xaf, 0xdb, 0x2a, 0x41, 0x17, 0x0f, 0x44, 0xdc, 0x5b, 0x88, 0x5e, 0xc4,
    0xcf, 0xd1, 0x7c, 0x8d, 0xd3, 0x24, 0xd3, 0x8b, 0x39, 0x0c, 0x54, 0x86, 0x30, 0xdd, 0x0a, 0x83,
];

const HKDF_BLAKE2S_3: [u8; 32] = [
    0x41, 0x25, 0xe0, 0xad, 0xfa, 0x9b, 0x7e, 0x73, 0x66, 0x15, 0xe9, 0x9d, 0xde, 0x6f, 0x3f, 0x0b,
    0x64, 0xb9, 0x49, 0xd8, 0xb4, 0x80, 0xe8, 0x2c, 0xab, 0x2e, 0x68, 0x5d, 0xc2, 0x86, 0xe4, 0x5d,
];

const HASH_BLAKE2S_ABC: [u8; 32] = [
    0x50, 0x8c, 0x5e, 0x8c, 0x32, 0x7c, 0x14, 0xe2, 0xe1, 0xa7, 0x2b, 0xa3, 0x4e, 0xeb, 0x45, 0x2f,
    0x37, 0x45, 0x8b, 0x20, 0x9e, 0xd6, 0x3a, 0x29, 0x4d, 0x99, 0x9b, 0x4c, 0x86, 0x67, 0x59, 0x82,
];

const HKDF_BLAKE2B_1: [u8; 64] = [
    0xa9, 0x4e, 0xc1, 0xce, 0xaa, 0x5a, 0xc0, 0x28, 0x0e, 0xaf, 0xc9, 0x79, 0x80, 0x00, 0x3e, 0x40,
    0x19, 0x17, 0x6e, 0x4b, 0xf7, 0xc9, 0x14, 0xc4, 0x5f, 0xb0, 0xbb, 0xda, 0x0b, 0x22, 0xa9, 0x95,
    0x4d, 0x01, 0xf3, 0x69, 0x7b, 0xbf, 0x32, 0x81, 0x7e, 0xd0, 0xfc, 0xcb, 0xf6, 0xdd, 0x1e, 0xbd,
    0x24, 0xc0, 0xb0, 0x56, 0x11, 0x05, 0x1e, 0x63, 0xdc, 0x56, 0xe1, 0x31, 0xaf, 0x4f, 0x7c, 0x10,
];

const HKDF_BLAKE2B_2: [u8; 64] = [
    0xf9, 0xd8, 0x3f, 0x6c, 0x5d, 0x34, 0x69, 0x55, 0x29, 0xeb, 0x8e, 0x35, 0xc8, 0xa2, 0xed, 0x78,
    0x65, 0x80, 0x92, 0xe7, 0xc3, 0xb3, 0x8f, 0xdf, 0x0c, 0xea, 0x2a, 0x20, 0x96, 0xb6, 0xf6, 0xe5,
    0x42, 0xaf, 0x64, 0x4e, 0x29, 0x85, 0x08, 0xf3, 0x7d, 0xa0, 0x88, 0x60, 0xdb, 0x28, 0x5a, 0x8a,
    0xd4, 0xb6, 0x04, 0xc1, 0xf1, 0x60, 0xf2, 0x33, 0x56, 0xdf, 0x6b, 0x28, 0xc1, 0x83, 0x50, 0x8d,
];

const HKDF_BLAKE2B_3: [u8; 64] = [
    0xbb, 0x6f, 0x14, 0xb6, 0x45, 0xba, 0xc5, 0xdd, 0x79, 0xc9, 0x8c, 0xe5, 0x83, 0xe3, 0x35, 0x7b,
    0x43, 0xb4, 0x31, 0xc2, 0x24, 0x00, 0xc9, 0xb7, 0x9d, 0x69, 0x0c, 0x1d, 0x2f, 0xe2, 0xd3, 0x91,
    0xab, 0x83, 0x72, 0xb0, 0xb0, 0x85, 0x53, 0xb5, 0x6e, 0x80, 0x2d, 0xc6, 0xba, 0xda, 0xce, 0x75,
    0x39, 0x8c, 0x1b, 0x8a, 0x97, 0x3d, 0x0a, 0xab, 0x18, 0xd8, 0x57, 0xd4, 0x31, 0xc3, 0xa4, 0x8f,
];

const HASH_BLAKE2B_ABC: [u8; 64] = [
    0xba, 0x80, 0xa5, 0x3f, 0x98, 0x1c, 0x4d, 0x0d, 0x6a, 0x27, 0x97, 0xb6, 0x9f, 0x12, 0xf6, 0xe9,
    0x4c, 0x21, 0x2f, 0x14, 0x68, 0x5a, 0xc4, 0xb7, 0x4b, 0x12, 0xbb, 0x6f, 0xdb, 0xff, 0xa2, 0xd1,
    0x7d, 0x87, 0xc5, 0x39, 0x2a, 0xab, 0x79, 0x2d, 0xc2, 0x52, 0xd5, 0xde, 0x45, 0x33, 0xcc, 0x95,
    0x18, 0xd3, 0x8a, 0xa8, 0xdb, 0xf1, 0x92, 0x5a, 0xb9, 0x23, 0x86, 0xed, 0xd4, 0x00, 0x99, 0x23,
];

const CHACHA_N0: [u8; 31] = [
    0x68, 0xd4, 0x23, 0x58, 0xc3, 0x92, 0xc3, 0xa9, 0x67, 0x41, 0x3e, 0x18, 0xdb, 0x26, 0x3d, 0x25,
    0x72, 0xb0, 0x18, 0x84, 0x8b, 0xdf, 0xbd, 0xa3, 0xed, 0x41, 0x48, 0xb7, 0x34, 0x9c, 0xb2,
];

const AESGCM_N0: [u8; 31] = [
    0x7e, 0xd0, 0xd4, 0xb7, 0xdb, 0x58, 0xe6, 0xc5, 0x7c, 0x88, 0xcb, 0x4c, 0x6c, 0x49, 0xe2, 0xca,
    0xa6, 0xf8, 0x37, 0xea, 0x2c, 0x58, 0x2c, 0xe9, 0xb5, 0x7d, 0xa5, 0x11, 0x2d, 0xf1, 0x00,
];

const CHACHA_N1: [u8; 31] = [
    0xef, 0x3b, 0x92, 0x36, 0xdb, 0x5e, 0xca, 0x60, 0x5d, 0x96, 0xcc, 0x25, 0x26, 0xf0, 0xea, 0x0a,
    0x17, 0xeb, 0x2b, 0x7b, 0xdb, 0x0c, 0xb2, 0x78, 0xb8, 0x2d, 0x40, 0xbe, 0xad, 0x27, 0x34,
];

const AESGCM_N1: [u8; 31] = [
    0x65, 0xba, 0xde, 0x95, 0x2a, 0x80, 0x55, 0x66, 0x7a, 0x0e, 0x33, 0x40, 0x98, 0xc3, 0x49, 0x19,
    0x5e, 0x72, 0x8f, 0x8e, 0x57, 0xc7, 0x53, 0x95, 0x80, 0xa2, 0x66, 0xf1, 0x5e, 0x2c, 0xc6,
];

const CHACHA_N102030405060708: [u8; 31] = [
    0x80, 0x25, 0xcc, 0x8d, 0xc5, 0x4d, 0x8f, 0x60, 0x10, 0x8b, 0x48, 0xb5, 0x07, 0x1d, 0x12, 0x74,
    0xe3, 0xd3, 0xf6, 0x6f, 0x21, 0x8f, 0x6f, 0x87, 0x19, 0xf0, 0x61, 0xdf, 0x3d, 0x72, 0xd6,
];

const AESGCM_N102030405060708: [u8; 31] = [
    0x74, 0x3d, 0x04, 0x67, 0xb3, 0x95, 0x6c, 0xe6, 0x77, 0xbf, 0x9f, 0x96, 0x6a, 0x02, 0x4a, 0xe4,
    0x04, 0x3b, 0xae, 0xfc, 0x6f, 0xf2, 0xf5, 0x4e, 0x49, 0x4c, 0x45, 0x39, 0x9d, 0xa3, 0x61,
];

const SYM_SHORT_H: [u8; 32] = [
    0x4e, 0x6f, 0x69, 0x73, 0x65, 0x5f, 0x74, 0x65, 0x73, 0x74, 0x00, 0x00, 0x00, 0x00, 0x00, 0x00,
    0x00, 0x00, 0x00, 0x00, 0x00, 0x00, 0x00, 0x00, 0x00, 0x00, 0x00, 0x00, 0x00, 0x00, 0x00, 0x00,
];

const SYM_MIX_HASH: [u8; 32] = [
    0xec, 0x19, 0xf7, 0x9c, 0xc1, 0x6c, 0x74, 0xa9, 0xed, 0x13, 0xc1, 0x73, 0x1c, 0x85, 0xf7, 0x9c,
    0xdf, 0xec, 0x16, 0xcd, 0xa0, 0x7c, 0xdc, 0x5f, 0x22, 0x4e, 0x8c, 0xbd, 0x6b, 0x1e, 0xee, 0xc2,
];

const SYM_MIX_KEY_CK: [u8; 32] = [
    0x1e, 0xa4, 0x9d, 0x2e, 0x01, 0x61, 0x42, 0xa6, 0x3f, 0xcf, 0x05, 0x21, 0x0b, 0x66, 0xe5, 0xd4,
    0x4f, 0xaf, 0xcc, 0xe0, 0xb1, 0x8a, 0x2c, 0xa0, 0x45, 0x8e, 0xef, 0x03, 0x86, 0x39, 0xfb, 0x63,
];

const SYM_MIX_KEY_K: [u8; 32] = [
    0x44, 0xe3, 0x61, 0x75, 0xae, 0x63, 0x9b, 0x6c, 0x0f, 0x47, 0x8d, 0xc6, 0x2b, 0x77, 0x9a, 0x61,
    0x50, 0x67, 0xe5, 0x39, 0xbc, 0x6b, 0x83, 0x70, 0x5f, 0x9f, 0x52, 0x07, 0x16, 0x2c, 0x4c, 0xca,
];

const SYM_ENC: [u8; 22] = [
    0xbe, 0x6c, 0x5d, 0x47, 0x6d, 0xcb, 0xb6, 0xb5, 0xe3, 0xbb, 0xbf, 0x74, 0xbc, 0xa0, 0x00, 0x22,
    0xe7, 0x8f, 0xc5, 0x78, 0x7b, 0x4b,
];

const SYM_ENC_H: [u8; 32] = [
    0xb1, 0x34, 0xfc, 0xa6, 0x1b, 0x2b, 0xd8, 0x80, 0x43, 0x4a, 0xda, 0xc6, 0xf7, 0x8c, 0xc8, 0x4d,
    0x60, 0x01, 0x0c, 0xec, 0x9c, 0x6e, 0x8d, 0x1a, 0x76, 0x82, 0x52, 0xa6, 0x6b, 0x1e, 0xf9, 0xfc,
];

const SYM_SPLIT_1: [u8; 32] = [
    0xf1, 0x22, 0xd6, 0xa3, 0x38, 0x45, 0x6c, 0xa7, 0x84, 0x9f, 0x5b, 0xfc, 0x65, 0x4f, 0xcd, 0x5a,
    0x6e, 0xf3, 0x54, 0x19, 0x4d, 0x88, 0x7b, 0xb9, 0x8b, 0xdb, 0x94, 0xac, 0x0e, 0x08, 0x20, 0x63,
];

const SYM_SPLIT_2: [u8; 32] = [
    0x8f, 0xd0, 0x39, 0xef, 0xe4, 0xbc, 0x08, 0x5c, 0xd1, 0x0c, 0xd8, 0x33, 0x65, 0xde, 0xaa, 0x14,
    0x94, 0x25, 0xf0, 0xc1, 0xa3, 0xf9, 0xb7, 0x61, 0xc8, 0x36, 0xc6, 0xd0, 0x91, 0x65, 0xb0, 0x7a,
];

const SYM_LONG_H: [u8; 32] = [
    0xed, 0xaa, 0x4d, 0x00, 0x29, 0x3f, 0x03, 0xfe, 0x4b, 0xe6, 0xff, 0x0a, 0x97, 0xe5, 0xd6, 0x16,
    0x7b, 0x80, 0x8c, 0x7f, 0xd7, 0x63, 0x0b, 0x11, 0x79, 0x68, 0x06, 0x74, 0xc3, 0xe2, 0x97, 0x68,
];

const SYM_PSK_H: [u8; 32] = [
    0xdc, 0xd6, 0x8f, 0xb6, 0xb9, 0xfa, 0x40, 0xdb, 0xfd, 0x3d, 0x4a, 0xe1, 0xbc, 0xe1, 0xfb, 0x1c,
    0x45, 0xef, 0x0d, 0x2e, 0xfe, 0xdc, 0xf5, 0xbd, 0xd6, 0x60, 0x17, 0x4c, 0x57, 0xa1, 0x81, 0x9d,
];

const SYM_PSK_CK: [u8; 32] = [
    0x7f, 0x19, 0x63, 0x2a, 0xf9, 0xc2, 0x5a, 0x80, 0x1b, 0x47, 0x42, 0xf1, 0x0e, 0xc5, 0x87, 0x31,
    0xe3, 0x18, 0x50, 0xb7, 0x55, 0x01, 0x97, 0xcd, 0x63, 0x45, 0x04, 0x33, 0x56, 0xda, 0xad, 0xb8,
];

const SYM_PSK_K: [u8; 32] = [
    0x68, 0x78, 0xf8, 0x97, 0x03, 0x82, 0x8f, 0x61, 0x38, 0xa4, 0x24, 0x71, 0x5f, 0xa4, 0xd7, 0x4f,
    0x5e, 0xaf, 0x0a, 0xb6, 0x5b, 0x9d, 0x83, 0x3a, 0xb6, 0xaf, 0xdd, 0xc9, 0xe4, 0xc3, 0x5b, 0x57,
];

const SYM512_MIX_KEY_CK: [u8; 64] = [
    0xbe, 0x92, 0xd3, 0x04, 0x65, 0xbf, 0x8c, 0x82, 0xfc, 0xa8, 0x88, 0xb0, 0xb0, 0x99, 0xec, 0x12,
    0x8b, 0x31, 0xb1, 0xc7, 0xd7, 0xd5, 0xdd, 0xfb, 0xd8, 0x75, 0xe4, 0xfc, 0xc8, 0x8c, 0x70, 0xcb,
    0x21, 0x54, 0x29, 0x24, 0x7a, 0x6a, 0x87, 0xc7, 0x3f, 0x43, 0x3c, 0x70, 0xc7, 0xe6, 0xf6, 0x43,
    0x24, 0xd2, 0xe7, 0x66, 0x74, 0x07, 0x7d, 0x96, 0x8a, 0x8c, 0xd4, 0x29, 0x4c, 0xce, 0x42, 0xca,
];

const SYM512_MIX_KEY_K: [u8; 32] = [
    0x6f, 0xcd, 0x1b, 0xbc, 0x9b, 0x58, 0xf6, 0xb5, 0x04, 0x2e, 0xd6, 0x9f, 0xe2, 0xa9, 0x5e, 0xcd,
    0xad, 0xbc, 0xfd, 0x4f, 0x50, 0xda, 0x6c, 0x19, 0xb9, 0x0d, 0xed, 0xad, 0x4f, 0xaa, 0x31, 0x8f,
];

const AD: &[u8] = b"header";
const PLAINTEXT: &[u8] = b"plaintext bytes";

struct Counting {
    next: u8,
}

impl RandomType for Counting {
    fn fill_bytes(&mut self, out: &mut [u8]) {
        for b in out.iter_mut() {
            *b = self.next;
            self.next = self.next.wrapping_add(1);
        }
    }
}

#[test]
fn constants_have_the_sizes_of_the_framework() {
    assert_eq!(DHLEN, 32);
    assert_eq!(TAGLEN, 16);
    assert_eq!(CIPHERKEYLEN, 32);
    assert_eq!(MAXHASHLEN, 64);
    assert_eq!(MAXBLOCKLEN, 128);
}

#[test]
fn copy_memory_overwrites_the_front() {
    let mut out = [9u8; 6];
    assert_eq!(copy_memory(&[1, 2, 3], &mut out), 3);
    assert_eq!(out, [1, 2, 3, 9, 9, 9]);
    assert_eq!(copy_memory(&[], &mut out), 0);
    assert_eq!(out, [1, 2, 3, 9, 9, 9]);
    assert_eq!(copy_memory(&[7, 7, 7, 7, 7, 7], &mut out), 6);
    assert_eq!(out, [7u8; 6]);
}

#[test]
fn push_zeros_appends() {
    let mut v = vec![5u8];
    push_zeros(&mut v, 3);
    assert_eq!(v, vec![5, 0, 0, 0]);
    push_zeros(&mut v, 0);
    assert_eq!(v.len(), 4);
}

#[test]
fn to_vec_and_to_array_copy() {
    assert_eq!(to_vec(&[1, 2, 3]), vec![1, 2, 3]);
    assert_eq!(to_vec(&[]), Vec::<u8>::new());
    assert_eq!(to_array32(&KEY), KEY);
}

#[test]
fn hashes_known_answers() {
    assert_eq!(HashSHA256 {}.hash(b"abc"), HASH_SHA256_ABC);
    assert_eq!(HashSHA512 {}.hash(b"abc"), HASH_SHA512_ABC);
    assert_eq!(HashBLAKE2s {}.hash(b"abc"), HASH_BLAKE2S_ABC);
    assert_eq!(HashBLAKE2b {}.hash(b"abc"), HASH_BLAKE2B_ABC);
    // the first bytes of SHA-256("abc") as FIPS 180 gives them
    assert_eq!(&HashSHA256 {}.hash(b"abc")[..4], &[0xba, 0x78, 0x16, 0xbf]);
}

#[test]
fn hashes_report_their_sizes_and_names() {
    assert_eq!((HashSHA256 {}.hash_len(), HashSHA256 {}.block_len()), (32, 64));
    assert_eq!((HashSHA512 {}.hash_len(), HashSHA512 {}.block_len()), (64, 128));
    assert_eq!((HashBLAKE2s {}.hash_len(), HashBLAKE2s {}.block_len()), (32, 64));
    assert_eq!((HashBLAKE2b {}.hash_len(), HashBLAKE2b {}.block_len()), (64, 128));
    assert_eq!(HashSHA256 {}.name(), b"SHA256".to_vec());
    assert_eq!(HashSHA512 {}.name(), b"SHA512".to_vec());
    assert_eq!(HashBLAKE2s {}.name(), b"BLAKE2s".to_vec());
    assert_eq!(HashBLAKE2b {}.name(), b"BLAKE2b".to_vec());
    assert_eq!(CipherChaChaPoly {}.name(), b"ChaChaPoly".to_vec());
    assert_eq!(CipherAESGCM {}.name(), b"AESGCM".to_vec());
    assert_eq!(Dh25519::new().name(), b"25519".to_vec());
}

#[test]
fn hmac_known_answers() {
    // test case 1 of RFC 4231
    assert_eq!(hmac(&HashSHA256 {}, &[0x0b; 20], b"Hi There"), HMAC_SHA256_RFC4231_1);
    // test case 6 of RFC 4231: a key longer than a block is hashed first
    assert_eq!(
        hmac(
            &HashSHA256 {},
            &[0xaa; 131],
            b"Test Using Larger Than Block-Size Key - Hash Key First"
        ),
        HMAC_SHA256_LONG_KEY
    );
    assert_eq!(hmac(&HashBLAKE2b {}, &KEY, b"data"), HMAC_BLAKE2B);
}

#[test]
fn hkdf_known_answers() {
    let ck32: Vec<u8> = (0u8..32).collect();
    let ck64: Vec<u8> = (0u8..64).collect();
    let out = hkdf(&HashSHA256 {}, &ck32, b"input key material", 3);
    assert_eq!((out.0, out.1, out.2), (HKDF_SHA256_1.to_vec(), HKDF_SHA256_2.to_vec(), HKDF_SHA256_3.to_vec()));
    let out = hkdf(&HashSHA512 {}, &ck64, b"input key material", 3);
    assert_eq!((out.0, out.1, out.2), (HKDF_SHA512_1.to_vec(), HKDF_SHA512_2.to_vec(), HKDF_SHA512_3.to_vec()));
    let out = hkdf(&HashBLAKE2s {}, &ck32, b"input key material", 3);
    assert_eq!((out.0, out.1, out.2), (HKDF_BLAKE2S_1.to_vec(), HKDF_BLAKE2S_2.to_vec(), HKDF_BLAKE2S_3.to_vec()));
    let out = hkdf(&HashBLAKE2b {}, &ck64, b"input key material", 3);
    assert_eq!((out.0, out.1, out.2), (HKDF_BLAKE2B_1.to_vec(), HKDF_BLAKE2B_2.to_vec(), HKDF_BLAKE2B_3.to_vec()));
}

#[test]
fn hkdf_with_two_outputs_leaves_third_empty() {
    let ck32: Vec<u8> = (0u8..32).collect();
    let out = hkdf(&HashSHA256 {}, &ck32, b"input key material", 2);
    assert_eq!(out.0, HKDF_SHA256_1.to_vec());
    assert_eq!(out.1, HKDF_SHA256_2.to_vec());
    assert_eq!(out.2, Vec::<u8>::new());
}

#[test]
fn chachapoly_uses_little_endian_nonce() {
    let cipher = CipherChaChaPoly {};
    assert_eq!(cipher.encrypt(&KEY, 0, AD, PLAINTEXT), CHACHA_N0);
    assert_eq!(cipher.encrypt(&KEY, 1, AD, PLAINTEXT), CHACHA_N1);
    assert_eq!(cipher.encrypt(&KEY, 0x0102030405060708, AD, PLAINTEXT), CHACHA_N102030405060708);
    assert_eq!(cipher.decrypt(&KEY, 0x0102030405060708, AD, &CHACHA_N102030405060708), Some(PLAINTEXT.to_vec()));
    assert_eq!(cipher.decrypt(&KEY, 0x0807060504030201, AD, &CHACHA_N102030405060708), None);
}

#[test]
fn aesgcm_uses_big_endian_nonce() {
    let cipher = CipherAESGCM {};
    assert_eq!(cipher.encrypt(&KEY, 0, AD, PLAINTEXT), AESGCM_N0);
    assert_eq!(cipher.encrypt(&KEY, 1, AD, PLAINTEXT), AESGCM_N1);
    assert_eq!(cipher.encrypt(&KEY, 0x0102030405060708, AD, PLAINTEXT), AESGCM_N102030405060708);
    assert_eq!(cipher.decrypt(&KEY, 0x0102030405060708, AD, &AESGCM_N102030405060708), Some(PLAINTEXT.to_vec()));
    assert_eq!(cipher.decrypt(&KEY, 0x0807060504030201, AD, &AESGCM_N102030405060708), None);
}

#[test]
fn ciphers_reject_what_does_not_authenticate() {
    let chacha = CipherChaChaPoly {};
    let aes = CipherAESGCM {};
    for i in 0..CHACHA_N0.len() {
        let mut c = CHACHA_N0;
        c[i] ^= 1;
        assert_eq!(chacha.decrypt(&KEY, 0, AD, &c), None);
        let mut c = AESGCM_N0;
        c[i] ^= 1;
        assert_eq!(aes.decrypt(&KEY, 0, AD, &c), None);
    }
    assert_eq!(chacha.decrypt(&KEY, 0, b"headeR", &CHACHA_N0), None);
    assert_eq!(aes.decrypt(&KEY, 0, b"headeR", &AESGCM_N0), None);
    assert_eq!(chacha.decrypt(&KEY, 1, AD, &CHACHA_N0), None);
    assert_eq!(chacha.decrypt(&[0u8; 32], 0, AD, &CHACHA_N0), None);
    // shorter than a tag
    assert_eq!(chacha.decrypt(&KEY, 0, AD, &CHACHA_N0[..15]), None);
    assert_eq!(aes.decrypt(&KEY, 0, AD, &[]), None);
    // the empty plaintext gives a tag alone
    let tag = chacha.encrypt(&KEY, 5, AD, b"");
    assert_eq!(tag.len(), TAGLEN);
    assert_eq!(chacha.decrypt(&KEY, 5, AD, &tag), Some(Vec::new()));
}

#[test]
fn cipherstate_without_key_passes_data_through() {
    let mut state = CipherState::new(CipherChaChaPoly {});
    assert!(!state.has_key());
    assert_eq!(state.key(), None);
    assert_eq!(state.nonce(), 0);
    assert_eq!(state.name(), b"ChaChaPoly".to_vec());
    assert_eq!(state.encrypt_with_ad(AD, PLAINTEXT), PLAINTEXT.to_vec());
    assert_eq!(state.decrypt_with_ad(AD, PLAINTEXT), Some(PLAINTEXT.to_vec()));
    assert_eq!(state.nonce(), 0);
}

#[test]
fn cipherstate_counts_nonces() {
    let mut state = CipherState::new(CipherChaChaPoly {});
    state.initialize_key(&KEY);
    assert!(state.has_key());
    assert_eq!(state.key(), Some(KEY));
    assert_eq!(state.encrypt_with_ad(AD, PLAINTEXT), CHACHA_N0);
    assert_eq!(state.nonce(), 1);
    assert_eq!(state.encrypt_with_ad(AD, PLAINTEXT), CHACHA_N1);
    assert_eq!(state.nonce(), 2);
    // setting a key starts the nonce over
    state.initialize_key(&KEY);
    assert_eq!(state.nonce(), 0);
    assert_eq!(state.decrypt_with_ad(AD, &CHACHA_N0), Some(PLAINTEXT.to_vec()));
    assert_eq!(state.nonce(), 1);
    // a failure leaves the nonce where it was
    assert_eq!(state.decrypt_with_ad(AD, &CHACHA_N0), None);
    assert_eq!(state.nonce(), 1);
    assert_eq!(state.decrypt_with_ad(AD, &CHACHA_N1), Some(PLAINTEXT.to_vec()));
    assert_eq!(state.nonce(), 2);
    state.clear();
    assert!(!state.has_key());
    assert_eq!(state.nonce(), 0);
}

#[test]
fn cipherstate_aesgcm_known_answer() {
    let mut state = CipherState::new(CipherAESGCM {});
    state.initialize_key(&KEY);
    assert_eq!(state.encrypt_with_ad(AD, PLAINTEXT), AESGCM_N0);
    assert_eq!(state.encrypt_with_ad(AD, PLAINTEXT), AESGCM_N1);
}

#[test]
fn symmetricstate_pads_short_name_and_hashes_long_name() {
    let mut state = SymmetricState::new(HashSHA256 {}, CipherChaChaPoly {});
    assert_eq!(state.handshake_hash(), vec![0u8; 32]);
    assert_eq!(state.chaining_key(), vec![0u8; 32]);
    state.initialize(b"Noise_test");
    let mut padded = b"Noise_test".to_vec();
    padded.resize(32, 0);
    assert_eq!(state.handshake_hash(), padded);
    assert_eq!(state.handshake_hash(), SYM_SHORT_H);
    assert_eq!(state.chaining_key(), SYM_SHORT_H);
    assert!(!state.has_key());
    assert!(!state.has_preshared_key());

    state.initialize(&[b'N'; 40]);
    assert_eq!(state.handshake_hash(), SYM_LONG_H);
    assert_eq!(state.chaining_key(), SYM_LONG_H);

    // a name of exactly HASHLEN bytes is taken as it is
    state.initialize(&[b'x'; 32]);
    assert_eq!(state.handshake_hash(), vec![b'x'; 32]);
    assert_eq!(state.hash_name(), b"SHA256".to_vec());
    assert_eq!(state.cipher_name(), b"ChaChaPoly".to_vec());
}

#[test]
fn symmetricstate_operations_known_answers() {
    let mut state = SymmetricState::new(HashSHA256 {}, CipherChaChaPoly {});
    state.initialize(b"Noise_test");
    state.mix_hash(b"data");
    assert_eq!(state.handshake_hash(), SYM_MIX_HASH);
    assert_eq!(state.chaining_key(), SYM_SHORT_H);
    // without a key the plaintext goes out as it is, and is hashed
    let mut clear = SymmetricState::new(HashSHA256 {}, CipherChaChaPoly {});
    clear.initialize(b"Noise_test");
    assert_eq!(clear.encrypt_and_hash(b"data"), b"data".to_vec());
    assert_eq!(clear.handshake_hash(), SYM_MIX_HASH);

    state.mix_key(b"ikm");
    assert!(state.has_key());
    assert_eq!(state.chaining_key(), SYM_MIX_KEY_CK);
    assert_eq!(state.handshake_hash(), SYM_MIX_HASH);
    assert_eq!(state.nonce(), 0);

    let mut reader = SymmetricState::new(HashSHA256 {}, CipherChaChaPoly {});
    reader.initialize(b"Noise_test");
    reader.mix_hash(b"data");
    reader.mix_key(b"ikm");

    let sealed = state.encrypt_and_hash(b"secret");
    assert_eq!(sealed, SYM_ENC);
    assert_eq!(sealed.len(), 6 + TAGLEN);
    assert_eq!(state.handshake_hash(), SYM_ENC_H);
    assert_eq!(state.nonce(), 1);

    // a failure leaves the hash and the nonce where they were
    let mut bad = sealed.clone();
    bad[0] ^= 1;
    assert_eq!(reader.decrypt_and_hash(&bad), None);
    assert_eq!(reader.handshake_hash(), SYM_MIX_HASH);
    assert_eq!(reader.nonce(), 0);
    assert_eq!(reader.decrypt_and_hash(&sealed), Some(b"secret".to_vec()));
    assert_eq!(reader.handshake_hash(), SYM_ENC_H);
    assert_eq!(reader.nonce(), 1);

    let mut child1 = CipherState::new(CipherChaChaPoly {});
    let mut child2 = CipherState::new(CipherChaChaPoly {});
    state.split(&mut child1, &mut child2);
    assert_eq!(child1.key(), Some(SYM_SPLIT_1));
    assert_eq!(child2.key(), Some(SYM_SPLIT_2));
    assert_eq!(child1.nonce(), 0);
    assert_eq!(child2.nonce(), 0);
    // splitting leaves the state alone
    assert_eq!(state.chaining_key(), SYM_MIX_KEY_CK);
}

#[test]
fn symmetricstate_mix_key_sets_the_derived_key() {
    let mut state = SymmetricState::new(HashSHA256 {}, CipherChaChaPoly {});
    state.initialize(b"Noise_test");
    state.mix_hash(b"data");
    state.mix_key(b"ikm");
    // the key is the one that encrypts under the hash as associated data
    let mut cipher = CipherState::new(CipherChaChaPoly {});
    cipher.initialize_key(&SYM_MIX_KEY_K);
    assert_eq!(cipher.encrypt_with_ad(&SYM_MIX_HASH, b"secret"), SYM_ENC);
}

#[test]
fn symmetricstate_mix_preshared_key_known_answer() {
    let psk: Vec<u8> = (0u8..32).collect();
    let mut state = SymmetricState::new(HashSHA256 {}, CipherChaChaPoly {});
    state.initialize(&[b'N'; 40]);
    state.mix_preshared_key(&psk);
    assert!(state.has_preshared_key());
    assert!(state.has_key());
    assert_eq!(state.handshake_hash(), SYM_PSK_H);
    assert_eq!(state.chaining_key(), SYM_PSK_CK);
    let mut cipher = CipherState::new(CipherChaChaPoly {});
    cipher.initialize_key(&SYM_PSK_K);
    let expected = cipher.encrypt_with_ad(&SYM_PSK_H, b"x");
    assert_eq!(state.encrypt_and_hash(b"x"), expected);
    // starting over forgets the pre-shared key
    state.initialize(b"again");
    assert!(!state.has_preshared_key());
    assert!(!state.has_key());
}

#[test]
fn symmetricstate_truncates_long_hash_to_cipher_key() {
    let mut state = SymmetricState::new(HashSHA512 {}, CipherAESGCM {});
    state.initialize(b"Noise_test");
    assert_eq!(state.handshake_hash().len(), 64);
    state.mix_key(b"ikm");
    assert_eq!(state.chaining_key(), SYM512_MIX_KEY_CK);
    let h = state.handshake_hash();
    let mut cipher = CipherState::new(CipherAESGCM {});
    cipher.initialize_key(&SYM512_MIX_KEY_K);
    let expected = cipher.encrypt_with_ad(&h, b"payload");
    assert_eq!(state.encrypt_and_hash(b"payload"), expected);
}

#[test]
fn x25519_known_answers() {
    // the keys of RFC 7748, section 6.1
    let alice_private = [
        0x77, 0x07, 0x6d, 0x0a, 0x73, 0x18, 0xa5, 0x7d, 0x3c, 0x16, 0xc1, 0x72, 0x51, 0xb2, 0x66,
        0x45, 0xdf, 0x4c, 0x2f, 0x87, 0xeb, 0xc0, 0x99, 0x2a, 0xb1, 0x77, 0xfb, 0xa5, 0x1d, 0xb9,
        0x2c, 0x2a,
    ];
    let alice_public = [
        0x85, 0x20, 0xf0, 0x09, 0x89, 0x30, 0xa7, 0x54, 0x74, 0x8b, 0x7d, 0xdc, 0xb4, 0x3e, 0xf7,
        0x5a, 0x0d, 0xbf, 0x3a, 0x0d, 0x26, 0x38, 0x1a, 0xf4, 0xeb, 0xa4, 0xa9, 0x8e, 0xaa, 0x9b,
        0x4e, 0x6a,
    ];
    let bob_private = [
        0x5d, 0xab, 0x08, 0x7e, 0x62, 0x4a, 0x8a, 0x4b, 0x79, 0xe1, 0x7f, 0x8b, 0x83, 0x80, 0x0e,
        0xe6, 0x6f, 0x3b, 0xb1, 0x29, 0x26, 0x18, 0xb6, 0xfd, 0x1c, 0x2f, 0x8b, 0x27, 0xff, 0x88,
        0xe0, 0xeb,
    ];
    let bob_public = [
        0xde, 0x9e, 0xdb, 0x7d, 0x7b, 0x7d, 0xc1, 0xb4, 0xd3, 0x5b, 0x61, 0xc2, 0xec, 0xe4, 0x35,
        0x37, 0x3f, 0x83, 0x43, 0xc8, 0x5b, 0x78, 0x67, 0x4d, 0xad, 0xfc, 0x7e, 0x14, 0x6f, 0x88,
        0x2b, 0x4f,
    ];
    let shared = [
        0x4a, 0x5d, 0x9d, 0x5b, 0xa4, 0xce, 0x2d, 0xe1, 0x72, 0x8e, 0x3b, 0xf4, 0x80, 0x35, 0x0f,
        0x25, 0xe0, 0x7e, 0x21, 0xc9, 0x47, 0xd1, 0x9e, 0x33, 0x76, 0xf0, 0x9b, 0x3c, 0x1e, 0x16,
        0x17, 0x42,
    ];
    let alice = Dh25519::from_private(alice_private);
    let bob = Dh25519::from_private(bob_private);
    assert_eq!(alice.pubkey(), alice_public);
    assert_eq!(bob.pubkey(), bob_public);
    assert_eq!(alice.dh(&bob_public), shared);
    assert_eq!(bob.dh(&alice_public), shared);
}

#[test]
fn dh_generate_draws_the_private_key_from_the_source() {
    let mut pair = Dh25519::new();
    assert_eq!(pair.pubkey(), [0u8; 32]);
    pair.generate(&mut Counting { next: 0 });
    let drawn: Vec<u8> = (0u8..32).collect();
    let expected = Dh25519::from_private(to_array32(&drawn));
    assert_eq!(pair.pubkey(), expected.pubkey());
    assert_ne!(pair.pubkey(), [0u8; 32]);
    let peer = Dh25519::from_private([3u8; 32]);
    assert_eq!(pair.dh(&peer.pubkey()), peer.dh(&pair.pubkey()));
}

#[test]
fn dh_set_stores_the_pair_as_given() {
    let mut pair = Dh25519::new();
    pair.set(&[1u8; 32], &[2u8; 32]);
    assert_eq!(pair.pubkey(), [2u8; 32]);
    let same_private = Dh25519::from_private([1u8; 32]);
    assert_eq!(pair.dh(&[9u8; 32]), same_private.dh(&[9u8; 32]));
}
