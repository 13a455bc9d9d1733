//! The fixed parameters of the cipher: block size and key.

use vstd::prelude::*;

verus! {

/// Number of bytes in one cipher block.
pub const CHUNK_SIZE: usize = 16;

/// The 128-bit key shared by every encryption and decryption.
pub const KEY_BYTES: [u8; 16] = [
    0x2b, 0x7e, 0x15, 0x16, 0x28, 0xae, 0xd2, 0xa6,
    0xab, 0xf7, 0x15, 0x88, 0x09, 0xcf, 0x4f, 0x3c,
];

} // verus!
