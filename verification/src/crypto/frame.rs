//! The frame: a four-byte big-endian length, then the ciphertext.

use crate::error::bytes_of;
use crate::error::CryptoError;
use vstd::prelude::*;
use vstd::slice::slice_subrange;
use vstd::slice::slice_to_vec;

verus! {

/// Number of bytes in the length header.
pub const HEADER_SIZE: usize = 4;

/// The four bytes of `n`, most significant first.
pub open spec fn be_bytes(n: u32) -> Seq<u8> {
    seq![
        (n / 0x100_0000) as u8,
        (n / 0x1_0000 % 0x100) as u8,
        (n / 0x100 % 0x100) as u8,
        (n % 0x100) as u8,
    ]
}

/// The number whose big-endian bytes are the first four of `bytes`.
pub open spec fn be_value(bytes: Seq<u8>) -> u32
    recommends
        bytes.len() >= 4,
{
    (bytes[0] * 0x100_0000 + bytes[1] * 0x1_0000 + bytes[2] * 0x100 + bytes[3]) as u32
}

/// Reading back the bytes written for `n` gives `n`.
pub proof fn lemma_be_value_of_be_bytes(n: u32)
    ensures
        be_bytes(n).len() == 4,
        be_value(be_bytes(n)) == n,
{
    let b = be_bytes(n);
    assert(b[0] == n / 0x100_0000);
    assert(b[1] == n / 0x1_0000 % 0x100);
    assert(b[2] == n / 0x100 % 0x100);
    assert(b[3] == n % 0x100);
}

/// The four base-256 digits of a number are found again by dividing.
proof fn lemma_digits(b0: int, b1: int, b2: int, b3: int)
    requires
        0 <= b0 < 0x100,
        0 <= b1 < 0x100,
        0 <= b2 < 0x100,
        0 <= b3 < 0x100,
    ensures
        ({
            let n = b0 * 0x100_0000 + b1 * 0x1_0000 + b2 * 0x100 + b3;
            &&& 0 <= n <= u32::MAX
            &&& n / 0x100_0000 == b0
            &&& n / 0x1_0000 % 0x100 == b1
            &&& n / 0x100 % 0x100 == b2
            &&& n % 0x100 == b3
        }),
{
    let n = b0 * 0x100_0000 + b1 * 0x1_0000 + b2 * 0x100 + b3;
    assert(n / 0x100 == b0 * 0x1_0000 + b1 * 0x100 + b2);
    assert(n / 0x1_0000 == b0 * 0x100 + b1);
}

/// Writing the number read from four bytes gives those bytes again.
pub proof fn lemma_be_bytes_of_be_value(bytes: Seq<u8>)
    requires
        bytes.len() == 4,
    ensures
        be_bytes(be_value(bytes)) == bytes,
{
    lemma_digits(bytes[0] as int, bytes[1] as int, bytes[2] as int, bytes[3] as int);
    assert(be_bytes(be_value(bytes)) =~= bytes);
}

/// The frame for a ciphertext and the length of what was encrypted.
pub open spec fn frame_of(original_length: u32, ciphertext: Seq<u8>) -> Seq<u8> {
    be_bytes(original_length) + ciphertext
}

/// Puts the length header in front of the ciphertext.
pub fn encode(original_length: u32, ciphertext: &Vec<u8>) -> (frame: Vec<u8>)
    ensures
        frame@ == frame_of(original_length, ciphertext@),
        frame@.len() == 4 + ciphertext@.len(),
        be_value(frame@.subrange(0, 4)) == original_length,
        frame@.subrange(4, frame@.len() as int) == ciphertext@,
{
    let mut frame: Vec<u8> = Vec::new();
    frame.push((original_length / 0x100_0000) as u8);
    frame.push((original_length / 0x1_0000 % 0x100) as u8);
    frame.push((original_length / 0x100 % 0x100) as u8);
    frame.push((original_length % 0x100) as u8);
    assert(frame@ =~= be_bytes(original_length));
    frame.extend_from_slice(ciphertext.as_slice());
    proof {
        lemma_be_value_of_be_bytes(original_length);
        assert(frame@.subrange(0, 4) =~= be_bytes(original_length));
        assert(frame@.subrange(4, frame@.len() as int) =~= ciphertext@);
    }
    frame
}

/// Splits a frame into the announced length and the ciphertext; a frame
/// shorter than its header is refused.
pub fn decode(frame: &Vec<u8>) -> (result: Result<(u32, Vec<u8>), CryptoError>)
    ensures
        result is Ok <==> frame@.len() >= 4,
        result is Err ==> result->Err_0 == CryptoError::TruncatedFrame,
        result is Ok ==> result->Ok_0.0 == be_value(frame@.subrange(0, 4)),
        result is Ok ==> result->Ok_0.1@ == frame@.subrange(4, frame@.len() as int),
        result is Ok ==> frame@ == frame_of(result->Ok_0.0, result->Ok_0.1@),
{
    if frame.len() < HEADER_SIZE {
        return Err(CryptoError::TruncatedFrame);
    }
    let b0: u32 = frame[0] as u32;
    let b1: u32 = frame[1] as u32;
    let b2: u32 = frame[2] as u32;
    let b3: u32 = frame[3] as u32;
    let original_length: u32 = b0 * 0x100_0000 + b1 * 0x1_0000 + b2 * 0x100 + b3;
    let ciphertext: Vec<u8> = slice_to_vec(
        slice_subrange(frame.as_slice(), HEADER_SIZE, frame.len()),
    );
    proof {
        let head = frame@.subrange(0, 4);
        assert(head[0] == frame@[0] && head[1] == frame@[1] && head[2] == frame@[2] && head[3]
            == frame@[3]);
        lemma_be_bytes_of_be_value(head);
        assert(frame@ =~= head + ciphertext@);
    }
    Ok((original_length, ciphertext))
}

/// What is left of the decrypted bytes once the padding is cut off, or
/// `LengthMismatch` where more bytes are announced than there are.
pub open spec fn recovered(decrypted: Seq<u8>, original_length: u32) -> Result<
    Seq<u8>,
    CryptoError,
> {
    if original_length <= decrypted.len() {
        Ok(decrypted.subrange(0, original_length as int))
    } else {
        Err(CryptoError::LengthMismatch)
    }
}

/// Cuts the decrypted bytes back to the announced length.
pub fn recover_original(decrypted: Vec<u8>, original_length: u32) -> (result: Result<
    Vec<u8>,
    CryptoError,
>)
    ensures
        bytes_of(result) == recovered(decrypted@, original_length),
        result is Ok <==> original_length <= decrypted@.len(),
        result is Ok ==> result->Ok_0@ == decrypted@.subrange(0, original_length as int),
        result is Err ==> result->Err_0 == CryptoError::LengthMismatch,
{
    let mut plaintext: Vec<u8> = decrypted;
    let wanted: usize = original_length as usize;
    if wanted <= plaintext.len() {
        plaintext.truncate(wanted);
        Ok(plaintext)
    } else {
        Err(CryptoError::LengthMismatch)
    }
}

} // verus!
