//! The framing pipeline: pad, chunk, encrypt block by block, prefix the
//! length; and the way back. Compression, where asked for, comes before
//! encryption and after decryption.

pub mod block;
pub mod chunk;
pub mod compression;
pub mod frame;

pub use crate::crypto::chunk::split_vec_to_chunks;
pub use crate::crypto::compression::compress_data;
pub use crate::crypto::compression::decompress_data;

use crate::config::CHUNK_SIZE;
use crate::config::KEY_BYTES;
use crate::crypto::block::ciphertext_of;
use crate::crypto::block::decrypt_vec_block;
use crate::crypto::block::decrypted_blocks;
use crate::crypto::block::encrypt_vec_block;
use crate::crypto::block::encrypted_blocks;
use crate::crypto::block::lemma_decrypted_blocks_of_prefix;
use crate::crypto::block::plaintext_of;
use crate::crypto::chunk::chunk_at;
use crate::crypto::chunk::lemma_chunk_bounds;
use crate::crypto::chunk::lemma_padded_len;
use crate::crypto::chunk::pad_bytes;
use crate::crypto::chunk::padded;
use crate::crypto::chunk::padded_len;
use crate::crypto::compression::compressed;
use crate::crypto::compression::decompressed;
use crate::crypto::compression::gzip_encoding;
use crate::crypto::frame::be_value;
use crate::crypto::frame::decode;
use crate::crypto::frame::encode;
use crate::crypto::frame::frame_of;
use crate::crypto::frame::recover_original;
use crate::error::bytes_of;
use crate::error::CryptoError;
use crate::operation_type::OperationType;
use vstd::prelude::*;

verus! {

/// Length of the frame for `len` bytes: the header, then `len` rounded up
/// to whole blocks.
pub open spec fn frame_len(len: nat) -> nat {
    4 + padded_len(len, 16)
}

/// The frame that encryption under `key` gives for `data`: the length of
/// `data` in four bytes, then every block of the padded data encrypted on
/// its own.
pub open spec fn encrypted_frame(key: Seq<u8>, data: Seq<u8>) -> Seq<u8>
    recommends
        data.len() <= u32::MAX,
{
    frame_of(data.len() as u32, ciphertext_of(key, padded(data, 16)))
}

/// The frame for `data`, or `TooLong` where the header cannot hold its
/// length.
pub open spec fn framed(key: Seq<u8>, data: Seq<u8>) -> Result<Seq<u8>, CryptoError> {
    if data.len() <= u32::MAX {
        Ok(encrypted_frame(key, data))
    } else {
        Err(CryptoError::TooLong)
    }
}

/// What decryption under `key` gives for `frame`: the decrypted whole
/// blocks behind the header, cut to the length that the header announces.
/// Bytes behind the last whole block are passed over.
pub open spec fn decrypted_frame(key: Seq<u8>, frame: Seq<u8>) -> Result<Seq<u8>, CryptoError> {
    if frame.len() < 4 {
        Err(CryptoError::TruncatedFrame)
    } else {
        let announced = be_value(frame.subrange(0, 4));
        let ciphertext = frame.subrange(4, frame.len() as int);
        if announced <= 16 * (ciphertext.len() / 16) {
            Ok(plaintext_of(key, ciphertext).subrange(0, announced as int))
        } else {
            Err(CryptoError::LengthMismatch)
        }
    }
}

/// Encrypts `input` under the built-in key into a frame. The length of
/// `input` must fit the four-byte header.
///
/// The frame is four bytes longer than the input rounded up to whole
/// blocks, and decrypting it gives the input back.
pub fn encrypt_data(input: &Vec<u8>) -> (frame: Vec<u8>)
    requires
        input@.len() <= u32::MAX,
    ensures
        frame@ == encrypted_frame(KEY_BYTES@, input@),
        frame@.len() == frame_len(input@.len()),
        frame@.len() == 4 + ((input@.len() + 15) / 16) * 16,
        decrypted_frame(KEY_BYTES@, frame@) == Ok::<Seq<u8>, CryptoError>(input@),
{
    let mut input_copy: Vec<u8> = input.clone();
    let original_size: u32 = input.len() as u32;
    proof {
        lemma_padded_len(input@.len(), 16);
    }
    pad_bytes(&mut input_copy, CHUNK_SIZE);

    let chunks: Vec<Vec<u8>> = split_vec_to_chunks(&input_copy, CHUNK_SIZE);
    let key: [u8; 16] = KEY_BYTES;

    let mut result: Vec<u8> = Vec::new();
    let ghost padded_input = input_copy@;
    let ghost blocks = padded_input.len() / 16;
    assert(padded_input.len() == 16 * blocks);

    for i in 0..chunks.len()
        invariant
            key@ == KEY_BYTES@,
            padded_input.len() == 16 * blocks,
            chunks@.len() == blocks,
            forall|j: int|
                0 <= j < chunks@.len() ==> #[trigger] chunks@[j]@ == chunk_at(padded_input, 16, j),
            result@.len() == 16 * i,
            result@ == encrypted_blocks(key@, padded_input, i as nat),
            decrypted_blocks(key@, result@, i as nat) == padded_input.subrange(0, 16 * i),
    {
        let ghost before = result@;
        let chunk: &Vec<u8> = &chunks[i];
        proof {
            lemma_chunk_bounds(padded_input.len(), 16, i as int);
        }
        let encrypted_bytes: Vec<u8> = encrypt_vec_block(&key, chunk);
        result.extend_from_slice(encrypted_bytes.as_slice());
        proof {
            assert(before.subrange(0, 16 * i as int) =~= result@.subrange(0, 16 * i as int));
            lemma_decrypted_blocks_of_prefix(key@, before, result@, i as nat);
            assert(chunk_at(result@, 16, i as int) =~= encrypted_bytes@);
            assert(padded_input.subrange(0, 16 * (i + 1)) =~= padded_input.subrange(0, 16 * i)
                + chunk_at(padded_input, 16, i as int));
        }
    }

    let final_data: Vec<u8> = encode(original_size, &result);
    proof {
        assert(padded_input.subrange(0, 16 * blocks as int) =~= padded_input);
        assert(result@.len() / 16 == blocks);
        assert(padded_input.subrange(0, original_size as int) =~= input@);
    }
    final_data
}

/// Decrypts a frame under the built-in key.
///
/// A frame shorter than its header gives `TruncatedFrame`; one whose header
/// announces more bytes than its whole blocks hold gives `LengthMismatch`;
/// any other frame gives the decrypted blocks cut to the announced length.
pub fn decrypt_data(input: &Vec<u8>) -> (result: Result<Vec<u8>, CryptoError>)
    ensures
        bytes_of(result) == decrypted_frame(KEY_BYTES@, input@),
        input@.len() < 4 <==> result == Err::<Vec<u8>, CryptoError>(CryptoError::TruncatedFrame),
        input@.len() >= 4 && be_value(input@.subrange(0, 4)) > 16 * ((input@.len() - 4) / 16)
            <==> result == Err::<Vec<u8>, CryptoError>(CryptoError::LengthMismatch),
        result is Ok ==> result->Ok_0@.len() == be_value(input@.subrange(0, 4)),
{
    let (original_size, ciphertext) = match decode(input) {
        Ok(parts) => parts,
        Err(e) => {
            return Err(e);
        },
    };

    let chunks: Vec<Vec<u8>> = split_vec_to_chunks(&ciphertext, CHUNK_SIZE);
    let key: [u8; 16] = KEY_BYTES;

    let mut result: Vec<u8> = Vec::new();
    for i in 0..chunks.len()
        invariant
            key@ == KEY_BYTES@,
            chunks@.len() == ciphertext@.len() / 16,
            forall|j: int|
                0 <= j < chunks@.len() ==> #[trigger] chunks@[j]@ == chunk_at(ciphertext@, 16, j),
            result@.len() == 16 * i,
            result@ == decrypted_blocks(key@, ciphertext@, i as nat),
    {
        proof {
            lemma_chunk_bounds(ciphertext@.len(), 16, i as int);
        }
        match decrypt_vec_block(&key, &chunks[i]) {
            Ok(decrypted) => {
                result.extend_from_slice(decrypted.as_slice());
            },
            // A block that the cipher refuses adds nothing, and the rest
            // go on. The chunker hands out whole blocks only, so none is.
            Err(_) => {},
        }
    }

    recover_original(result, original_size)
}

/// Encrypts `input` as `encrypt_data` does, or refuses it with `TooLong`
/// where its length is more than the four-byte header can say.
pub fn try_encrypt_data(input: &Vec<u8>) -> (result: Result<Vec<u8>, CryptoError>)
    ensures
        bytes_of(result) == framed(KEY_BYTES@, input@),
        result is Ok <==> input@.len() <= u32::MAX,
        result is Ok ==> result->Ok_0@.len() == frame_len(input@.len()),
        result is Ok ==> decrypted_frame(KEY_BYTES@, result->Ok_0@) == Ok::<Seq<u8>, CryptoError>(
            input@,
        ),
        result is Err ==> result->Err_0 == CryptoError::TooLong,
{
    if input.len() > u32::MAX as usize {
        Err(CryptoError::TooLong)
    } else {
        Ok(encrypt_data(input))
    }
}

/// What the pipeline gives for `plaintext`: the frame of the plaintext
/// itself, or of its compression where compression is on. A fault of the
/// compressor is passed on, and bytes too long for the header are refused.
pub open spec fn encrypted(key: Seq<u8>, plaintext: Seq<u8>, use_compression: bool) -> Result<
    Seq<u8>,
    CryptoError,
> {
    if use_compression {
        match compressed(plaintext) {
            Ok(bytes) => framed(key, bytes),
            Err(e) => Err(e),
        }
    } else {
        framed(key, plaintext)
    }
}

/// What the pipeline gives back for `frame`: the decrypted frame, and
/// where compression is on, its decompression.
pub open spec fn decrypted(key: Seq<u8>, frame: Seq<u8>, use_compression: bool) -> Result<
    Seq<u8>,
    CryptoError,
> {
    match decrypted_frame(key, frame) {
        Ok(bytes) => if use_compression {
            decompressed(bytes)
        } else {
            Ok(bytes)
        },
        Err(e) => Err(e),
    }
}

/// Compresses `plaintext` if asked to, then encrypts it into a frame.
///
/// It succeeds exactly where the compressor, if used, has an encoding and
/// the bytes that go into the cipher are no longer than the header can
/// say. The frame that comes back decrypts, with the same flag, to
/// `plaintext`.
pub fn encrypt(plaintext: &Vec<u8>, use_compression: bool) -> (result: Result<
    Vec<u8>,
    CryptoError,
>)
    ensures
        bytes_of(result) == encrypted(KEY_BYTES@, plaintext@, use_compression),
        !use_compression ==> (result is Ok <==> plaintext@.len() <= u32::MAX),
        result is Ok ==> result->Ok_0@.len() == frame_len(
            if use_compression {
                gzip_encoding(plaintext@)->Some_0.len()
            } else {
                plaintext@.len()
            },
        ),
        result is Ok ==> decrypted(KEY_BYTES@, result->Ok_0@, use_compression) == Ok::<
            Seq<u8>,
            CryptoError,
        >(plaintext@),
{
    if use_compression {
        match compress_data(plaintext) {
            Ok(compressed) => try_encrypt_data(&compressed),
            Err(e) => Err(e),
        }
    } else {
        try_encrypt_data(plaintext)
    }
}

/// Decrypts a frame, then decompresses the result if asked to.
pub fn decrypt(frame: &Vec<u8>, use_compression: bool) -> (result: Result<Vec<u8>, CryptoError>)
    ensures
        bytes_of(result) == decrypted(KEY_BYTES@, frame@, use_compression),
{
    match decrypt_data(frame) {
        Ok(bytes) => if use_compression {
            decompress_data(&bytes)
        } else {
            Ok(bytes)
        },
        Err(e) => Err(e),
    }
}

/// Runs the pipeline on `input` in the direction that `operation` names.
pub fn run(operation: OperationType, input: &Vec<u8>, use_compression: bool) -> (result: Result<
    Vec<u8>,
    CryptoError,
>)
    ensures
        operation == OperationType::DECRYPT ==> bytes_of(result) == decrypted(
            KEY_BYTES@,
            input@,
            use_compression,
        ),
        operation == OperationType::ENCRYPT ==> bytes_of(result) == encrypted(
            KEY_BYTES@,
            input@,
            use_compression,
        ),
        operation == OperationType::ENCRYPT && result is Ok ==> decrypted(
            KEY_BYTES@,
            result->Ok_0@,
            use_compression,
        ) == Ok::<Seq<u8>, CryptoError>(input@),
{
    match operation {
        OperationType::DECRYPT => decrypt(input, use_compression),
        OperationType::ENCRYPT => encrypt(input, use_compression),
    }
}

} // verus!
