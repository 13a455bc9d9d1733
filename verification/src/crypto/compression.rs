//! Gzip compression of a whole buffer, and its inverse.

use crate::error::bytes_of;
use crate::error::CryptoError;
use flate2::bufread::GzEncoder;
use flate2::read::GzDecoder;
use flate2::Compression;
use std::io::Cursor;
use std::io::Read;
use vstd::prelude::*;

verus! {

/// `std::io::Error`, in which the codec reports a fault. Nothing is known
/// of what such a value holds.
#[verifier::external_type_specification]
#[verifier::external_body]
pub struct ExIoError(std::io::Error);

/// The gzip stream that the encoder gives for `input` at its default
/// level, or `None` where it reports a fault.
pub uninterp spec fn gzip_encoding(input: Seq<u8>) -> Option<Seq<u8>>;

/// The bytes that the decoder reads out of the gzip stream `input`, or
/// `None` where it reports that `input` is no well-formed stream.
pub uninterp spec fn gzip_decoding(input: Seq<u8>) -> Option<Seq<u8>>;

/// What compression gives for `input`.
pub open spec fn compressed(input: Seq<u8>) -> Result<Seq<u8>, CryptoError> {
    match gzip_encoding(input) {
        Some(bytes) => Ok(bytes),
        None => Err(CryptoError::CompressionError),
    }
}

/// What decompression gives for `input`.
pub open spec fn decompressed(input: Seq<u8>) -> Result<Seq<u8>, CryptoError> {
    match gzip_decoding(input) {
        Some(bytes) => Ok(bytes),
        None => Err(CryptoError::DecompressionError),
    }
}

/// Reads to its end a `flate2::bufread::GzEncoder` at the default level
/// over a cursor on `input`.
///
/// Believed, not proved: the read succeeds exactly where `input` has a
/// gzip encoding, what was read is that encoding, and decoding it gives
/// `input` back. That every input has an encoding is not claimed.
#[verifier::external_body]
fn gz_encode(input: &Vec<u8>) -> (outcome: Result<Vec<u8>, std::io::Error>)
    ensures
        outcome is Ok ==> gzip_encoding(input@) == Some(outcome->Ok_0@),
        outcome is Err ==> gzip_encoding(input@) is None,
        outcome is Ok ==> gzip_decoding(outcome->Ok_0@) == Some(input@),
{
    let mut encoder = GzEncoder::new(Cursor::new(input), Compression::default());
    let mut buffer = Vec::new();
    match encoder.read_to_end(&mut buffer) {
        Ok(_) => Ok(buffer),
        Err(e) => Err(e),
    }
}

/// Reads to its end a `flate2::read::GzDecoder` over a cursor on `input`.
///
/// Believed, not proved: the read succeeds exactly where `input` has a gzip
/// decoding, and what was read is that decoding.
#[verifier::external_body]
fn gz_decode(input: &Vec<u8>) -> (outcome: Result<Vec<u8>, std::io::Error>)
    ensures
        outcome is Ok ==> gzip_decoding(input@) == Some(outcome->Ok_0@),
        outcome is Err ==> gzip_decoding(input@) is None,
{
    let mut decoder = GzDecoder::new(Cursor::new(input));
    let mut decompressed = Vec::new();
    match decoder.read_to_end(&mut decompressed) {
        Ok(_) => Ok(decompressed),
        Err(e) => Err(e),
    }
}

/// Passes on what the compressor produced, or reports its fault.
pub fn compression_result(outcome: Result<Vec<u8>, std::io::Error>) -> (result: Result<
    Vec<u8>,
    CryptoError,
>)
    ensures
        result is Ok <==> outcome is Ok,
        result is Ok ==> result->Ok_0 == outcome->Ok_0,
        result is Err ==> result->Err_0 == CryptoError::CompressionError,
{
    match outcome {
        Ok(bytes) => Ok(bytes),
        Err(_) => Err(CryptoError::CompressionError),
    }
}

/// Passes on what the decompressor produced, or reports that the stream
/// was malformed.
pub fn decompression_result(outcome: Result<Vec<u8>, std::io::Error>) -> (result: Result<
    Vec<u8>,
    CryptoError,
>)
    ensures
        result is Ok <==> outcome is Ok,
        result is Ok ==> result->Ok_0 == outcome->Ok_0,
        result is Err ==> result->Err_0 == CryptoError::DecompressionError,
{
    match outcome {
        Ok(bytes) => Ok(bytes),
        Err(_) => Err(CryptoError::DecompressionError),
    }
}

/// Compresses `input` into a gzip stream. It succeeds exactly where the
/// encoder has an encoding for `input`, with that encoding, which then
/// decompresses to `input` again; a fault of the encoder is the only
/// failure.
pub fn compress_data(input: &Vec<u8>) -> (result: Result<Vec<u8>, CryptoError>)
    ensures
        bytes_of(result) == compressed(input@),
        result is Ok <==> gzip_encoding(input@) is Some,
        result is Ok ==> decompressed(result->Ok_0@) == Ok::<Seq<u8>, CryptoError>(input@),
        result is Err ==> result->Err_0 == CryptoError::CompressionError,
{
    compression_result(gz_encode(input))
}

/// Decompresses a gzip stream, or reports `DecompressionError` where
/// `input` is not one.
pub fn decompress_data(input: &Vec<u8>) -> (result: Result<Vec<u8>, CryptoError>)
    ensures
        bytes_of(result) == decompressed(input@),
        result is Ok <==> gzip_decoding(input@) is Some,
        result is Err ==> result->Err_0 == CryptoError::DecompressionError,
{
    decompression_result(gz_decode(input))
}

} // verus!
