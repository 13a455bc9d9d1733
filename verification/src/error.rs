//! The ways in which an operation of this library can fail.

use vstd::prelude::*;

verus! {

/// Why an encryption, a decryption or a (de)compression did not give a result.
#[derive(Clone, Copy, Debug, PartialEq, Eq, Structural)]
pub enum CryptoError {
    /// The frame is shorter than its four-byte length header.
    TruncatedFrame,
    /// The header announces more bytes than the ciphertext holds.
    LengthMismatch,
    /// A buffer handed to the block cipher is not exactly one block long.
    InvalidBlockSize,
    /// The compressor reported a fault.
    CompressionError,
    /// The input is not a well-formed compressed stream.
    DecompressionError,
    /// The buffer is longer than the four-byte length header can say.
    TooLong,
}

/// The outcome of an operation with the bytes of its result in place of
/// the vector that holds them.
pub open spec fn bytes_of(result: Result<Vec<u8>, CryptoError>) -> Result<Seq<u8>, CryptoError> {
    match result {
        Ok(bytes) => Ok(bytes@),
        Err(e) => Err(e),
    }
}

impl CryptoError {
    /// A one-line description for the user.
    pub fn message(&self) -> (text: String)
        ensures
            text@ == self.spec_message(),
    {
        match self {
            CryptoError::TruncatedFrame => "Failed to read original size".to_string(),
            CryptoError::LengthMismatch => "Error: Original size is larger than result length"
                .to_string(),
            CryptoError::InvalidBlockSize => "Invalid block size".to_string(),
            CryptoError::CompressionError => "Error compressing data".to_string(),
            CryptoError::DecompressionError => "Error decompressing data".to_string(),
            CryptoError::TooLong => "Error: Input is too long".to_string(),
        }
    }

    /// The text that `message` returns.
    pub open spec fn spec_message(&self) -> Seq<char> {
        match self {
            CryptoError::TruncatedFrame => "Failed to read original size"@,
            CryptoError::LengthMismatch => "Error: Original size is larger than result length"@,
            CryptoError::InvalidBlockSize => "Invalid block size"@,
            CryptoError::CompressionError => "Error compressing data"@,
            CryptoError::DecompressionError => "Error decompressing data"@,
            CryptoError::TooLong => "Error: Input is too long"@,
        }
    }
}

} // verus!
