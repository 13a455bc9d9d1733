//! The block cipher: AES-128 applied to one 16-byte block at a time, each
//! block on its own, and what that gives over a whole buffer.

use crate::crypto::chunk::chunk_at;
use crate::crypto::chunk::vec_to_array;
use crate::error::CryptoError;
use aes::cipher::generic_array::GenericArray;
use aes::cipher::BlockDecrypt;
use aes::cipher::BlockEncrypt;
use aes::cipher::KeyInit;
use aes::Aes128;
use vstd::prelude::*;

verus! {

/// The AES-128 encryption of the 16-byte `block` under the 16-byte `key`.
pub uninterp spec fn aes128_encryption(key: Seq<u8>, block: Seq<u8>) -> Seq<u8>;

/// The AES-128 decryption of the 16-byte `block` under the 16-byte `key`.
pub uninterp spec fn aes128_decryption(key: Seq<u8>, block: Seq<u8>) -> Seq<u8>;

/// Runs `Aes128::encrypt_block` of the `aes` crate on a copy of `block`,
/// with a cipher made by `Aes128::new` from `key`.
///
/// Believed, not proved: the result is the AES-128 encryption of the block,
/// it is 16 bytes long, and AES-128 decryption under the same key gives the
/// block back.
#[verifier::external_body]
fn aes128_encrypt(key: &[u8; 16], block: &[u8]) -> (out: Vec<u8>)
    requires
        block@.len() == 16,
    ensures
        out@ == aes128_encryption(key@, block@),
        out@.len() == 16,
        aes128_decryption(key@, out@) == block@,
{
    let cipher = Aes128::new(&GenericArray::from(*key));
    let mut buffer = GenericArray::clone_from_slice(block);
    cipher.encrypt_block(&mut buffer);
    buffer.to_vec()
}

/// Runs `Aes128::decrypt_block` of the `aes` crate on a copy of `block`,
/// with a cipher made by `Aes128::new` from `key`.
///
/// Believed, not proved: the result is the AES-128 decryption of the block,
/// and it is 16 bytes long.
#[verifier::external_body]
fn aes128_decrypt(key: &[u8; 16], block: &[u8; 16]) -> (out: Vec<u8>)
    ensures
        out@ == aes128_decryption(key@, block@),
        out@.len() == 16,
{
    let cipher = Aes128::new(&GenericArray::from(*key));
    let mut buffer = GenericArray::clone_from_slice(block);
    cipher.decrypt_block(&mut buffer);
    buffer.to_vec()
}

/// Encrypts one block. The block must be exactly 16 bytes long.
pub fn encrypt_vec_block(key: &[u8; 16], vec_block: &Vec<u8>) -> (out: Vec<u8>)
    requires
        vec_block@.len() == 16,
    ensures
        out@ == aes128_encryption(key@, vec_block@),
        out@.len() == 16,
        aes128_decryption(key@, out@) == vec_block@,
{
    aes128_encrypt(key, vec_block.as_slice())
}

/// Decrypts one block, or refuses a buffer that is not exactly 16 bytes long.
pub fn decrypt_vec_block(key: &[u8; 16], vec_block: &Vec<u8>) -> (result: Result<
    Vec<u8>,
    CryptoError,
>)
    ensures
        result is Ok <==> vec_block@.len() == 16,
        result is Ok ==> result->Ok_0@ == aes128_decryption(key@, vec_block@)
            && result->Ok_0@.len() == 16,
        result is Err ==> result->Err_0 == CryptoError::InvalidBlockSize,
{
    if vec_block.len() != 16 {
        return Err(CryptoError::InvalidBlockSize);
    }
    let block_array: [u8; 16] = match vec_to_array::<16>(vec_block.clone()) {
        Ok(array) => array,
        Err(e) => {
            return Err(e);
        },
    };
    let decrypted_bytes: Vec<u8> = aes128_decrypt(key, &block_array);
    Ok(decrypted_bytes)
}

/// The encryptions of the first `n` blocks of `data`, one after the other.
pub open spec fn encrypted_blocks(key: Seq<u8>, data: Seq<u8>, n: nat) -> Seq<u8>
    decreases n,
{
    if n == 0 {
        Seq::empty()
    } else {
        encrypted_blocks(key, data, (n - 1) as nat) + aes128_encryption(
            key,
            chunk_at(data, 16, n - 1),
        )
    }
}

/// The decryptions of the first `n` blocks of `data`, one after the other.
pub open spec fn decrypted_blocks(key: Seq<u8>, data: Seq<u8>, n: nat) -> Seq<u8>
    decreases n,
{
    if n == 0 {
        Seq::empty()
    } else {
        decrypted_blocks(key, data, (n - 1) as nat) + aes128_decryption(
            key,
            chunk_at(data, 16, n - 1),
        )
    }
}

/// Every whole block of `data` encrypted on its own, in order.
pub open spec fn ciphertext_of(key: Seq<u8>, data: Seq<u8>) -> Seq<u8> {
    encrypted_blocks(key, data, data.len() / 16)
}

/// Every whole block of `data` decrypted on its own, in order.
pub open spec fn plaintext_of(key: Seq<u8>, data: Seq<u8>) -> Seq<u8> {
    decrypted_blocks(key, data, data.len() / 16)
}

/// The first `n` decrypted blocks depend on the first `16 * n` bytes only.
pub proof fn lemma_decrypted_blocks_of_prefix(key: Seq<u8>, a: Seq<u8>, b: Seq<u8>, n: nat)
    requires
        16 * n <= a.len(),
        16 * n <= b.len(),
        a.subrange(0, 16 * n as int) == b.subrange(0, 16 * n as int),
    ensures
        decrypted_blocks(key, a, n) == decrypted_blocks(key, b, n),
    decreases n,
{
    if n > 0 {
        let hi = 16 * n as int;
        let lo = hi - 16;
        assert(a.subrange(0, lo) =~= a.subrange(0, hi).subrange(0, lo));
        assert(b.subrange(0, lo) =~= b.subrange(0, hi).subrange(0, lo));
        lemma_decrypted_blocks_of_prefix(key, a, b, (n - 1) as nat);
        assert(chunk_at(a, 16, n - 1) =~= a.subrange(0, hi).subrange(lo, hi));
        assert(chunk_at(b, 16, n - 1) =~= b.subrange(0, hi).subrange(lo, hi));
    }
}

} // verus!
