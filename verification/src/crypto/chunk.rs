//! Zero padding up to a whole number of blocks, and splitting into blocks.

use crate::error::CryptoError;
use vstd::prelude::*;
use vstd::slice::slice_subrange;
use vstd::slice::slice_to_vec;

verus! {

/// The least multiple of `block` that is at least `len`.
pub open spec fn padded_len(len: nat, block: nat) -> nat
    recommends
        block > 0,
{
    if len % block == 0 {
        len
    } else {
        (len / block + 1) * block
    }
}

/// `data` followed by as many zero bytes as bring it to `padded_len`.
pub open spec fn padded(data: Seq<u8>, block: nat) -> Seq<u8>
    recommends
        block > 0,
{
    data + Seq::new((padded_len(data.len(), block) - data.len()) as nat, |i: int| 0u8)
}

/// `padded_len` is a multiple of the block size, no shorter than `len`,
/// and less than one block longer.
pub proof fn lemma_padded_len(len: nat, block: nat)
    requires
        block > 0,
    ensures
        padded_len(len, block) % block == 0,
        len <= padded_len(len, block) < len + block,
        len % block == 0 ==> padded_len(len, block) == len,
        len % block != 0 ==> padded_len(len, block) == len + block - len % block,
        padded_len(len, block) == ((len + block - 1) / (block as int)) * (block as int),
{
    let n = len as int;
    let b = block as int;
    let q = n / b;
    let r = n % b;
    assert(n == q * b + r && 0 <= r < b && q >= 0) by (nonlinear_arith)
        requires
            b > 0,
            n >= 0,
            q == n / b,
            r == n % b,
    ;
    if r == 0 {
        assert((q * b) % b == 0 && (q * b + b - 1) / b == q) by (nonlinear_arith)
            requires
                b > 0,
                q >= 0,
        ;
    } else {
        assert(((q + 1) * b) % b == 0 && (q + 1) * b == q * b + b && (q * b + r + b - 1) / b == q
            + 1) by (nonlinear_arith)
            requires
                b > 0,
                q >= 0,
                0 < r < b,
        ;
    }
}

/// Appends zero bytes to `data` until its length is a multiple of `chunk_size`.
pub fn pad_bytes(data: &mut Vec<u8>, chunk_size: usize)
    requires
        chunk_size > 0,
    ensures
        final(data)@ == padded(old(data)@, chunk_size as nat),
        final(data)@.len() == padded_len(old(data)@.len(), chunk_size as nat),
        final(data)@.len() % (chunk_size as nat) == 0,
        old(data)@.len() % (chunk_size as nat) == 0 ==> final(data)@ == old(data)@,
{
    let rest: usize = data.len() % chunk_size;
    proof {
        lemma_padded_len(data@.len(), chunk_size as nat);
    }
    if rest != 0 {
        let pad_len: usize = chunk_size - rest;
        let zeros: Vec<u8> = vec![0u8; pad_len];
        data.extend_from_slice(zeros.as_slice());
    }
    assert(data@ =~= padded(old(data)@, chunk_size as nat));
}

/// The `i`-th block of `data` when it is cut into blocks of `block` bytes.
pub open spec fn chunk_at(data: Seq<u8>, block: nat, i: int) -> Seq<u8> {
    data.subrange(i * block, (i + 1) * block)
}

/// The whole blocks of `data`, in order; bytes beyond the last whole block
/// belong to none.
pub open spec fn chunks(data: Seq<u8>, block: nat) -> Seq<Seq<u8>>
    recommends
        block > 0,
{
    Seq::new(data.len() / block, |i: int| chunk_at(data, block, i))
}

/// The `i`-th of the whole blocks lies inside the data.
pub proof fn lemma_chunk_bounds(len: nat, block: nat, i: int)
    requires
        block > 0,
        0 <= i < len / block,
    ensures
        0 <= i * block,
        (i + 1) * block == i * block + block,
        (i + 1) * block <= (len / block) * block <= len,
{
    let b = block as int;
    let n = len as int;
    assert(0 <= i * b && (i + 1) * b == i * b + b && (i + 1) * b <= (n / b) * b && (n / b) * b
        <= n) by (nonlinear_arith)
        requires
            b > 0,
            n >= 0,
            0 <= i < n / b,
    ;
}

/// Cuts `vec` into consecutive blocks of `chunk_size` bytes. A tail shorter
/// than one block is left out, so pad first.
pub fn split_vec_to_chunks(vec: &Vec<u8>, chunk_size: usize) -> (output: Vec<Vec<u8>>)
    requires
        chunk_size > 0,
    ensures
        output@.len() == vec@.len() / (chunk_size as nat),
        forall|i: int|
            0 <= i < output@.len() ==> #[trigger] output@[i]@ == chunk_at(
                vec@,
                chunk_size as nat,
                i,
            ),
        output.deep_view() == chunks(vec@, chunk_size as nat),
{
    let iterations: usize = vec.len() / chunk_size;
    let mut output: Vec<Vec<u8>> = Vec::new();

    for i in 0..iterations
        invariant
            chunk_size > 0,
            vec@.len() <= usize::MAX,
            iterations == vec@.len() / (chunk_size as nat),
            output@.len() == i,
            forall|j: int|
                0 <= j < i ==> #[trigger] output@[j]@ == chunk_at(vec@, chunk_size as nat, j),
    {
        proof {
            lemma_chunk_bounds(vec@.len(), chunk_size as nat, i as int);
        }
        let start: usize = i * chunk_size;
        let end: usize = (i + 1) * chunk_size;
        let chunk: Vec<u8> = slice_to_vec(slice_subrange(vec.as_slice(), start, end));

        output.push(chunk);
    }
    assert(output.deep_view() =~~= chunks(vec@, chunk_size as nat));
    output
}

/// Turns a vector of exactly `N` bytes into an array; any other length is
/// refused.
pub fn vec_to_array<const N: usize>(vec: Vec<u8>) -> (result: Result<[u8; N], CryptoError>)
    ensures
        result is Ok <==> vec@.len() == N,
        result is Ok ==> result->Ok_0@ == vec@,
        result is Err ==> result->Err_0 == CryptoError::InvalidBlockSize,
{
    if vec.len() == N {
        let mut array: [u8; N] = [0u8; N];
        for i in 0..N
            invariant
                vec@.len() == N,
                forall|j: int| 0 <= j < i ==> array@[j] == vec@[j],
        {
            array[i] = vec[i];
        }
        assert(array@ =~= vec@);
        Ok(array)
    } else {
        Err(CryptoError::InvalidBlockSize)
    }
}

} // verus!
