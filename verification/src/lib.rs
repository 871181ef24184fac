//! SHA-512 message digest, verified end to end: padding, message schedule,
//! block compression and hex rendering are each proved against the
//! mathematical model in [`model`].
pub mod compressor;
pub mod hex;
pub mod model;
pub mod padding;

use crate::compressor::process_buffer_chunk;
use crate::hex::words_to_hex;
use crate::model::{
    compress, fold_blocks, hex_of_words, is_hex_char, lemma_digest_hex_format, sha512_hex, IV,
};
use crate::padding::pad_message;
use vstd::arithmetic::div_mod::lemma_fundamental_div_mod;
use vstd::prelude::*;
use vstd::slice::slice_subrange;

verus! {

/// Hashes a whole padded buffer: the compression function is folded over its
/// 128-byte blocks in order, starting from the fixed initial state, and the
/// final eight words are rendered as 128 hex characters.
pub fn process_buffer(buffer: Vec<u8>) -> (r: String)
    requires
        buffer@.len() % 128 == 0,
    ensures
        r@ == hex_of_words(fold_blocks(IV@, buffer@)),
{
    let mut current: [u64; 8] = IV;
    let total: usize = buffer.len();
    let n: usize = total / 128;
    proof {
        lemma_fundamental_div_mod(total as int, 128);
        assert(total == 128 * n);
        assert(buffer@.skip(0) =~= buffer@);
    }
    let mut b: usize = 0;
    while b < n
        invariant
            b <= n,
            current@.len() == 8,
            buffer@.len() == total,
            total == 128 * n,
            fold_blocks(current@, buffer@.skip(128 * b as int)) == fold_blocks(IV@, buffer@),
        decreases n - b,
    {
        let start: usize = b * 128;
        let chunk: &[u8] = slice_subrange(buffer.as_slice(), start, start + 128);
        proof {
            let s = buffer@.skip(128 * b as int);
            assert(chunk@ =~= s.take(128));
            assert(s.skip(128) =~= buffer@.skip(128 * (b + 1) as int));
            assert(fold_blocks(current@, s) == fold_blocks(
                compress(current@, s.take(128)),
                s.skip(128),
            ));
        }
        current = process_buffer_chunk(chunk, &current);
        b = b + 1;
    }
    proof {
        assert(buffer@.skip(128 * n as int) =~= Seq::<u8>::empty());
    }
    words_to_hex(&current)
}

/// Computes the SHA-512 digest of `bytes` as a 128-character lowercase
/// hexadecimal string. Total over all inputs, including the empty one.
pub fn digest(bytes: &[u8]) -> (r: String)
    ensures
        r@ == sha512_hex(bytes@),
        r@.len() == 128,
        forall|i: int| 0 <= i < 128 ==> is_hex_char(r@[i]),
{
    let buffer = pad_message(bytes);
    proof {
        lemma_digest_hex_format(bytes@);
    }
    process_buffer(buffer)
}

} // verus!
