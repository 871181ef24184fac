//! The padder: extends a message with the `0x80` marker byte, the minimal
//! zero run, and the 128-bit big-endian bit-length trailer, so that the
//! result is a positive multiple of 128 bytes.
use crate::model::{len_byte, lemma_padded_len, padded_msg, zero_pad_len};
use vstd::arithmetic::div_mod::{
    lemma_add_mod_noop, lemma_mod_division_less_than_divisor, lemma_mod_self_0, lemma_small_mod,
};
use vstd::prelude::*;
use vstd::slice::slice_to_vec;
use vstd::string::StringSliceAdditionalSpecFns;

verus! {

/// Pads `m` as SHA-512 requires. The result always has a positive length
/// that is a multiple of 128 bytes and begins with `m` itself.
pub fn pad_message(m: &[u8]) -> (r: Vec<u8>)
    ensures
        r@ == padded_msg(m@),
        r@.len() % 128 == 0,
        r@.len() > m@.len(),
{
    let len: usize = m.len();
    let mut buffer: Vec<u8> = slice_to_vec(m);
    buffer.push(0x80);
    let r17: usize = (len % 128 + 17) % 128;
    proof {
        lemma_small_mod(17, 128);
        lemma_add_mod_noop(len as int, 17, 128);
        assert(r17 == ((len + 17) as int) % 128);
        lemma_mod_division_less_than_divisor((len + 17) as int, 128);
    }
    let padding_len: usize = if r17 == 0 {
        proof {
            lemma_mod_self_0(128);
        }
        0
    } else {
        proof {
            lemma_small_mod((128 - r17) as nat, 128);
        }
        128 - r17
    };
    assert(padding_len == zero_pad_len(m@.len()));
    let mut i: usize = 0;
    while i < padding_len
        invariant
            i <= padding_len,
            buffer@ == m@ + seq![0x80u8] + Seq::new(i as nat, |k: int| 0u8),
        decreases padding_len - i,
    {
        buffer.push(0);
        proof {
            assert(Seq::new((i + 1) as nat, |k: int| 0u8) =~= Seq::new(i as nat, |k: int| 0u8).push(
                0u8,
            ));
            assert(buffer@ =~= m@ + seq![0x80u8] + Seq::new((i + 1) as nat, |k: int| 0u8));
        }
        i = i + 1;
    }
    let bits: u128 = (len as u128) * 8;
    let mut j: usize = 0;
    while j < 16
        invariant
            j <= 16,
            bits == (8 * m@.len()) as u128,
            buffer@ == m@ + seq![0x80u8] + Seq::new(zero_pad_len(m@.len()), |k: int| 0u8)
                + Seq::new(j as nat, |k: int| len_byte(m@.len(), k)),
        decreases 16 - j,
    {
        let sh: u128 = ((15 - j) * 8) as u128;
        assert(((bits >> sh) & 0xff) < 256) by (bit_vector);
        let byte: u8 = ((bits >> sh) & 0xff) as u8;
        assert(byte == len_byte(m@.len(), j as int));
        buffer.push(byte);
        proof {
            assert(Seq::new((j + 1) as nat, |k: int| len_byte(m@.len(), k)) =~= Seq::new(
                j as nat,
                |k: int| len_byte(m@.len(), k),
            ).push(byte));
            assert(buffer@ =~= m@ + seq![0x80u8] + Seq::new(zero_pad_len(m@.len()), |k: int| 0u8)
                + Seq::new((j + 1) as nat, |k: int| len_byte(m@.len(), k)));
        }
        j = j + 1;
    }
    proof {
        assert(buffer@ =~= padded_msg(m@));
        lemma_padded_len(m@);
    }
    buffer
}

/// Pads the UTF-8 bytes of `input`, exactly as [`pad_message`] does.
pub fn process_user_input(input: &str) -> (r: Vec<u8>)
    ensures
        r@ == padded_msg(input.spec_bytes()),
        r@.len() % 128 == 0,
        r@.len() > input.spec_bytes().len(),
{
    pad_message(input.as_bytes())
}

} // verus!
