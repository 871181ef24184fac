//! Mathematical model of SHA-512: padding, message schedule, round function,
//! block compression, and hex rendering, stated over `Seq` and fixed-width words.
use vstd::arithmetic::div_mod::{
    lemma_fundamental_div_mod, lemma_mod_division_less_than_divisor, lemma_mod_multiples_basic,
    lemma_mod_self_0, lemma_small_mod,
};
use vstd::prelude::*;

verus! {

/// The eight initial digest words (the fractional parts of the square roots of
/// the first eight primes, as fixed by the algorithm).
pub const IV: [u64; 8] = [
    0x6A09E667F3BCC908,
    0xBB67AE8584CAA73B,
    0x3C6EF372FE94F82B,
    0xA54FF53A5F1D36F1,
    0x510E527FADE682D1,
    0x9B05688C2B3E6C1F,
    0x1F83D9ABFB41BD6B,
    0x5BE0CD19137E2179,
];

/// The eighty round constants (the fractional parts of the cube roots of the
/// first eighty primes, as fixed by the algorithm).
pub const K: [u64; 80] = [
    0x428a2f98d728ae22,
    0x7137449123ef65cd,
    0xb5c0fbcfec4d3b2f,
    0xe9b5dba58189dbbc,
    0x3956c25bf348b538,
    0x59f111f1b605d019,
    0x923f82a4af194f9b,
    0xab1c5ed5da6d8118,
    0xd807aa98a3030242,
    0x12835b0145706fbe,
    0x243185be4ee4b28c,
    0x550c7dc3d5ffb4e2,
    0x72be5d74f27b896f,
    0x80deb1fe3b1696b1,
    0x9bdc06a725c71235,
    0xc19bf174cf692694,
    0xe49b69c19ef14ad2,
    0xefbe4786384f25e3,
    0x0fc19dc68b8cd5b5,
    0x240ca1cc77ac9c65,
    0x2de92c6f592b0275,
    0x4a7484aa6ea6e483,
    0x5cb0a9dcbd41fbd4,
    0x76f988da831153b5,
    0x983e5152ee66dfab,
    0xa831c66d2db43210,
    0xb00327c898fb213f,
    0xbf597fc7beef0ee4,
    0xc6e00bf33da88fc2,
    0xd5a79147930aa725,
    0x06ca6351e003826f,
    0x142929670a0e6e70,
    0x27b70a8546d22ffc,
    0x2e1b21385c26c926,
    0x4d2c6dfc5ac42aed,
    0x53380d139d95b3df,
    0x650a73548baf63de,
    0x766a0abb3c77b2a8,
    0x81c2c92e47edaee6,
    0x92722c851482353b,
    0xa2bfe8a14cf10364,
    0xa81a664bbc423001,
    0xc24b8b70d0f89791,
    0xc76c51a30654be30,
    0xd192e819d6ef5218,
    0xd69906245565a910,
    0xf40e35855771202a,
    0x106aa07032bbd1b8,
    0x19a4c116b8d2d0c8,
    0x1e376c085141ab53,
    0x2748774cdf8eeb99,
    0x34b0bcb5e19b48a8,
    0x391c0cb3c5c95a63,
    0x4ed8aa4ae3418acb,
    0x5b9cca4f7763e373,
    0x682e6ff3d6b2b8a3,
    0x748f82ee5defb2fc,
    0x78a5636f43172f60,
    0x84c87814a1f0ab72,
    0x8cc702081a6439ec,
    0x90befffa23631e28,
    0xa4506cebde82bde9,
    0xbef9a3f7b2c67915,
    0xc67178f2e372532b,
    0xca273eceea26619c,
    0xd186b8c721c0c207,
    0xeada7dd6cde0eb1e,
    0xf57d4f7fee6ed178,
    0x06f067aa72176fba,
    0x0a637dc5a2c898a6,
    0x113f9804bef90dae,
    0x1b710b35131c471b,
    0x28db77f523047d84,
    0x32caab7b40c72493,
    0x3c9ebe0a15c9bebc,
    0x431d67c49c100d4c,
    0x4cc5d4becb3e42b6,
    0x597f299cfc657e2a,
    0x5fcb6fab3ad6faec,
    0x6c44198c4a475817,
];

/// Addition modulo 2^64.
pub open spec fn wadd(x: u64, y: u64) -> u64 {
    x.wrapping_add(y)
}

/// Circular right rotation of a 64-bit word by `n` positions, `0 < n < 64`.
pub open spec fn rotr(x: u64, n: u64) -> u64
    recommends
        0 < n < 64,
{
    (x >> n) | (x << ((64 - n) as u64))
}

/// The choose function: each result bit is taken from `y` where `x` has a one
/// bit and from `z` where it has a zero bit.
pub open spec fn ch_of(x: u64, y: u64, z: u64) -> u64 {
    (x & y) ^ ((!x) & z)
}

/// The majority function: each result bit is the majority of the three
/// corresponding argument bits.
pub open spec fn maj_of(x: u64, y: u64, z: u64) -> u64 {
    (x & y) ^ (x & z) ^ (y & z)
}

/// The big sigma mixing function applied to working variable `a` in each round.
pub open spec fn big_sigma0(x: u64) -> u64 {
    rotr(x, 28) ^ rotr(x, 34) ^ rotr(x, 39)
}

/// The big sigma mixing function applied to working variable `e` in each round.
pub open spec fn big_sigma1(x: u64) -> u64 {
    rotr(x, 14) ^ rotr(x, 18) ^ rotr(x, 41)
}

/// The small sigma mixing function used by the message schedule (first form).
pub open spec fn small_sigma0(x: u64) -> u64 {
    rotr(x, 1) ^ rotr(x, 8) ^ (x >> 7)
}

/// The small sigma mixing function used by the message schedule (second form).
pub open spec fn small_sigma1(x: u64) -> u64 {
    rotr(x, 19) ^ rotr(x, 61) ^ (x >> 6)
}

/// The big-endian 64-bit word formed by the eight bytes of `b` starting at `j`.
pub open spec fn word_be(b: Seq<u8>, j: int) -> u64
    recommends
        0 <= j,
        j + 8 <= b.len(),
{
    ((b[j] as u64) << 56) | ((b[j + 1] as u64) << 48) | ((b[j + 2] as u64) << 40) | ((b[j + 3]
        as u64) << 32) | ((b[j + 4] as u64) << 24) | ((b[j + 5] as u64) << 16) | ((b[j + 6]
        as u64) << 8) | (b[j + 7] as u64)
}

/// Word `i` of the message schedule of a 128-byte block: the first sixteen are
/// the block's big-endian words, the rest mix four earlier words.
pub open spec fn sched(block: Seq<u8>, i: int) -> u64
    recommends
        block.len() == 128,
        0 <= i < 80,
    decreases i,
{
    if i < 16 {
        word_be(block, 8 * i)
    } else {
        wadd(
            wadd(wadd(sched(block, i - 16), sched(block, i - 7)), small_sigma0(sched(block, i - 15))),
            small_sigma1(sched(block, i - 2)),
        )
    }
}

/// One compression round applied to the working variables `v = [a..h]`,
/// using schedule word `i` of `block` and round constant `i`.
pub open spec fn round_step(v: Seq<u64>, block: Seq<u8>, i: int) -> Seq<u64>
    recommends
        v.len() == 8,
        block.len() == 128,
        0 <= i < 80,
{
    let t1 = wadd(wadd(wadd(wadd(v[7], big_sigma1(v[4])), ch_of(v[4], v[5], v[6])), K[i]), sched(block, i));
    let t2 = wadd(big_sigma0(v[0]), maj_of(v[0], v[1], v[2]));
    seq![wadd(t1, t2), v[0], v[1], v[2], wadd(v[3], t1), v[4], v[5], v[6]]
}

/// The working variables after the first `n` compression rounds of `block`,
/// starting from the incoming digest state `st`.
pub open spec fn rounds(st: Seq<u64>, block: Seq<u8>, n: int) -> Seq<u64>
    recommends
        st.len() == 8,
        block.len() == 128,
        n <= 80,
    decreases n,
{
    if n <= 0 {
        st
    } else {
        round_step(rounds(st, block, n - 1), block, n - 1)
    }
}

/// The digest state after compressing one 128-byte block: eighty rounds,
/// then the additive feed-forward of the incoming state.
pub open spec fn compress(st: Seq<u64>, block: Seq<u8>) -> Seq<u64>
    recommends
        st.len() == 8,
        block.len() == 128,
{
    let v = rounds(st, block, 80);
    Seq::new(8, |i: int| wadd(st[i], v[i]))
}

/// Left-fold of `compress` over the 128-byte blocks of `data`, in order.
pub open spec fn fold_blocks(st: Seq<u64>, data: Seq<u8>) -> Seq<u64>
    recommends
        st.len() == 8,
        data.len() % 128 == 0,
    decreases data.len(),
{
    if data.len() < 128 {
        st
    } else {
        fold_blocks(compress(st, data.take(128)), data.skip(128))
    }
}

/// The number of zero bytes inserted between the `0x80` byte and the 16-byte
/// length trailer when padding a message of `l` bytes.
pub open spec fn zero_pad_len(l: nat) -> nat {
    (((128 - ((l + 17) % 128)) as int) % 128) as nat
}

/// Byte `i` (from the most significant end) of the 16-byte big-endian
/// encoding of the bit length of a message of `l` bytes.
pub open spec fn len_byte(l: nat, i: int) -> u8
    recommends
        0 <= i < 16,
{
    ((((8 * l) as u128) >> (((15 - i) * 8) as u128)) & 0xff) as u8
}

/// The padded form of message `m`: the message, one `0x80` byte, the minimal
/// run of zero bytes, and the 128-bit big-endian bit length.
pub open spec fn padded_msg(m: Seq<u8>) -> Seq<u8> {
    m + seq![0x80u8] + Seq::new(zero_pad_len(m.len()), |i: int| 0u8) + Seq::new(
        16,
        |i: int| len_byte(m.len(), i),
    )
}

/// The padded buffer is made of the message, the marker byte, the zero run
/// and the 16-byte trailer; its length is always a positive multiple of 128
/// bytes and strictly greater than the message length.
pub proof fn lemma_padded_len(m: Seq<u8>)
    ensures
        padded_msg(m).len() == m.len() + 17 + zero_pad_len(m.len()),
        padded_msg(m).len() % 128 == 0,
        padded_msg(m).len() > m.len(),
        padded_msg(m).len() > 0,
{
    let l = m.len() as int;
    let r = (l + 17) % 128;
    lemma_mod_division_less_than_divisor(l + 17, 128);
    lemma_fundamental_div_mod(l + 17, 128);
    let q = (l + 17) / 128;
    if r == 0 {
        lemma_mod_self_0(128);
        assert(zero_pad_len(m.len()) == 0);
        assert(padded_msg(m).len() == 128 * q);
        lemma_mod_multiples_basic(q, 128);
    } else {
        lemma_small_mod((128 - r) as nat, 128);
        assert(zero_pad_len(m.len()) == 128 - r);
        assert(padded_msg(m).len() == 128 * (q + 1));
        lemma_mod_multiples_basic(q + 1, 128);
    }
}

/// The eight final digest words of message `m`.
pub open spec fn sha512_words(m: Seq<u8>) -> Seq<u64> {
    fold_blocks(IV@, padded_msg(m))
}

/// Folding the compression function over any whole number of blocks keeps
/// the digest state at exactly eight words.
pub proof fn lemma_fold_blocks_len(st: Seq<u64>, data: Seq<u8>)
    requires
        st.len() == 8,
    ensures
        fold_blocks(st, data).len() == 8,
    decreases data.len(),
{
    if data.len() >= 128 {
        lemma_fold_blocks_len(compress(st, data.take(128)), data.skip(128));
    }
}

/// Hashing is deterministic: two messages with identical bytes have
/// identical digests.
pub proof fn lemma_digest_deterministic(m1: Seq<u8>, m2: Seq<u8>)
    requires
        m1 == m2,
    ensures
        sha512_hex(m1) == sha512_hex(m2),
{
}

/// Nibble `i` (from the most significant end) of a 64-bit word.
pub open spec fn nibble(x: u64, i: int) -> u64
    recommends
        0 <= i < 16,
{
    (x >> ((60 - 4 * i) as u64)) & 0xf
}

/// The lowercase hex character for a value below sixteen.
pub open spec fn hex_digit(d: u64) -> char
    recommends
        d < 16,
{
    if d == 0 {
        '0'
    } else if d == 1 {
        '1'
    } else if d == 2 {
        '2'
    } else if d == 3 {
        '3'
    } else if d == 4 {
        '4'
    } else if d == 5 {
        '5'
    } else if d == 6 {
        '6'
    } else if d == 7 {
        '7'
    } else if d == 8 {
        '8'
    } else if d == 9 {
        '9'
    } else if d == 10 {
        'a'
    } else if d == 11 {
        'b'
    } else if d == 12 {
        'c'
    } else if d == 13 {
        'd'
    } else if d == 14 {
        'e'
    } else {
        'f'
    }
}

/// The hex rendering of a word sequence: sixteen zero-padded lowercase digits
/// per word, concatenated in order.
pub open spec fn hex_of_words(ws: Seq<u64>) -> Seq<char> {
    Seq::new(16 * ws.len(), |i: int| hex_digit(nibble(ws[i / 16], i % 16)))
}

/// The 128-character lowercase hex digest of message `m`.
pub open spec fn sha512_hex(m: Seq<u8>) -> Seq<char> {
    hex_of_words(sha512_words(m))
}

/// Whether `c` is a lowercase hexadecimal character.
pub open spec fn is_hex_char(c: char) -> bool {
    c == '0' || c == '1' || c == '2' || c == '3' || c == '4' || c == '5' || c == '6' || c == '7'
        || c == '8' || c == '9' || c == 'a' || c == 'b' || c == 'c' || c == 'd' || c == 'e' || c
        == 'f'
}

/// The digest of any message is exactly 128 characters, each a lowercase
/// hexadecimal digit.
pub proof fn lemma_digest_hex_format(m: Seq<u8>)
    ensures
        sha512_hex(m).len() == 128,
        forall|i: int| 0 <= i < 128 ==> is_hex_char(sha512_hex(m)[i]),
{
    lemma_fold_blocks_len(IV@, padded_msg(m));
    let ws = sha512_words(m);
    assert(ws.len() == 8);
    assert forall|i: int| 0 <= i < 128 implies is_hex_char(sha512_hex(m)[i]) by {
        let x = ws[i / 16];
        let sh = ((60 - 4 * (i % 16)) as u64);
        assert((x >> sh) & 0xf < 16) by (bit_vector);
        assert(nibble(x, i % 16) < 16);
        assert(sha512_hex(m)[i] == hex_digit(nibble(x, i % 16)));
    }
}

} // verus!
