//! The mixing primitives, the per-block message schedule, and the
//! compression function.
use crate::model::{
    big_sigma0, big_sigma1, ch_of, compress, maj_of, rotr, round_step, rounds, sched,
    small_sigma0, small_sigma1, word_be, K,
};
use vstd::prelude::*;

verus! {

/// Circular right rotation of a 64-bit word.
pub fn rotr64(x: u64, n: u64) -> (r: u64)
    requires
        0 < n < 64,
    ensures
        r == rotr(x, n),
{
    (x >> n) | (x << (64 - n))
}

/// The choose function of the compression rounds.
pub fn ch(x: u64, y: u64, z: u64) -> (r: u64)
    ensures
        r == ch_of(x, y, z),
{
    (x & y) ^ ((!x) & z)
}

/// The majority function of the compression rounds.
pub fn maj(x: u64, y: u64, z: u64) -> (r: u64)
    ensures
        r == maj_of(x, y, z),
{
    (x & y) ^ (x & z) ^ (y & z)
}

/// The big sigma mixing function applied to working variable `a`.
pub fn sigma0(x: u64) -> (r: u64)
    ensures
        r == big_sigma0(x),
{
    rotr64(x, 28) ^ rotr64(x, 34) ^ rotr64(x, 39)
}

/// The big sigma mixing function applied to working variable `e`.
pub fn sigma1(x: u64) -> (r: u64)
    ensures
        r == big_sigma1(x),
{
    rotr64(x, 14) ^ rotr64(x, 18) ^ rotr64(x, 41)
}

/// The eighty-word message schedule of one 128-byte block.
pub fn message_schedule(chunk: &[u8]) -> (w: [u64; 80])
    requires
        chunk@.len() == 128,
    ensures
        forall|i: int| 0 <= i < 80 ==> w@[i] == sched(chunk@, i),
{
    let mut schedule: [u64; 80] = [0u64; 80];
    let mut i: usize = 0;
    while i < 16
        invariant
            i <= 16,
            chunk@.len() == 128,
            forall|j: int| 0 <= j < i ==> schedule@[j] == sched(chunk@, j),
        decreases 16 - i,
    {
        let s: usize = i * 8;
        let word: u64 = ((chunk[s] as u64) << 56) | ((chunk[s + 1] as u64) << 48) | ((chunk[s + 2]
            as u64) << 40) | ((chunk[s + 3] as u64) << 32) | ((chunk[s + 4] as u64) << 24) | ((
        chunk[s + 5] as u64) << 16) | ((chunk[s + 6] as u64) << 8) | (chunk[s + 7] as u64);
        assert(word == word_be(chunk@, 8 * i));
        schedule[i] = word;
        i = i + 1;
    }
    while i < 80
        invariant
            16 <= i <= 80,
            chunk@.len() == 128,
            forall|j: int| 0 <= j < i ==> schedule@[j] == sched(chunk@, j),
        decreases 80 - i,
    {
        let s0: u64 = rotr64(schedule[i - 15], 1) ^ rotr64(schedule[i - 15], 8) ^ (schedule[i - 15]
            >> 7);
        let s1: u64 = rotr64(schedule[i - 2], 19) ^ rotr64(schedule[i - 2], 61) ^ (schedule[i - 2]
            >> 6);
        assert(s0 == small_sigma0(sched(chunk@, i - 15)));
        assert(s1 == small_sigma1(sched(chunk@, i - 2)));
        schedule[i] = schedule[i - 16].wrapping_add(schedule[i - 7]).wrapping_add(s0).wrapping_add(
            s1,
        );
        i = i + 1;
    }
    schedule
}

/// One block of the compression: eighty rounds over the working variables,
/// then the additive feed-forward into the incoming digest state.
pub fn process_buffer_chunk(chunk: &[u8], current_buffer: &[u64; 8]) -> (r: [u64; 8])
    requires
        chunk@.len() == 128,
    ensures
        r@ == compress(current_buffer@, chunk@),
{
    let schedule = message_schedule(chunk);
    let mut a = current_buffer[0];
    let mut b = current_buffer[1];
    let mut c = current_buffer[2];
    let mut d = current_buffer[3];
    let mut e = current_buffer[4];
    let mut f = current_buffer[5];
    let mut g = current_buffer[6];
    let mut h = current_buffer[7];
    let mut i: usize = 0;
    while i < 80
        invariant
            i <= 80,
            chunk@.len() == 128,
            forall|j: int| 0 <= j < 80 ==> schedule@[j] == sched(chunk@, j),
            a == rounds(current_buffer@, chunk@, i as int)[0],
            b == rounds(current_buffer@, chunk@, i as int)[1],
            c == rounds(current_buffer@, chunk@, i as int)[2],
            d == rounds(current_buffer@, chunk@, i as int)[3],
            e == rounds(current_buffer@, chunk@, i as int)[4],
            f == rounds(current_buffer@, chunk@, i as int)[5],
            g == rounds(current_buffer@, chunk@, i as int)[6],
            h == rounds(current_buffer@, chunk@, i as int)[7],
        decreases 80 - i,
    {
        let temp1 = h.wrapping_add(sigma1(e)).wrapping_add(ch(e, f, g)).wrapping_add(
            K[i],
        ).wrapping_add(schedule[i]);
        let temp2 = sigma0(a).wrapping_add(maj(a, b, c));
        proof {
            let v = rounds(current_buffer@, chunk@, i as int);
            assert(rounds(current_buffer@, chunk@, i + 1) == round_step(v, chunk@, i as int));
        }
        h = g;
        g = f;
        f = e;
        e = d.wrapping_add(temp1);
        d = c;
        c = b;
        b = a;
        a = temp1.wrapping_add(temp2);
        i = i + 1;
    }
    let mut result: [u64; 8] = *current_buffer;
    result[0] = result[0].wrapping_add(a);
    result[1] = result[1].wrapping_add(b);
    result[2] = result[2].wrapping_add(c);
    result[3] = result[3].wrapping_add(d);
    result[4] = result[4].wrapping_add(e);
    result[5] = result[5].wrapping_add(f);
    result[6] = result[6].wrapping_add(g);
    result[7] = result[7].wrapping_add(h);
    proof {
        assert(result@ =~= compress(current_buffer@, chunk@));
    }
    result
}

} // verus!
