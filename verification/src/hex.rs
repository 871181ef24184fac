//! Rendering of digest words as zero-padded lowercase hexadecimal text.
use crate::model::{hex_digit, hex_of_words, nibble};
use vstd::arithmetic::div_mod::lemma_fundamental_div_mod_converse;
use vstd::prelude::*;
use vstd::string::StringExecFns;

verus! {

/// Appends the lowercase hex character for `d` to `s`.
fn push_hex_digit(s: &mut String, d: u64)
    requires
        d < 16,
    ensures
        final(s)@ == old(s)@.push(hex_digit(d)),
{
    proof {
        reveal_strlit("0");
        reveal_strlit("1");
        reveal_strlit("2");
        reveal_strlit("3");
        reveal_strlit("4");
        reveal_strlit("5");
        reveal_strlit("6");
        reveal_strlit("7");
        reveal_strlit("8");
        reveal_strlit("9");
        reveal_strlit("a");
        reveal_strlit("b");
        reveal_strlit("c");
        reveal_strlit("d");
        reveal_strlit("e");
        reveal_strlit("f");
    }
    if d == 0 {
        s.append("0");
    } else if d == 1 {
        s.append("1");
    } else if d == 2 {
        s.append("2");
    } else if d == 3 {
        s.append("3");
    } else if d == 4 {
        s.append("4");
    } else if d == 5 {
        s.append("5");
    } else if d == 6 {
        s.append("6");
    } else if d == 7 {
        s.append("7");
    } else if d == 8 {
        s.append("8");
    } else if d == 9 {
        s.append("9");
    } else if d == 10 {
        s.append("a");
    } else if d == 11 {
        s.append("b");
    } else if d == 12 {
        s.append("c");
    } else if d == 13 {
        s.append("d");
    } else if d == 14 {
        s.append("e");
    } else {
        s.append("f");
    }
    proof {
        assert(final(s)@ =~= old(s)@.push(hex_digit(d)));
    }
}

/// Renders the eight digest words as 128 zero-padded lowercase hex characters,
/// most significant nibble of word zero first.
pub fn words_to_hex(words: &[u64; 8]) -> (r: String)
    ensures
        r@ == hex_of_words(words@),
{
    let mut s = String::new();
    let mut w: usize = 0;
    while w < 8
        invariant
            w <= 8,
            s@ == hex_of_words(words@).take(16 * w as int),
        decreases 8 - w,
    {
        let x: u64 = words[w];
        let mut n: usize = 0;
        while n < 16
            invariant
                w < 8,
                n <= 16,
                x == words@[w as int],
                s@ == hex_of_words(words@).take(16 * w + n),
            decreases 16 - n,
        {
            let sh: u64 = (60 - 4 * n) as u64;
            let d: u64 = (x >> sh) & 0xf;
            assert((x >> sh) & 0xf < 16) by (bit_vector);
            assert(d == nibble(x, n as int));
            push_hex_digit(&mut s, d);
            proof {
                let k = 16 * w + n;
                lemma_fundamental_div_mod_converse(k as int, 16, w as int, n as int);
                assert(hex_of_words(words@)[k as int] == hex_digit(nibble(x, n as int)));
                assert(s@ =~= hex_of_words(words@).take(k + 1));
            }
            n = n + 1;
        }
        w = w + 1;
    }
    proof {
        assert(s@ =~= hex_of_words(words@));
    }
    s
}

} // verus!
