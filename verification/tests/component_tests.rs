use sha512::compressor::{ch, maj, message_schedule, process_buffer_chunk, rotr64, sigma0, sigma1};
use sha512::hex::words_to_hex;
use sha512::model::{IV, K};
use sha512::padding::{pad_message, process_user_input};
use sha512::process_buffer;

#[test]
fn padded_buffer_length_is_positive_multiple_of_128() {
    for len in [0usize, 1, 55, 110, 111, 112, 113, 127, 128, 129, 200, 255, 256, 300] {
        let input = vec![0x5au8; len];
        let padded = pad_message(&input);
        assert!(padded.len() > 0);
        assert!(padded.len() % 128 == 0);
        assert!(padded.len() > input.len());
    }
}

#[test]
fn padding_layout_of_short_message() {
    let padded = pad_message(b"abc");
    assert_eq!(padded.len(), 128);
    assert_eq!(&padded[0..3], b"abc");
    assert_eq!(padded[3], 0x80);
    for i in 4..126 {
        assert_eq!(padded[i], 0x00);
    }
    // 3 bytes of message is 24 bits, big-endian in the last two trailer bytes.
    assert_eq!(padded[126], 0x00);
    assert_eq!(padded[127], 24);
}

#[test]
fn padding_boundary_needs_no_zero_bytes() {
    // 111 message bytes + 0x80 + 16 trailer bytes fill one block exactly.
    let padded = pad_message(&vec![b'x'; 111]);
    assert_eq!(padded.len(), 128);
    assert_eq!(padded[111], 0x80);
    // 111 * 8 = 888 = 0x378 bits.
    assert_eq!(padded[126], 0x03);
    assert_eq!(padded[127], 0x78);
}

#[test]
fn padding_boundary_forces_extra_block() {
    // 112 message bytes leave no room for the trailer in the first block.
    let padded = pad_message(&vec![b'x'; 112]);
    assert_eq!(padded.len(), 256);
    assert_eq!(padded[112], 0x80);
    for i in 113..254 {
        assert_eq!(padded[i], 0x00);
    }
    // 112 * 8 = 896 = 0x380 bits.
    assert_eq!(padded[254], 0x03);
    assert_eq!(padded[255], 0x80);
}

#[test]
fn process_user_input_pads_utf8_bytes() {
    assert_eq!(process_user_input("abc"), pad_message(b"abc"));
    assert_eq!(process_user_input(""), pad_message(b""));
}

#[test]
fn choose_function_picks_bits() {
    assert_eq!(ch(0b1100, 0b1010, 0b0110), 0b1010);
    assert_eq!(ch(0, 0xdead, 0xbeef), 0xbeef);
    assert_eq!(ch(u64::MAX, 0xdead, 0xbeef), 0xdead);
}

#[test]
fn majority_function_takes_majority_bits() {
    assert_eq!(maj(0b1100, 0b1010, 0b0110), 0b1110);
    assert_eq!(maj(7, 7, 0), 7);
    assert_eq!(maj(0, 5, 5), 5);
}

#[test]
fn rotation_is_circular() {
    assert_eq!(rotr64(1, 1), 0x8000_0000_0000_0000);
    assert_eq!(rotr64(0x8000_0000_0000_0000, 63), 1);
    assert_eq!(rotr64(0x0123_4567_89ab_cdef, 8), 0xef01_2345_6789_abcd);
}

#[test]
fn sigma_functions_match_rotation_formulas() {
    // sigma0 rotates by 28, 34 and 39; sigma1 by 14, 18 and 41.
    assert_eq!(sigma0(1), (1u64 << 36) ^ (1u64 << 30) ^ (1u64 << 25));
    assert_eq!(sigma1(1), (1u64 << 50) ^ (1u64 << 46) ^ (1u64 << 23));
    let x = 0x0123_4567_89ab_cdefu64;
    assert_eq!(sigma0(x), x.rotate_right(28) ^ x.rotate_right(34) ^ x.rotate_right(39));
    assert_eq!(sigma1(x), x.rotate_right(14) ^ x.rotate_right(18) ^ x.rotate_right(41));
}

#[test]
fn schedule_starts_with_big_endian_words() {
    let block = pad_message(b"abc");
    let w = message_schedule(&block);
    assert_eq!(w[0], 0x6162638000000000);
    for i in 1..15 {
        assert_eq!(w[i], 0);
    }
    assert_eq!(w[15], 24);
    // W[16] = W[0] + s0(W[1]) + W[9] + s1(W[14]); here only W[0] is non-zero
    // and s0(0) = s1(0) = 0.
    assert_eq!(w[16], 0x6162638000000000);
}

#[test]
fn schedule_expansion_matches_formula() {
    let block = pad_message(b"abc");
    let w = message_schedule(&block);
    for i in 16..80 {
        let s0 = w[i - 15].rotate_right(1) ^ w[i - 15].rotate_right(8) ^ (w[i - 15] >> 7);
        let s1 = w[i - 2].rotate_right(19) ^ w[i - 2].rotate_right(61) ^ (w[i - 2] >> 6);
        let expected = w[i - 16]
            .wrapping_add(w[i - 7])
            .wrapping_add(s0)
            .wrapping_add(s1);
        assert_eq!(w[i], expected);
    }
}

#[test]
fn compression_feeds_state_forward() {
    let block = pad_message(b"abc");
    let next = process_buffer_chunk(&block, &IV);
    // The digest state is never replaced wholesale: an all-zero round result
    // would leave the state unchanged, and the known "abc" digest shows the
    // feed-forward output below.
    assert_ne!(next, IV);
    let hex = words_to_hex(&next);
    assert_eq!(
        hex,
        "ddaf35a193617abacc417349ae20413112e6fa4e89a97ea20a9eeee64b55d39a\
         2192992a274fc1a836ba3c23a3feebbd454d4423643ce80e2a9ac94fa54ca49f"
    );
}

#[test]
fn process_buffer_hashes_padded_buffer() {
    let d = process_buffer(pad_message(b"abc"));
    assert_eq!(
        d,
        "ddaf35a193617abacc417349ae20413112e6fa4e89a97ea20a9eeee64b55d39a\
         2192992a274fc1a836ba3c23a3feebbd454d4423643ce80e2a9ac94fa54ca49f"
    );
}

#[test]
fn words_render_as_zero_padded_hex() {
    assert_eq!(words_to_hex(&[0; 8]), "0".repeat(128));
    let words = [0x0123456789abcdefu64, 0x1, 0, 0, 0, 0, 0, 0xfedcba9876543210];
    let hex = words_to_hex(&words);
    assert_eq!(&hex[0..16], "0123456789abcdef");
    assert_eq!(&hex[16..32], "0000000000000001");
    assert_eq!(&hex[32..112], &"0".repeat(80));
    assert_eq!(&hex[112..128], "fedcba9876543210");
}

#[test]
fn round_constant_table_endpoints() {
    assert_eq!(K[0], 0x428a2f98d728ae22);
    assert_eq!(K[79], 0x6c44198c4a475817);
    assert_eq!(IV[0], 0x6A09E667F3BCC908);
    assert_eq!(IV[7], 0x5BE0CD19137E2179);
}
