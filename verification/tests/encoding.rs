//! The spread encoding, parity extraction and the negate-spread transform
//! on concrete values, including a reference bit-by-bit model.

use table16::region::Error;
use table16::spread_table::SpreadWord;
use table16::util::{even_bits, negate_spread, odd_bits, spread16};

/// Reference spread: place bit `i` of `x` at bit `2*i`.
fn spread_ref(x: u16) -> u32 {
    let mut r: u32 = 0;
    for i in 0..16 {
        r |= (((x >> i) & 1) as u32) << (2 * i);
    }
    r
}

/// Reference even-bit extraction: collect bits 0, 2, ..., 30.
fn even_ref(v: u32) -> u16 {
    let mut r: u16 = 0;
    for i in 0..16 {
        r |= (((v >> (2 * i)) & 1) as u16) << i;
    }
    r
}

/// Reference odd-bit extraction: collect bits 1, 3, ..., 31.
fn odd_ref(v: u32) -> u16 {
    let mut r: u16 = 0;
    for i in 0..16 {
        r |= (((v >> (2 * i + 1)) & 1) as u16) << i;
    }
    r
}

/// A small deterministic pseudo-random walk for sampling.
fn lcg_next(state: &mut u64) -> u64 {
    *state = state.wrapping_mul(6364136223846793005).wrapping_add(1442695040888963407);
    *state >> 16
}

#[test]
fn spread_known_values() {
    assert_eq!(spread16(0), 0);
    assert_eq!(spread16(1), 1);
    assert_eq!(spread16(2), 4);
    assert_eq!(spread16(3), 5);
    assert_eq!(spread16(0b1011), 0b0100_0101);
    assert_eq!(spread16(0x8000), 0x4000_0000);
    assert_eq!(spread16(0xFFFF), 0x5555_5555);
}

#[test]
fn spread_matches_reference() {
    let mut s: u64 = 1;
    for _ in 0..500 {
        let x = lcg_next(&mut s) as u16;
        assert_eq!(spread16(x), spread_ref(x));
    }
}

#[test]
fn parity_known_values() {
    assert_eq!(even_bits(0x5555_5555), 0xFFFF);
    assert_eq!(odd_bits(0x5555_5555), 0);
    assert_eq!(even_bits(0xAAAA_AAAA), 0);
    assert_eq!(odd_bits(0xAAAA_AAAA), 0xFFFF);
    assert_eq!(even_bits(0), 0);
    assert_eq!(odd_bits(0), 0);
    assert_eq!(even_bits(0b0110), 0b10);
    assert_eq!(odd_bits(0b0110), 0b01);
}

#[test]
fn parity_matches_reference() {
    let mut s: u64 = 2;
    for _ in 0..500 {
        let v = lcg_next(&mut s) as u32;
        assert_eq!(even_bits(v), even_ref(v));
        assert_eq!(odd_bits(v), odd_ref(v));
    }
}

#[test]
fn spread_round_trip() {
    let mut s: u64 = 3;
    for _ in 0..500 {
        let x = lcg_next(&mut s) as u16;
        let v = spread16(x);
        assert_eq!(even_bits(v), x);
        assert_eq!(odd_bits(v), 0);
    }
}

#[test]
fn negate_spread_is_spread_of_not() {
    // the round-trip law on sampled and edge inputs
    let mut s: u64 = 4;
    for _ in 0..500 {
        let x = lcg_next(&mut s) as u16;
        assert_eq!(negate_spread(spread16(x)), spread16(!x));
    }
    assert_eq!(negate_spread(spread16(0)), 0x5555_5555);
    assert_eq!(negate_spread(spread16(0xFFFF)), 0);
    assert_eq!(negate_spread(spread16(0x00FF)), spread16(0xFF00));
}

#[test]
fn parities_reconstruct_value() {
    // spreading the even and the odd parities of a value and summing the
    // two, odd weighted by two, gives the value back
    let mut s: u64 = 9;
    for _ in 0..500 {
        let v = lcg_next(&mut s) as u32;
        let rebuilt = spread16(even_bits(v)) as u64 + 2 * spread16(odd_bits(v)) as u64;
        assert_eq!(rebuilt, v as u64);
    }
}

#[test]
fn certification_accepts_all_16_bit_values() {
    for d in [0u64, 1, 0x7FFF, 0x8000, 0xFFFE, 0xFFFF] {
        let w = SpreadWord::try_new(d).unwrap();
        assert_eq!(w.dense as u64, d);
        assert_eq!(w.spread, spread16(d as u16));
    }
}

#[test]
fn certification_rejects_wide_candidates() {
    // a 17-bit candidate has no table row
    assert_eq!(SpreadWord::try_new(0x10000), Err(Error::InvalidLookupCandidate));
    assert_eq!(SpreadWord::try_new(0x1FFFF), Err(Error::InvalidLookupCandidate));
    assert_eq!(SpreadWord::try_new(u64::MAX), Err(Error::InvalidLookupCandidate));
}

#[test]
fn spread_word_binds_dense_to_spread() {
    let mut s: u64 = 5;
    for _ in 0..200 {
        let x = lcg_next(&mut s) as u16;
        let w = SpreadWord::new(x);
        assert_eq!(w.dense, x);
        assert_eq!(w.spread, spread_ref(x));
    }
}
