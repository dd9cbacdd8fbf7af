//! The spread (zero-interleaved) encoding of a word, parity extraction, and
//! the arithmetic laws that let a sum of spread words stand in for bitwise
//! XOR and AND.

use vstd::prelude::*;

verus! {

/// The spread encoding of `x`: the binary digits of `x`, reread in base 4.
/// Bit `i` of `x` lands at bit `2*i` of the result; every odd bit position
/// is zero.
pub open spec fn spread_nat(x: nat) -> nat
    decreases x,
{
    if x == 0 {
        0
    } else {
        x % 2 + 4 * spread_nat(x / 2)
    }
}

/// The value formed by the bits of `v` at even positions 0, 2, 4, ...,
/// in order: the base-4 digits of `v`, each reduced to its low bit,
/// reread in base 2.
pub open spec fn even_nat(v: nat) -> nat
    decreases v,
{
    if v == 0 {
        0
    } else {
        v % 2 + 2 * even_nat(v / 4)
    }
}

/// The value formed by the bits of `v` at odd positions 1, 3, 5, ...
pub open spec fn odd_nat(v: nat) -> nat {
    even_nat(v / 2)
}

/// Bitwise exclusive-or, defined digit by digit.
pub open spec fn xor_nat(a: nat, b: nat) -> nat
    decreases a + b,
{
    if a == 0 && b == 0 {
        0
    } else {
        (a % 2 + b % 2) % 2 + 2 * xor_nat(a / 2, b / 2)
    }
}

/// Bitwise and, defined digit by digit.
pub open spec fn and_nat(a: nat, b: nat) -> nat
    decreases a + b,
{
    if a == 0 || b == 0 {
        0
    } else {
        (a % 2) * (b % 2) + 2 * and_nat(a / 2, b / 2)
    }
}

pub open spec fn pow2(n: nat) -> nat
    decreases n,
{
    if n == 0 {
        1
    } else {
        2 * pow2((n - 1) as nat)
    }
}

pub open spec fn pow4(n: nat) -> nat
    decreases n,
{
    if n == 0 {
        1
    } else {
        4 * pow4((n - 1) as nat)
    }
}

/// `0b0101...01` with `n` base-4 digits: the spread encoding of the all-ones
/// `n`-bit word, and the largest value any `n`-bit spread word can take.
pub open spec fn ones_spread(n: nat) -> nat
    decreases n,
{
    if n == 0 {
        0
    } else {
        1 + 4 * ones_spread((n - 1) as nat)
    }
}

/// A 32-bit value is a well-formed spread of a 16-bit word exactly when
/// re-spreading its even bits gives the value back; equivalently, all its
/// odd bits are zero.
pub open spec fn is_spread16(v: u32) -> bool {
    v as nat == spread_nat(even_nat(v as nat))
}

/// How one base-4 digit rides on top of four times a remainder.
proof fn lemma_digit4_split(b: nat, s: nat)
    requires
        b < 4,
    ensures
        (b + 4 * s) % 2 == b % 2,
        (b + 4 * s) / 4 == s,
        (b + 4 * s) / 2 == b / 2 + 2 * s,
{
    assert((b + 4 * s) % 2 == b % 2) by (nonlinear_arith)
        requires b < 4,
    ;
    assert((b + 4 * s) / 4 == s) by (nonlinear_arith)
        requires b < 4,
    ;
    assert((b + 4 * s) / 2 == b / 2 + 2 * s) by (nonlinear_arith)
        requires b < 4,
    ;
}

/// How one bit rides on top of twice a remainder.
proof fn lemma_digit2_split(b: nat, s: nat)
    requires
        b < 2,
    ensures
        (b + 2 * s) % 2 == b,
        (b + 2 * s) / 2 == s,
        (b + 2 * s) / 4 == s / 2,
{
    assert((b + 2 * s) % 2 == b) by (nonlinear_arith)
        requires b < 2,
    ;
    assert((b + 2 * s) / 2 == s) by (nonlinear_arith)
        requires b < 2,
    ;
    assert((b + 2 * s) / 4 == s / 2) by (nonlinear_arith)
        requires b < 2,
    ;
}

/// An `n`-bit word's spread never exceeds the spread of the all-ones word.
pub proof fn lemma_spread_le_ones(x: nat, n: nat)
    requires
        x < pow2(n),
    ensures
        spread_nat(x) <= ones_spread(n),
    decreases n,
{
    if n == 0 {
    } else {
        assert(x / 2 < pow2((n - 1) as nat)) by (nonlinear_arith)
            requires x < 2 * pow2((n - 1) as nat),
        ;
        lemma_spread_le_ones(x / 2, (n - 1) as nat);
    }
}

/// Decoding the even bits of a spread word gives the original word back.
pub proof fn lemma_even_of_spread(x: nat)
    ensures
        even_nat(spread_nat(x)) == x,
    decreases x,
{
    if x == 0 {
    } else {
        lemma_even_of_spread(x / 2);
        let b = x % 2;
        let s = spread_nat(x / 2);
        lemma_digit4_split(b, s);
        if b + 4 * s != 0 {
            assert(even_nat((b + 4 * s) as nat) == b + 2 * even_nat(s));
        }
    }
}

/// A freshly spread word has nothing in its odd bit positions.
pub proof fn lemma_odd_of_spread(x: nat)
    ensures
        odd_nat(spread_nat(x)) == 0,
    decreases x,
{
    if x == 0 {
    } else {
        lemma_odd_of_spread(x / 2);
        let b = x % 2;
        let s = spread_nat(x / 2);
        lemma_digit4_split(b, s);
        // spread_nat(x) / 2 == b / 2 + 2 * s == 2 * s, and b / 2 == 0
        let h = (2 * s) as nat;
        if h != 0 {
            lemma_digit2_split(0, s);
            assert(even_nat(h) == 0 + 2 * even_nat(s / 2));
        }
    }
}

/// The reconstruction identity behind the gadgets' gate constraint: any
/// value is rebuilt from its even and odd parities through the spread
/// encoding.  This is what lets a lookup over the two 16-bit parities stand
/// for the full 32-bit half of an accumulator.
pub proof fn lemma_spread_reconstruction(v: nat)
    ensures
        v == spread_nat(even_nat(v)) + 2 * spread_nat(odd_nat(v)),
    decreases v,
{
    if v == 0 {
    } else {
        let d = v % 4;
        let w = v / 4;
        assert(w < v) by (nonlinear_arith)
            requires v > 0 && w == v / 4,
        ;
        lemma_spread_reconstruction(w);
        assert(v == d + 4 * w) by (nonlinear_arith)
            requires d == v % 4 && w == v / 4,
        ;
        lemma_digit4_split(d, w);
        // even(v) peels the low bit of the digit
        assert(even_nat(v) == d % 2 + 2 * even_nat(w));
        // odd(v) peels the high bit of the digit
        lemma_digit2_split(d / 2, w);
        assert(even_nat((d / 2 + 2 * w) as nat) == d / 2 + 2 * even_nat(w / 2));
        assert(odd_nat(v) == d / 2 + 2 * odd_nat(w));
        // re-spreading each parity restores the digit's two bits
        lemma_digit2_split(d % 2, even_nat(w));
        assert(spread_nat(even_nat(v)) == d % 2 + 4 * spread_nat(even_nat(w)));
        lemma_digit2_split(d / 2, odd_nat(w));
        assert(spread_nat(odd_nat(v)) == d / 2 + 4 * spread_nat(odd_nat(w)));
        assert(d % 2 + 2 * (d / 2) == d) by (nonlinear_arith)
            requires d < 4,
        ;
    }
}

/// The even bits of a value below `4^n` form a value below `2^n`.
pub proof fn lemma_even_bound(v: nat, n: nat)
    requires
        v < pow4(n),
    ensures
        even_nat(v) < pow2(n),
    decreases n,
{
    if n == 0 {
    } else {
        if v == 0 {
            assert(pow2(n) >= 1) by {
                lemma_pow2_pos(n);
            }
        } else {
            assert(v / 4 < pow4((n - 1) as nat)) by (nonlinear_arith)
                requires v < 4 * pow4((n - 1) as nat),
            ;
            lemma_even_bound(v / 4, (n - 1) as nat);
            assert(even_nat(v) == v % 2 + 2 * even_nat(v / 4));
        }
    }
}

proof fn lemma_pow2_pos(n: nat)
    ensures
        pow2(n) >= 1,
    decreases n,
{
    if n > 0 {
        lemma_pow2_pos((n - 1) as nat);
    }
}

/// One digit of `xor_nat`, split off the rest.
proof fn lemma_xor_nat_unfold(a: nat, b: nat)
    ensures
        xor_nat(a, b) == (a % 2 + b % 2) % 2 + 2 * xor_nat(a / 2, b / 2),
{
    if a == 0 && b == 0 {
    }
}

/// One digit of `and_nat`, split off the rest.
proof fn lemma_and_nat_unfold(a: nat, b: nat)
    ensures
        and_nat(a, b) == (a % 2) * (b % 2) + 2 * and_nat(a / 2, b / 2),
{
    if a == 0 || b == 0 {
        assert((a % 2) * (b % 2) == 0) by (nonlinear_arith)
            requires a == 0 || b == 0,
        ;
    }
}

/// The load-bearing law behind `ch` and `ch_neg`: summing the spreads of two
/// words puts their XOR in the even bit positions and their AND (the carries)
/// in the odd bit positions.
pub proof fn lemma_parity_of_two_spreads(a: nat, b: nat)
    ensures
        even_nat(spread_nat(a) + spread_nat(b)) == xor_nat(a, b),
        odd_nat(spread_nat(a) + spread_nat(b)) == and_nat(a, b),
    decreases a + b,
{
    if a == 0 && b == 0 {
    } else {
        lemma_parity_of_two_spreads(a / 2, b / 2);
        let s = (a % 2 + b % 2) as nat;
        let r = (spread_nat(a / 2) + spread_nat(b / 2)) as nat;
        let v = (spread_nat(a) + spread_nat(b)) as nat;
        assert(v == s + 4 * r);
        lemma_digit4_split(s, r);
        // even bits: v % 2 == s % 2, v / 4 == r
        assert(even_nat(v) == s % 2 + 2 * even_nat(r));
        lemma_xor_nat_unfold(a, b);
        // odd bits: v / 2 == s / 2 + 2 * r
        let h = (s / 2 + 2 * r) as nat;
        lemma_digit2_split(s / 2, r);
        if h != 0 {
            assert(even_nat(h) == s / 2 + 2 * even_nat(r / 2));
        }
        assert(s / 2 == (a % 2) * (b % 2)) by (nonlinear_arith)
            requires a % 2 < 2 && b % 2 < 2 && s == a % 2 + b % 2,
        ;
        lemma_and_nat_unfold(a, b);
    }
}

/// The load-bearing law behind `f1`: summing the spreads of three words puts
/// their three-way XOR in the even bit positions.
pub proof fn lemma_parity_of_three_spreads(a: nat, b: nat, c: nat)
    ensures
        even_nat(spread_nat(a) + spread_nat(b) + spread_nat(c)) == xor_nat(xor_nat(a, b), c),
    decreases a + b + c,
{
    if a == 0 && b == 0 && c == 0 {
    } else {
        lemma_parity_of_three_spreads(a / 2, b / 2, c / 2);
        let s = (a % 2 + b % 2 + c % 2) as nat;
        let r = (spread_nat(a / 2) + spread_nat(b / 2) + spread_nat(c / 2)) as nat;
        let v = (spread_nat(a) + spread_nat(b) + spread_nat(c)) as nat;
        assert(v == s + 4 * r);
        lemma_digit4_split(s, r);
        assert(even_nat(v) == s % 2 + 2 * even_nat(r));
        lemma_xor_nat_unfold(a, b);
        lemma_xor_nat_unfold(xor_nat(a, b), c);
        assert(xor_nat(a, b) % 2 == (a % 2 + b % 2) % 2 && xor_nat(a, b) / 2 == xor_nat(
            a / 2,
            b / 2,
        )) by {
            lemma_xor_nat_unfold(a, b);
            lemma_digit2_split((a % 2 + b % 2) % 2, xor_nat(a / 2, b / 2));
        }
        assert(((a % 2 + b % 2) % 2 + c % 2) % 2 == s % 2) by (nonlinear_arith)
            requires s == a % 2 + b % 2 + c % 2,
        ;
    }
}

/// Bit-complement commutes with spreading: the spreads of an `n`-bit word and
/// of its complement sum to the spread of the all-ones word.
pub proof fn lemma_spread_complement(x: nat, n: nat)
    requires
        x < pow2(n),
    ensures
        spread_nat(x) + spread_nat((pow2(n) - 1 - x) as nat) == ones_spread(n),
    decreases n,
{
    if n == 0 {
    } else {
        let p = pow2((n - 1) as nat);
        assert(x / 2 < p) by (nonlinear_arith)
            requires x < 2 * p,
        ;
        lemma_spread_complement(x / 2, (n - 1) as nat);
        let c = (2 * p - 1 - x) as nat;
        assert(c == (1 - x % 2) + 2 * ((p - 1 - x / 2) as nat)) by (nonlinear_arith)
            requires x < 2 * p && c == 2 * p - 1 - x,
        ;
        lemma_digit2_split((1 - x % 2) as nat, (p - 1 - x / 2) as nat);
        assert(c % 2 == 1 - x % 2 && c / 2 == p - 1 - x / 2);
        assert(spread_nat(c) == c % 2 + 4 * spread_nat((p - 1 - x / 2) as nat));
    }
}

/// `xor_nat` agrees with the machine XOR.
pub proof fn lemma_xor_nat_is_xor(a: u32, b: u32)
    ensures
        xor_nat(a as nat, b as nat) == (a ^ b) as nat,
    decreases a + b,
{
    if a == 0 && b == 0 {
        assert(0u32 ^ 0u32 == 0) by (bit_vector);
    } else {
        assert((a >> 1u32) as nat == a as nat / 2 && (b >> 1u32) as nat == b as nat / 2) by (
        bit_vector);
        assert(a as nat % 2 + b as nat % 2 > 0 || a as nat / 2 + b as nat / 2 < a as nat
            + b as nat) by (nonlinear_arith)
            requires a as nat + b as nat > 0,
        ;
        lemma_xor_nat_is_xor(a >> 1u32, b >> 1u32);
        lemma_xor_nat_unfold(a as nat, b as nat);
        assert((a ^ b) as nat == (a as nat % 2 + b as nat % 2) % 2 + 2 * (((a >> 1u32) ^ (b
            >> 1u32)) as nat)) by (bit_vector);
    }
}

/// `and_nat` agrees with the machine AND.
pub proof fn lemma_and_nat_is_and(a: u32, b: u32)
    ensures
        and_nat(a as nat, b as nat) == (a & b) as nat,
    decreases a + b,
{
    if a == 0 || b == 0 {
        assert(a == 0 || b == 0 ==> (a & b) == 0) by (bit_vector);
    } else {
        assert((a >> 1u32) as nat == a as nat / 2 && (b >> 1u32) as nat == b as nat / 2) by (
        bit_vector);
        assert(a as nat / 2 + b as nat / 2 < a as nat + b as nat) by (nonlinear_arith)
            requires a as nat > 0 && b as nat > 0,
        ;
        lemma_and_nat_is_and(a >> 1u32, b >> 1u32);
        lemma_and_nat_unfold(a as nat, b as nat);
        assert((a & b) as nat == (a as nat % 2) * (b as nat % 2) + 2 * (((a >> 1u32) & (b
            >> 1u32)) as nat)) by (bit_vector);
    }
}

/// Closed values of the power and mask functions at the widths used here.
pub proof fn lemma_pow_16_facts()
    ensures
        pow2(15) == 0x8000,
        pow2(16) == 0x10000,
        pow4(15) == 0x4000_0000,
        pow4(16) == 0x1_0000_0000,
        ones_spread(15) == 0x1555_5555,
        ones_spread(16) == 0x5555_5555,
{
    reveal_with_fuel(pow2, 17);
    reveal_with_fuel(pow4, 17);
    reveal_with_fuel(ones_spread, 17);
}

/// A 16-bit word's spread fits the even-bit mask's value.
pub proof fn lemma_spread16_bound(x: nat)
    requires
        x < 0x10000,
    ensures
        spread_nat(x) <= 0x5555_5555,
{
    lemma_pow_16_facts();
    lemma_spread_le_ones(x, 16);
}

/// The even (and odd) bits of a 32-bit value form a 16-bit value.
pub proof fn lemma_even32_bound(v: nat)
    requires
        v < 0x1_0000_0000,
    ensures
        even_nat(v) < 0x10000,
        odd_nat(v) < 0x10000,
{
    lemma_pow_16_facts();
    lemma_even_bound(v, 16);
    assert(v / 2 < 0x1_0000_0000);
    lemma_even_bound(v / 2, 16);
}

/// A spread word, seen as a machine word, has all odd bits clear.
pub proof fn lemma_spread_odd_mask(x: nat)
    requires
        x < 0x10000,
    ensures
        spread_nat(x) <= 0x5555_5555,
        ((spread_nat(x) as u32) & 0xAAAA_AAAAu32) == 0,
    decreases x,
{
    lemma_spread16_bound(x);
    if x == 0 {
        assert(0u32 & 0xAAAA_AAAAu32 == 0) by (bit_vector);
    } else {
        lemma_spread_odd_mask(x / 2);
        let b = (x % 2) as u32;
        lemma_pow_16_facts();
        assert(x / 2 < 0x8000) by (nonlinear_arith)
            requires x < 0x10000,
        ;
        lemma_spread_le_ones(x / 2, 15);
        let s = (spread_nat(x / 2) as u32);
        assert(((b + 4 * s) as u32) & 0xAAAA_AAAAu32 == 0) by (bit_vector)
            requires
                b <= 1 && s <= 0x1555_5555u32 && s & 0xAAAA_AAAAu32 == 0,
        ;
    }
}

/// Spread encoding of a 16-bit word: bit `i` of `x` goes to bit `2*i`.
pub fn spread16(x: u16) -> (r: u32)
    ensures
        r as nat == spread_nat(x as nat),
    decreases x,
{
    if x == 0 {
        0
    } else {
        let tail = spread16(x / 2);
        proof {
            lemma_pow_16_facts();
            lemma_spread_le_ones(x as nat / 2, 15);
        }
        (x % 2) as u32 + 4 * tail
    }
}

/// The 16-bit value formed by the bits of `v` at positions 0, 2, ..., 30.
pub fn even_bits(v: u32) -> (r: u16)
    ensures
        r as nat == even_nat(v as nat),
    decreases v,
{
    if v == 0 {
        0
    } else {
        proof {
            lemma_pow_16_facts();
            assert(v as nat / 4 < 0x4000_0000) by (nonlinear_arith)
                requires v < 0x1_0000_0000,
            ;
            lemma_even_bound(v as nat / 4, 15);
        }
        let tail = even_bits(v / 4);
        (v % 2) as u16 + 2 * tail
    }
}

/// The 16-bit value formed by the bits of `v` at positions 1, 3, ..., 31.
pub fn odd_bits(v: u32) -> (r: u16)
    ensures
        r as nat == odd_nat(v as nat),
{
    even_bits(v / 2)
}

/// Bit-complement of a spread value: flip every even bit, keep the odd
/// padding bits clear.  On the spread of `x` this produces the spread of
/// `!x` with no further certification needed.
pub fn negate_spread(v: u32) -> (r: u32)
    requires
        is_spread16(v),
    ensures
        r == !v & 0x5555_5555u32,
        r as nat + v as nat == 0x5555_5555,
        r as nat == spread_nat((0xFFFF - even_nat(v as nat)) as nat),
        is_spread16(r),
        even_nat(r as nat) + even_nat(v as nat) == 0xFFFF,
{
    proof {
        let x = even_nat(v as nat);
        lemma_even32_bound(v as nat);
        lemma_spread_odd_mask(x);
        lemma_pow_16_facts();
        lemma_spread_complement(x, 16);
        assert((!v) & 0x5555_5555u32 == 0x5555_5555 - v) by (bit_vector)
            requires
                v & 0xAAAA_AAAAu32 == 0,
        ;
        lemma_even_of_spread((0xFFFF - x) as nat);
    }
    !v & 0x5555_5555
}

/// A well-formed spread value fits under the even-bit mask's value.
pub proof fn lemma_is_spread16_bound(v: u32)
    requires
        is_spread16(v),
    ensures
        v <= 0x5555_5555,
        even_nat(v as nat) < 0x10000,
{
    lemma_even32_bound(v as nat);
    lemma_spread16_bound(even_nat(v as nat));
}

/// Three-operand XOR assembles from independent 16-bit halves.
pub proof fn lemma_xor3_halves(l1: u32, h1: u32, l2: u32, h2: u32, l3: u32, h3: u32)
    by (bit_vector)
    requires
        l1 < 0x10000,
        h1 < 0x10000,
        l2 < 0x10000,
        h2 < 0x10000,
        l3 < 0x10000,
        h3 < 0x10000,
    ensures
        ((l1 ^ l2 ^ l3) as nat) + 0x10000 * ((h1 ^ h2 ^ h3) as nat) == (((l1 + 0x10000 * h1) as u32)
            ^ ((l2 + 0x10000 * h2) as u32) ^ ((l3 + 0x10000 * h3) as u32)) as nat,
{
}

/// Two-operand AND assembles from independent 16-bit halves.
pub proof fn lemma_and_halves(l1: u32, h1: u32, l2: u32, h2: u32)
    by (bit_vector)
    requires
        l1 < 0x10000,
        h1 < 0x10000,
        l2 < 0x10000,
        h2 < 0x10000,
    ensures
        ((l1 & l2) as nat) + 0x10000 * ((h1 & h2) as nat) == (((l1 + 0x10000 * h1) as u32) & ((l2
            + 0x10000 * h2) as u32)) as nat,
{
}

/// The complemented choice term assembles from per-half complements: taking
/// each 16-bit half of `x` to its 16-bit complement and AND-ing with the
/// halves of `z` is the 32-bit `(NOT x) AND z`.
pub proof fn lemma_ch_neg_halves(xl: u32, xh: u32, zl: u32, zh: u32)
    by (bit_vector)
    requires
        xl < 0x10000,
        xh < 0x10000,
        zl < 0x10000,
        zh < 0x10000,
    ensures
        ((((0xFFFF - xl) as u32) & zl) as nat) + 0x10000 * ((((0xFFFF - xh) as u32) & zh) as nat)
            == ((!((xl + 0x10000 * xh) as u32)) & ((zl + 0x10000 * zh) as u32)) as nat,
{
}

/// On a value with clear odd bits, flipping the even bits is the same as
/// subtracting from the even-bit mask.
pub proof fn lemma_neg_mask(v: u32)
    by (bit_vector)
    requires
        v & 0xAAAA_AAAAu32 == 0,
    ensures
        (!v & 0x5555_5555u32) == 0x5555_5555 - v,
{
}

/// Round-trip law: the negate-spread transform applied to the spread of `x`
/// yields exactly the spread of the bitwise complement of `x`.
pub proof fn lemma_negate_spread_round_trip(x: u16)
    ensures
        0x5555_5555 - spread_nat(x as nat) == spread_nat((!x) as nat),
        spread_nat(x as nat) <= 0x5555_5555,
{
    assert((!x) as nat == 0xFFFF - x as nat) by (bit_vector);
    lemma_pow_16_facts();
    lemma_spread_complement(x as nat, 16);
    lemma_spread16_bound(x as nat);
}

} // verus!
