//! The three boolean-function gadgets end to end: results, row layout,
//! certification consistency, and the failure conditions.

use table16::compression::{AssignedBits, CompressionConfig, RoundWordSpread};
use table16::region::{Error, Region};
use table16::spread_table::SpreadVar;
use table16::util::spread16;
use table16::witness::Witness;

/// The spread form of a 32-bit word, as two certified 16-bit halves.
fn operand(x: u32) -> RoundWordSpread {
    RoundWordSpread(
        Witness::Known(spread16(x as u16)),
        Witness::Known(spread16((x >> 16) as u16)),
    )
}

/// An operand whose halves are still unresolved placeholders.
fn unresolved_operand() -> RoundWordSpread {
    RoundWordSpread(Witness::Unknown, Witness::Unknown)
}

/// Reassemble a gadget's (low, high) 16-bit output pair.
fn out32(out: &(AssignedBits, AssignedBits)) -> u32 {
    let lo = match out.0.value {
        Witness::Known(v) => v,
        Witness::Unknown => panic!("low half unresolved"),
    };
    let hi = match out.1.value {
        Witness::Known(v) => v,
        Witness::Unknown => panic!("high half unresolved"),
    };
    lo as u32 | (hi as u32) << 16
}

fn lcg_next(state: &mut u64) -> u64 {
    *state = state.wrapping_mul(6364136223846793005).wrapping_add(1442695040888963407);
    *state >> 16
}

#[test]
fn f1_is_three_way_xor() {
    let config = CompressionConfig {};
    let cases = [
        (0u32, 0u32, 0u32),
        (0xFFFF_FFFF, 0, 0),
        (0xFFFF_FFFF, 0xFFFF_FFFF, 0xFFFF_FFFF),
        (0x0123_4567, 0x89AB_CDEF, 0xDEAD_BEEF),
        (0x8000_0001, 0x7FFF_FFFE, 0x5555_AAAA),
    ];
    for (b, c, d) in cases {
        let mut region = Region::new(8, true);
        let out = config
            .assign_f1(&mut region, 0, operand(b), operand(c), operand(d))
            .unwrap();
        assert_eq!(out32(&out), b ^ c ^ d);
    }
}

#[test]
fn f1_sampled_inputs() {
    let config = CompressionConfig {};
    let mut s: u64 = 11;
    for _ in 0..100 {
        let b = lcg_next(&mut s) as u32;
        let c = lcg_next(&mut s) as u32;
        let d = lcg_next(&mut s) as u32;
        let mut region = Region::new(4, true);
        let out = config
            .assign_f1(&mut region, 0, operand(b), operand(c), operand(d))
            .unwrap();
        assert_eq!(out32(&out), b ^ c ^ d);
    }
}

#[test]
fn ch_is_and() {
    let config = CompressionConfig {};
    let cases = [
        (0u32, 0u32),
        (0xFFFF_FFFF, 0xFFFF_FFFF),
        (0xFFFF_FFFF, 0x1234_5678),
        (0xF0F0_F0F0, 0x0FF0_0FF0),
        (0xDEAD_BEEF, 0xCAFE_F00D),
    ];
    for (x, y) in cases {
        let mut region = Region::new(4, true);
        let out = config.assign_ch(&mut region, 0, operand(x), operand(y)).unwrap();
        assert_eq!(out32(&out), x & y);
    }
}

#[test]
fn ch_sampled_inputs() {
    let config = CompressionConfig {};
    let mut s: u64 = 12;
    for _ in 0..100 {
        let x = lcg_next(&mut s) as u32;
        let y = lcg_next(&mut s) as u32;
        let mut region = Region::new(4, true);
        let out = config.assign_ch(&mut region, 0, operand(x), operand(y)).unwrap();
        assert_eq!(out32(&out), x & y);
    }
}

#[test]
fn ch_neg_is_not_and() {
    let config = CompressionConfig {};
    let cases = [
        (0u32, 0u32),
        (0, 0xFFFF_FFFF),
        (0xFFFF_FFFF, 0xFFFF_FFFF),
        (0xF0F0_F0F0, 0x0FF0_0FF0),
        (0xDEAD_BEEF, 0xCAFE_F00D),
    ];
    for (x, z) in cases {
        let mut region = Region::new(4, true);
        let out = config.assign_ch_neg(&mut region, 0, operand(x), operand(z)).unwrap();
        assert_eq!(out32(&out), !x & z);
    }
}

#[test]
fn ch_neg_sampled_inputs() {
    let config = CompressionConfig {};
    let mut s: u64 = 13;
    for _ in 0..100 {
        let x = lcg_next(&mut s) as u32;
        let z = lcg_next(&mut s) as u32;
        let mut region = Region::new(4, true);
        let out = config.assign_ch_neg(&mut region, 0, operand(x), operand(z)).unwrap();
        assert_eq!(out32(&out), !x & z);
    }
}

#[test]
fn first_round_reference_state() {
    // The documented initial chaining state of the hash function, reached
    // for any message before the first round, including the well-known
    // input "abc": a = 0x67452301, b = 0xEFCDAB89, c = 0x98BADCFE,
    // d = 0x10325476, e = 0xC3D2E1F0.
    let b = 0xEFCD_AB89u32;
    let c = 0x98BA_DCFEu32;
    let d = 0x1032_5476u32;
    let config = CompressionConfig {};

    // First-round boolean function of the straight lane: f1(b, c, d).
    let mut region = Region::new(4, true);
    let out = config
        .assign_f1(&mut region, 0, operand(b), operand(c), operand(d))
        .unwrap();
    assert_eq!(out32(&out), 0x6745_2301);

    // The choice rounds combine both terms: (b AND c) OR (NOT b AND d).
    let mut region = Region::new(4, true);
    let direct = config.assign_ch(&mut region, 0, operand(b), operand(c)).unwrap();
    assert_eq!(out32(&direct), 0x8888_8888);
    let mut region = Region::new(4, true);
    let negated = config.assign_ch_neg(&mut region, 0, operand(b), operand(d)).unwrap();
    assert_eq!(out32(&negated), 0x1032_5476);
    assert_eq!(out32(&direct) | out32(&negated), 0x98BA_DCFE);
}

#[test]
fn f1_row_layout() {
    let config = CompressionConfig {};
    let b = 0x0123_4567u32;
    let c = 0x89AB_CDEFu32;
    let d = 0xFEDC_BA98u32;
    let mut region = Region::new(8, true);
    let out = config
        .assign_f1(&mut region, 2, operand(b), operand(c), operand(d))
        .unwrap();

    // flag on at the target row only
    assert!(region.s_f1[2]);
    assert!(!region.s_f1[1] && !region.s_f1[3]);
    assert!(!region.s_ch[2] && !region.s_ch_neg[2]);

    // operand copies at the target row and the row after
    assert_eq!(region.a3[2], Some(Witness::Known(spread16(b as u16) as u64)));
    assert_eq!(region.a3[3], Some(Witness::Known(spread16((b >> 16) as u16) as u64)));
    assert_eq!(region.a4[2], Some(Witness::Known(spread16(c as u16) as u64)));
    assert_eq!(region.a4[3], Some(Witness::Known(spread16((c >> 16) as u16) as u64)));
    assert_eq!(region.a5[2], Some(Witness::Known(spread16(d as u16) as u64)));
    assert_eq!(region.a5[3], Some(Witness::Known(spread16((d >> 16) as u16) as u64)));

    // outputs certified at four consecutive rows; even rows returned
    assert_eq!(out.0.row, 2);
    assert_eq!(out.1.row, 4);
    let xor = b ^ c ^ d;
    assert_eq!(region.a1[2], Some(Witness::Known((xor as u16) as u64)));
    assert_eq!(region.a1[4], Some(Witness::Known(((xor >> 16) as u16) as u64)));

    // rows before the gadget's block are untouched
    assert_eq!(region.a1[0], None);
    assert_eq!(region.a3[0], None);
    assert!(!region.s_f1[0]);
}

#[test]
fn certified_outputs_are_consistent() {
    // every certified output re-encodes its dense value to the spread
    // value bound beside it
    let config = CompressionConfig {};
    let mut region = Region::new(4, true);
    let (even, odd) = config
        .assign_spread_outputs(
            &mut region,
            0,
            Witness::Known(0x1234),
            Witness::Known(0xABCD),
            Witness::Known(0x0001),
            Witness::Known(0xFFFF),
        )
        .unwrap();
    assert_eq!(even.0, AssignedBits { row: 0, value: Witness::Known(0x1234) });
    assert_eq!(odd.0, AssignedBits { row: 1, value: Witness::Known(0xABCD) });
    assert_eq!(even.1, AssignedBits { row: 2, value: Witness::Known(0x0001) });
    assert_eq!(odd.1, AssignedBits { row: 3, value: Witness::Known(0xFFFF) });
    for (row, dense) in [(0usize, 0x1234u16), (1, 0xABCD), (2, 0x0001), (3, 0xFFFF)] {
        assert_eq!(region.a1[row], Some(Witness::Known(dense as u64)));
        assert_eq!(region.a2[row], Some(Witness::Known(spread16(dense) as u64)));
    }
}

#[test]
fn lookup_binds_pair_at_row() {
    let mut region = Region::new(4, true);
    let sv = SpreadVar::with_lookup(&mut region, 1, Witness::Known(0xBEEF)).unwrap();
    assert_eq!(sv.row, 1);
    assert_eq!(sv.dense, Witness::Known(0xBEEF));
    assert_eq!(sv.spread, Witness::Known(spread16(0xBEEF)));
    assert_eq!(region.a1[1], Some(Witness::Known(0xBEEF)));
    assert_eq!(region.a2[1], Some(Witness::Known(spread16(0xBEEF) as u64)));
}

#[test]
fn lookup_rejects_wide_candidate_before_binding() {
    let mut region = Region::new(4, true);
    let res = SpreadVar::with_lookup(&mut region, 1, Witness::Known(0x10000));
    assert_eq!(res, Err(Error::InvalidLookupCandidate));
    // rejected before the lookup relation: nothing was bound
    assert_eq!(region.a1[1], None);
    assert_eq!(region.a2[1], None);
}

#[test]
fn lookup_missing_assignment_while_witnessing() {
    let mut region = Region::new(4, true);
    let res = SpreadVar::with_lookup(&mut region, 0, Witness::Unknown);
    assert_eq!(res, Err(Error::MissingAssignment));
}

#[test]
fn lookup_placeholder_during_description() {
    let mut region = Region::new(4, false);
    let sv = SpreadVar::with_lookup(&mut region, 0, Witness::Unknown).unwrap();
    assert_eq!(sv.dense, Witness::Unknown);
    assert_eq!(sv.spread, Witness::Unknown);
    assert_eq!(region.a1[0], Some(Witness::Unknown));
    assert_eq!(region.a2[0], Some(Witness::Unknown));
}

#[test]
fn gadgets_fail_on_unresolved_operand_while_witnessing() {
    let config = CompressionConfig {};
    let known = operand(0x1234_5678);

    let mut region = Region::new(4, true);
    let res = config.assign_f1(&mut region, 0, known, unresolved_operand(), known);
    assert_eq!(res, Err(Error::MissingAssignment));

    let mut region = Region::new(4, true);
    let res = config.assign_ch(&mut region, 0, unresolved_operand(), known);
    assert_eq!(res, Err(Error::MissingAssignment));

    let mut region = Region::new(4, true);
    let res = config.assign_ch_neg(&mut region, 0, known, unresolved_operand());
    assert_eq!(res, Err(Error::MissingAssignment));
}

#[test]
fn gadgets_carry_placeholders_during_description() {
    // during circuit description the same layout is laid down with
    // unresolved payloads and the call succeeds
    let config = CompressionConfig {};
    let mut region = Region::new(4, false);
    let out = config
        .assign_ch_neg(&mut region, 0, unresolved_operand(), unresolved_operand())
        .unwrap();
    assert_eq!(out.0.value, Witness::Unknown);
    assert_eq!(out.1.value, Witness::Unknown);
    assert_eq!(out.0.row, 1);
    assert_eq!(out.1.row, 3);
    assert_eq!(region.a3[0], Some(Witness::Unknown));
    assert_eq!(region.a4[0], Some(Witness::Unknown));
    assert_eq!(region.a5[0], Some(Witness::Unknown));
    assert_eq!(region.a1[3], Some(Witness::Unknown));
    assert!(region.s_ch_neg[0]);
}

#[test]
fn ch_neg_writes_complemented_halves() {
    let config = CompressionConfig {};
    let x = 0x0F0F_1234u32;
    let z = 0x3333_5678u32;
    let mut region = Region::new(4, true);
    config.assign_ch_neg(&mut region, 0, operand(x), operand(z)).unwrap();
    assert_eq!(region.a5[0], Some(Witness::Known(spread16(!(x as u16)) as u64)));
    assert_eq!(region.a5[1], Some(Witness::Known(spread16(!((x >> 16) as u16)) as u64)));
}
