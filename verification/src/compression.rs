//! The three boolean-function gadgets — `f1` (three-operand XOR), `ch`
//! (choice) and `ch_neg` (choice with negated first operand) — and the shared
//! four-row certification routine they all call.
//!
//! Each gadget copies its certified spread operands into fixed witness cells
//! at the target row and the row after, sums the operands' full spread
//! integers, splits the 64-bit accumulator into two 32-bit halves, extracts
//! the even and odd 16-bit parities of each, and certifies all four
//! candidates at four consecutive rows.  The even pair carries the XOR of
//! the operands, the odd pair their AND; `f1` returns the even pair, `ch`
//! and `ch_neg` the odd one.

use vstd::prelude::*;
use crate::region::{Cell, Error, Region, assign_cell, copy_cell, enable_flag};
use crate::spread_table::SpreadVar;
use crate::util::{
    even_nat, odd_nat, spread_nat, is_spread16, lemma_is_spread16_bound, lemma_even32_bound,
    lemma_parity_of_two_spreads, lemma_parity_of_three_spreads,
    lemma_xor_nat_is_xor, lemma_and_nat_is_and, lemma_xor3_halves, lemma_and_halves,
    lemma_ch_neg_halves, even_bits, odd_bits, negate_spread,
};
use crate::witness::{Witness, w64_16, w64_32, widen16, widen32};

verus! {

/// A 16-bit certified dense value, assigned at a lookup row.
#[derive(Clone, Copy, Debug, PartialEq, Eq, Structural)]
pub struct AssignedBits {
    /// The lookup row the value was certified at.
    pub row: usize,
    /// The dense 16-bit value.
    pub value: Witness<u16>,
}

/// A 32-bit round operand in spread form: its low and high 16-bit halves,
/// each carried as the 32-bit spread projection of a pair certified by an
/// earlier pipeline stage.
#[derive(Clone, Copy, Debug, PartialEq, Eq, Structural)]
pub struct RoundWordSpread(pub Witness<u32>, pub Witness<u32>);

impl RoundWordSpread {
    /// Both halves, when resolved, really are spread encodings: their odd
    /// bits are clear, as the upstream certification guarantees.
    pub open spec fn wf(self) -> bool {
        &&& (self.0 matches Witness::Known(v) ==> is_spread16(v))
        &&& (self.1 matches Witness::Known(v) ==> is_spread16(v))
    }

    /// The operand is fully resolved.
    pub open spec fn is_known(self) -> bool {
        self.0 is Known && self.1 is Known
    }

    /// The full 64-bit spread integer, low half first.
    pub open spec fn spread_val(self) -> nat
        recommends
            self.is_known(),
    {
        (self.0->Known_0 as nat) + 0x1_0000_0000 * (self.1->Known_0 as nat)
    }

    /// The dense 32-bit word this operand encodes.
    pub open spec fn dense_val(self) -> nat
        recommends
            self.is_known(),
    {
        even_nat(self.0->Known_0 as nat) + 0x10000 * even_nat(self.1->Known_0 as nat)
    }

    /// Reconstruct the full spread integer from the two halves.
    pub fn value(&self) -> (r: Witness<u64>)
        requires
            self.wf(),
        ensures
            r is Known <==> self.is_known(),
            r matches Witness::Known(v) ==> v as nat == self.spread_val(),
    {
        match (self.0, self.1) {
            (Witness::Known(lo), Witness::Known(hi)) => {
                proof {
                    lemma_is_spread16_bound(lo);
                    lemma_is_spread16_bound(hi);
                }
                Witness::Known(lo as u64 + 0x1_0000_0000u64 * (hi as u64))
            },
            _ => Witness::Unknown,
        }
    }
}

/// A 16-bit witness that is resolved exactly when `known` holds.
pub open spec fn k16(known: bool, v: nat) -> Witness<u16> {
    if known {
        Witness::Known(v as u16)
    } else {
        Witness::Unknown
    }
}

/// The spread projection certified alongside a dense candidate.
pub open spec fn spread_of_w(w: Witness<u16>) -> Witness<u32> {
    match w {
        Witness::Unknown => Witness::Unknown,
        Witness::Known(v) => Witness::Known(spread_nat(v as nat) as u32),
    }
}

/// The four lookup rows written by one certification call: dense candidates
/// into `a1`, their spread forms into `a2`, at `row` through `row + 3`.
pub open spec fn lookup_rows_updated(
    pre_a1: Seq<Cell>,
    post_a1: Seq<Cell>,
    pre_a2: Seq<Cell>,
    post_a2: Seq<Cell>,
    row: int,
    r0e: Witness<u16>,
    r0o: Witness<u16>,
    r1e: Witness<u16>,
    r1o: Witness<u16>,
) -> bool {
    &&& post_a1 == pre_a1.update(row, Some(w64_16(r0e))).update(row + 1, Some(w64_16(r0o))).update(
        row + 2,
        Some(w64_16(r1e)),
    ).update(row + 3, Some(w64_16(r1o)))
    &&& post_a2 == pre_a2.update(row, Some(w64_32(spread_of_w(r0e)))).update(
        row + 1,
        Some(w64_32(spread_of_w(r0o))),
    ).update(row + 2, Some(w64_32(spread_of_w(r1e)))).update(row + 3, Some(w64_32(spread_of_w(r1o))))
}

/// What the shared certification routine does on success: only the four
/// lookup rows change, consistently with the correspondence table.
pub open spec fn certification_layout(
    pre: Region,
    post: Region,
    row: int,
    r0e: Witness<u16>,
    r0o: Witness<u16>,
    r1e: Witness<u16>,
    r1o: Witness<u16>,
) -> bool {
    &&& post.height == pre.height
    &&& post.witnessing == pre.witnessing
    &&& post.a3 == pre.a3
    &&& post.a4 == pre.a4
    &&& post.a5 == pre.a5
    &&& post.s_f1 == pre.s_f1
    &&& post.s_ch == pre.s_ch
    &&& post.s_ch_neg == pre.s_ch_neg
    &&& lookup_rows_updated(pre.a1@, post.a1@, pre.a2@, post.a2@, row, r0e, r0o, r1e, r1o)
}

/// The boolean-function gadget set.  The surrounding chip configuration
/// fixes the column and flag layout once and for all, and the region model
/// carries those columns by name, so the configuration holds no per-instance
/// data; the type groups the gadget entry points.
pub struct CompressionConfig {}

impl CompressionConfig {
    /// The shared certification routine: certify four candidate 16-bit
    /// dense values at four consecutive rows starting at `row`, and return
    /// the certified dense handles grouped as (even pair, odd pair).  This
    /// is the single point of reuse of `f1`, `ch` and `ch_neg`,
    /// guaranteeing identical row shape and failure behaviour.
    ///
    /// Every certified output satisfies the consistency invariant: the
    /// spread value bound beside it in `a2` is exactly the re-encoding of
    /// its dense value.
    pub fn assign_spread_outputs(
        &self,
        region: &mut Region,
        row: usize,
        r_0_even: Witness<u16>,
        r_0_odd: Witness<u16>,
        r_1_even: Witness<u16>,
        r_1_odd: Witness<u16>,
    ) -> (res: Result<((AssignedBits, AssignedBits), (AssignedBits, AssignedBits)), Error>)
        requires
            old(region).wf(),
            row + 4 <= old(region).height,
        ensures
            final(region).wf(),
            final(region).height == old(region).height,
            final(region).witnessing == old(region).witnessing,
            res is Ok <==> (!old(region).witnessing || (r_0_even is Known && r_0_odd is Known
                && r_1_even is Known && r_1_odd is Known)),
            res matches Err(e) ==> e == Error::MissingAssignment && old(region).witnessing,
            res matches Ok(out) ==> {
                &&& certification_layout(
                    *old(region),
                    *final(region),
                    row as int,
                    r_0_even,
                    r_0_odd,
                    r_1_even,
                    r_1_odd,
                )
                &&& out.0.0 == (AssignedBits { row, value: r_0_even })
                &&& out.0.1 == (AssignedBits { row: (row + 2) as usize, value: r_1_even })
                &&& out.1.0 == (AssignedBits { row: (row + 1) as usize, value: r_0_odd })
                &&& out.1.1 == (AssignedBits { row: (row + 3) as usize, value: r_1_odd })
            },
    {
        let v_0_even = SpreadVar::with_lookup(region, row, widen16(r_0_even))?;
        let v_0_odd = SpreadVar::with_lookup(region, row + 1, widen16(r_0_odd))?;
        let v_1_even = SpreadVar::with_lookup(region, row + 2, widen16(r_1_even))?;
        let v_1_odd = SpreadVar::with_lookup(region, row + 3, widen16(r_1_odd))?;
        proof {
            lemma_spread_var_matches(r_0_even, v_0_even);
            lemma_spread_var_matches(r_0_odd, v_0_odd);
            lemma_spread_var_matches(r_1_even, v_1_even);
            lemma_spread_var_matches(r_1_odd, v_1_odd);
        }
        Ok(
            (
                (
                    AssignedBits { row: v_0_even.row, value: v_0_even.dense },
                    AssignedBits { row: v_1_even.row, value: v_1_even.dense },
                ),
                (
                    AssignedBits { row: v_0_odd.row, value: v_0_odd.dense },
                    AssignedBits { row: v_1_odd.row, value: v_1_odd.dense },
                ),
            ),
        )
    }

    /// Certify the four candidates and keep the even-typed pair, which is
    /// the meaningful output of `f1`.
    fn assign_f1_outputs(
        &self,
        region: &mut Region,
        row: usize,
        r_0_even: Witness<u16>,
        r_0_odd: Witness<u16>,
        r_1_even: Witness<u16>,
        r_1_odd: Witness<u16>,
    ) -> (res: Result<(AssignedBits, AssignedBits), Error>)
        requires
            old(region).wf(),
            row + 4 <= old(region).height,
        ensures
            final(region).wf(),
            final(region).height == old(region).height,
            final(region).witnessing == old(region).witnessing,
            res is Ok <==> (!old(region).witnessing || (r_0_even is Known && r_0_odd is Known
                && r_1_even is Known && r_1_odd is Known)),
            res matches Err(e) ==> e == Error::MissingAssignment && old(region).witnessing,
            res matches Ok(out) ==> {
                &&& certification_layout(
                    *old(region),
                    *final(region),
                    row as int,
                    r_0_even,
                    r_0_odd,
                    r_1_even,
                    r_1_odd,
                )
                &&& out.0 == (AssignedBits { row, value: r_0_even })
                &&& out.1 == (AssignedBits { row: (row + 2) as usize, value: r_1_even })
            },
    {
        let (even, _odd) = self.assign_spread_outputs(region, row, r_0_even, r_0_odd, r_1_even, r_1_odd)?;
        Ok(even)
    }

    /// Certify the four candidates and keep the odd-typed pair, which is the
    /// meaningful output of `ch` and `ch_neg`.
    fn assign_ch_outputs(
        &self,
        region: &mut Region,
        row: usize,
        p_0_even: Witness<u16>,
        p_0_odd: Witness<u16>,
        p_1_even: Witness<u16>,
        p_1_odd: Witness<u16>,
    ) -> (res: Result<(AssignedBits, AssignedBits), Error>)
        requires
            old(region).wf(),
            row + 4 <= old(region).height,
        ensures
            final(region).wf(),
            final(region).height == old(region).height,
            final(region).witnessing == old(region).witnessing,
            res is Ok <==> (!old(region).witnessing || (p_0_even is Known && p_0_odd is Known
                && p_1_even is Known && p_1_odd is Known)),
            res matches Err(e) ==> e == Error::MissingAssignment && old(region).witnessing,
            res matches Ok(out) ==> {
                &&& certification_layout(
                    *old(region),
                    *final(region),
                    row as int,
                    p_0_even,
                    p_0_odd,
                    p_1_even,
                    p_1_odd,
                )
                &&& out.0 == (AssignedBits { row: (row + 1) as usize, value: p_0_odd })
                &&& out.1 == (AssignedBits { row: (row + 3) as usize, value: p_1_odd })
            },
    {
        let (_even, odd) = self.assign_spread_outputs(region, row, p_0_even, p_0_odd, p_1_even, p_1_odd)?;
        Ok(odd)
    }

    /// The `f1` gadget: the three-operand XOR-style boolean function.
    ///
    /// Copies the operands' certified spread halves into the operand
    /// columns, sums the three full spread integers, splits the 64-bit
    /// accumulator, certifies the four 16-bit parity candidates, and
    /// returns the even-typed pair as the 32-bit result, low half first:
    /// on resolved operands it reassembles to `B XOR C XOR D`.
    #[verifier::rlimit(60)]
    pub fn assign_f1(
        &self,
        region: &mut Region,
        row: usize,
        spread_halves_b: RoundWordSpread,
        spread_halves_c: RoundWordSpread,
        spread_halves_d: RoundWordSpread,
    ) -> (res: Result<(AssignedBits, AssignedBits), Error>)
        requires
            old(region).wf(),
            row + 4 <= old(region).height,
            spread_halves_b.wf(),
            spread_halves_c.wf(),
            spread_halves_d.wf(),
        ensures
            final(region).wf(),
            final(region).height == old(region).height,
            final(region).witnessing == old(region).witnessing,
            res is Ok <==> (!old(region).witnessing || (spread_halves_b.is_known()
                && spread_halves_c.is_known() && spread_halves_d.is_known())),
            res matches Err(e) ==> e == Error::MissingAssignment && old(region).witnessing,
            res matches Ok(out) ==> f1_ok(
                *old(region),
                *final(region),
                row as int,
                spread_halves_b,
                spread_halves_c,
                spread_halves_d,
                out,
            ),
    {
        let witnessing = region.witnessing;
        enable_flag(&mut region.s_f1, row);

        // Assign and copy spread_b_lo, spread_b_hi
        copy_cell(&mut region.a3, row, widen32(spread_halves_b.0), witnessing)?;
        copy_cell(&mut region.a3, row + 1, widen32(spread_halves_b.1), witnessing)?;

        // Assign and copy spread_c_lo, spread_c_hi
        copy_cell(&mut region.a4, row, widen32(spread_halves_c.0), witnessing)?;
        copy_cell(&mut region.a4, row + 1, widen32(spread_halves_c.1), witnessing)?;

        // Assign and copy spread_d_lo, spread_d_hi
        copy_cell(&mut region.a5, row, widen32(spread_halves_d.0), witnessing)?;
        copy_cell(&mut region.a5, row + 1, widen32(spread_halves_d.1), witnessing)?;

        let b_val = spread_halves_b.value();
        let c_val = spread_halves_c.value();
        let d_val = spread_halves_d.value();
        let m: Witness<u64> = match (b_val, c_val, d_val) {
            (Witness::Known(x), Witness::Known(y), Witness::Known(z)) => {
                proof {
                    lemma_is_spread16_bound(spread_halves_b.0->Known_0);
                    lemma_is_spread16_bound(spread_halves_b.1->Known_0);
                    lemma_is_spread16_bound(spread_halves_c.0->Known_0);
                    lemma_is_spread16_bound(spread_halves_c.1->Known_0);
                    lemma_is_spread16_bound(spread_halves_d.0->Known_0);
                    lemma_is_spread16_bound(spread_halves_d.1->Known_0);
                }
                Witness::Known(x + y + z)
            },
            _ => Witness::Unknown,
        };

        let (r_0_even, r_0_odd, r_1_even, r_1_odd) = split_parities(m);
        proof {
            let known = spread_halves_b.is_known() && spread_halves_c.is_known()
                && spread_halves_d.is_known();
            let m_spec = spread_halves_b.spread_val() + spread_halves_c.spread_val()
                + spread_halves_d.spread_val();
            let r0 = m_spec % 0x1_0000_0000;
            let r1 = m_spec / 0x1_0000_0000;
            assert(m is Known <==> known);
            if known {
                assert(m->Known_0 as nat == m_spec);
                assert(r0 < 0x1_0000_0000 && r1 < 0x1_0000_0000) by (nonlinear_arith)
                    requires
                        m_spec <= 0xFFFF_FFFF_FFFF_FFFF && r0 == m_spec % 0x1_0000_0000 && r1
                            == m_spec / 0x1_0000_0000,
                ;
                lemma_even32_bound(r0);
                lemma_even32_bound(r1);
                lemma_f1_result(spread_halves_b, spread_halves_c, spread_halves_d);
            }
            assert(r_0_even == k16(known, even_nat(r0)));
            assert(r_0_odd == k16(known, odd_nat(r0)));
            assert(r_1_even == k16(known, even_nat(r1)));
            assert(r_1_odd == k16(known, odd_nat(r1)));
        }
        let out = self.assign_f1_outputs(region, row, r_0_even, r_0_odd, r_1_even, r_1_odd)?;
        Ok(out)
    }

    /// The `ch` gadget: the choice function's direct term.
    ///
    /// Copies the operands' certified spread halves into the operand
    /// columns, sums the two full spread integers, splits the 64-bit
    /// accumulator, certifies the four 16-bit parity candidates, and
    /// returns the odd-typed pair as the 32-bit result, low half first: on
    /// resolved operands it reassembles to `X AND Y`.
    #[verifier::rlimit(60)]
    pub fn assign_ch(
        &self,
        region: &mut Region,
        row: usize,
        spread_halves_x: RoundWordSpread,
        spread_halves_y: RoundWordSpread,
    ) -> (res: Result<(AssignedBits, AssignedBits), Error>)
        requires
            old(region).wf(),
            row + 4 <= old(region).height,
            spread_halves_x.wf(),
            spread_halves_y.wf(),
        ensures
            final(region).wf(),
            final(region).height == old(region).height,
            final(region).witnessing == old(region).witnessing,
            res is Ok <==> (!old(region).witnessing || (spread_halves_x.is_known()
                && spread_halves_y.is_known())),
            res matches Err(e) ==> e == Error::MissingAssignment && old(region).witnessing,
            res matches Ok(out) ==> ch_ok(
                *old(region),
                *final(region),
                row as int,
                spread_halves_x,
                spread_halves_y,
                out,
            ),
    {
        let witnessing = region.witnessing;
        enable_flag(&mut region.s_ch, row);

        // Assign and copy spread_x_lo, spread_x_hi
        copy_cell(&mut region.a3, row, widen32(spread_halves_x.0), witnessing)?;
        copy_cell(&mut region.a3, row + 1, widen32(spread_halves_x.1), witnessing)?;

        // Assign and copy spread_y_lo, spread_y_hi
        copy_cell(&mut region.a4, row, widen32(spread_halves_y.0), witnessing)?;
        copy_cell(&mut region.a4, row + 1, widen32(spread_halves_y.1), witnessing)?;

        let x_val = spread_halves_x.value();
        let y_val = spread_halves_y.value();
        let p: Witness<u64> = match (x_val, y_val) {
            (Witness::Known(e), Witness::Known(f)) => {
                proof {
                    lemma_is_spread16_bound(spread_halves_x.0->Known_0);
                    lemma_is_spread16_bound(spread_halves_x.1->Known_0);
                    lemma_is_spread16_bound(spread_halves_y.0->Known_0);
                    lemma_is_spread16_bound(spread_halves_y.1->Known_0);
                }
                Witness::Known(e + f)
            },
            _ => Witness::Unknown,
        };

        let (p_0_even, p_0_odd, p_1_even, p_1_odd) = split_parities(p);
        proof {
            let known = spread_halves_x.is_known() && spread_halves_y.is_known();
            let p_spec = spread_halves_x.spread_val() + spread_halves_y.spread_val();
            let p0 = p_spec % 0x1_0000_0000;
            let p1 = p_spec / 0x1_0000_0000;
            assert(p is Known <==> known);
            if known {
                assert(p->Known_0 as nat == p_spec);
                assert(p0 < 0x1_0000_0000 && p1 < 0x1_0000_0000) by (nonlinear_arith)
                    requires
                        p_spec <= 0xFFFF_FFFF_FFFF_FFFF && p0 == p_spec % 0x1_0000_0000 && p1
                            == p_spec / 0x1_0000_0000,
                ;
                lemma_even32_bound(p0);
                lemma_even32_bound(p1);
                lemma_ch_result(spread_halves_x, spread_halves_y);
            }
            assert(p_0_even == k16(known, even_nat(p0)));
            assert(p_0_odd == k16(known, odd_nat(p0)));
            assert(p_1_even == k16(known, even_nat(p1)));
            assert(p_1_odd == k16(known, odd_nat(p1)));
        }
        let out = self.assign_ch_outputs(region, row, p_0_even, p_0_odd, p_1_even, p_1_odd)?;
        Ok(out)
    }

    /// The `ch_neg` gadget: the choice function's complementary term,
    /// `(NOT x) AND z`.
    ///
    /// Beyond the `ch` shape, it derives the bit-complement of each spread
    /// half of `x` by a pure arithmetic transform and writes the two
    /// complemented halves into the third operand column.  The derived
    /// value is not certified again: its correctness follows from the
    /// already certified input.
    #[verifier::rlimit(60)]
    pub fn assign_ch_neg(
        &self,
        region: &mut Region,
        row: usize,
        spread_halves_x: RoundWordSpread,
        spread_halves_z: RoundWordSpread,
    ) -> (res: Result<(AssignedBits, AssignedBits), Error>)
        requires
            old(region).wf(),
            row + 4 <= old(region).height,
            spread_halves_x.wf(),
            spread_halves_z.wf(),
        ensures
            final(region).wf(),
            final(region).height == old(region).height,
            final(region).witnessing == old(region).witnessing,
            res is Ok <==> (!old(region).witnessing || (spread_halves_x.is_known()
                && spread_halves_z.is_known())),
            res matches Err(e) ==> e == Error::MissingAssignment && old(region).witnessing,
            res matches Ok(out) ==> ch_neg_ok(
                *old(region),
                *final(region),
                row as int,
                spread_halves_x,
                spread_halves_z,
                out,
            ),
    {
        let witnessing = region.witnessing;
        enable_flag(&mut region.s_ch_neg, row);

        // Assign and copy spread_x_lo, spread_x_hi
        copy_cell(&mut region.a3, row, widen32(spread_halves_x.0), witnessing)?;
        copy_cell(&mut region.a3, row + 1, widen32(spread_halves_x.1), witnessing)?;

        // Assign and copy spread_z_lo, spread_z_hi
        copy_cell(&mut region.a4, row, widen32(spread_halves_z.0), witnessing)?;
        copy_cell(&mut region.a4, row + 1, widen32(spread_halves_z.1), witnessing)?;

        // Calculate and assign spread_neg_x_lo
        let spread_neg_x_lo: Witness<u32> = match spread_halves_x.0 {
            Witness::Known(v) => Witness::Known(negate_spread(v)),
            Witness::Unknown => Witness::Unknown,
        };
        assign_cell(&mut region.a5, row, widen32(spread_neg_x_lo));

        // Calculate and assign spread_neg_x_hi
        let spread_neg_x_hi: Witness<u32> = match spread_halves_x.1 {
            Witness::Known(v) => Witness::Known(negate_spread(v)),
            Witness::Unknown => Witness::Unknown,
        };
        assign_cell(&mut region.a5, row + 1, widen32(spread_neg_x_hi));

        let z_val = spread_halves_z.value();
        let q: Witness<u64> = match (spread_neg_x_lo, spread_neg_x_hi, z_val) {
            (Witness::Known(nlo), Witness::Known(nhi), Witness::Known(zv)) => {
                proof {
                    lemma_is_spread16_bound(spread_halves_z.0->Known_0);
                    lemma_is_spread16_bound(spread_halves_z.1->Known_0);
                }
                Witness::Known(nlo as u64 + 0x1_0000_0000u64 * (nhi as u64) + zv)
            },
            _ => Witness::Unknown,
        };

        let (q_0_even, q_0_odd, q_1_even, q_1_odd) = split_parities(q);
        proof {
            let known = spread_halves_x.is_known() && spread_halves_z.is_known();
            let n0 = !spread_halves_x.0->Known_0 & 0x5555_5555u32;
            let n1 = !spread_halves_x.1->Known_0 & 0x5555_5555u32;
            let q_spec = (n0 as nat) + 0x1_0000_0000 * (n1 as nat) + spread_halves_z.spread_val();
            let q0 = q_spec % 0x1_0000_0000;
            let q1 = q_spec / 0x1_0000_0000;
            assert(q is Known <==> known);
            if known {
                assert(q->Known_0 as nat == q_spec);
                assert(q0 < 0x1_0000_0000 && q1 < 0x1_0000_0000) by (nonlinear_arith)
                    requires
                        q_spec <= 0xFFFF_FFFF_FFFF_FFFF && q0 == q_spec % 0x1_0000_0000 && q1
                            == q_spec / 0x1_0000_0000,
                ;
                lemma_even32_bound(q0);
                lemma_even32_bound(q1);
                lemma_ch_neg_result(spread_halves_x, spread_halves_z);
            }
            assert(q_0_even == k16(known, even_nat(q0)));
            assert(q_0_odd == k16(known, odd_nat(q0)));
            assert(q_1_even == k16(known, even_nat(q1)));
            assert(q_1_odd == k16(known, odd_nat(q1)));
        }
        let out = self.assign_ch_outputs(region, row, q_0_even, q_0_odd, q_1_even, q_1_odd)?;
        Ok(out)
    }
}

/// On resolved, well-formed operands the odd parities of the split spread
/// sum reassemble to the AND of the dense operand words.
proof fn lemma_ch_result(x: RoundWordSpread, y: RoundWordSpread)
    requires
        x.wf(),
        y.wf(),
        x.is_known(),
        y.is_known(),
    ensures
        (
        {
            let p = x.spread_val() + y.spread_val();
            let p0 = p % 0x1_0000_0000;
            let p1 = p / 0x1_0000_0000;
            odd_nat(p0) + 0x10000 * odd_nat(p1) == ((x.dense_val() as u32) & (y.dense_val()
                as u32)) as nat
        }
        ),
{
    let x0 = x.0->Known_0;
    let x1 = x.1->Known_0;
    let y0 = y.0->Known_0;
    let y1 = y.1->Known_0;
    lemma_is_spread16_bound(x0);
    lemma_is_spread16_bound(x1);
    lemma_is_spread16_bound(y0);
    lemma_is_spread16_bound(y1);
    let dx0 = even_nat(x0 as nat);
    let dx1 = even_nat(x1 as nat);
    let dy0 = even_nat(y0 as nat);
    let dy1 = even_nat(y1 as nat);
    let p = x.spread_val() + y.spread_val();
    let lo = (x0 + y0) as nat;
    let hi = (x1 + y1) as nat;
    assert(p == lo + 0x1_0000_0000 * hi);
    assert(p % 0x1_0000_0000 == lo && p / 0x1_0000_0000 == hi) by (nonlinear_arith)
        requires
            p == lo + 0x1_0000_0000 * hi && lo < 0x1_0000_0000,
    ;
    lemma_parity_of_two_spreads(dx0, dy0);
    lemma_parity_of_two_spreads(dx1, dy1);
    lemma_and_nat_is_and(dx0 as u32, dy0 as u32);
    lemma_and_nat_is_and(dx1 as u32, dy1 as u32);
    lemma_and_halves(dx0 as u32, dx1 as u32, dy0 as u32, dy1 as u32);
}

/// On resolved, well-formed operands the odd parities of the split sum of
/// the complemented first operand and the second reassemble to
/// `(NOT x) AND z`.
proof fn lemma_ch_neg_result(x: RoundWordSpread, z: RoundWordSpread)
    requires
        x.wf(),
        z.wf(),
        x.is_known(),
        z.is_known(),
    ensures
        (
        {
            let n0 = !x.0->Known_0 & 0x5555_5555u32;
            let n1 = !x.1->Known_0 & 0x5555_5555u32;
            let q = (n0 as nat) + 0x1_0000_0000 * (n1 as nat) + z.spread_val();
            let q0 = q % 0x1_0000_0000;
            let q1 = q / 0x1_0000_0000;
            odd_nat(q0) + 0x10000 * odd_nat(q1) == ((!(x.dense_val() as u32)) & (z.dense_val()
                as u32)) as nat
        }
        ),
{
    let x0 = x.0->Known_0;
    let x1 = x.1->Known_0;
    let z0 = z.0->Known_0;
    let z1 = z.1->Known_0;
    lemma_is_spread16_bound(x0);
    lemma_is_spread16_bound(x1);
    lemma_is_spread16_bound(z0);
    lemma_is_spread16_bound(z1);
    let dx0 = even_nat(x0 as nat);
    let dx1 = even_nat(x1 as nat);
    let dz0 = even_nat(z0 as nat);
    let dz1 = even_nat(z1 as nat);
    // the complemented halves are the spreads of the complemented dense halves
    crate::util::lemma_spread_odd_mask(dx0);
    crate::util::lemma_spread_odd_mask(dx1);
    crate::util::lemma_neg_mask(x0);
    crate::util::lemma_neg_mask(x1);
    crate::util::lemma_pow_16_facts();
    crate::util::lemma_spread_complement(dx0, 16);
    crate::util::lemma_spread_complement(dx1, 16);
    let n0 = !x0 & 0x5555_5555u32;
    let n1 = !x1 & 0x5555_5555u32;
    assert(n0 as nat == spread_nat((0xFFFF - dx0) as nat));
    assert(n1 as nat == spread_nat((0xFFFF - dx1) as nat));
    let q = (n0 as nat) + 0x1_0000_0000 * (n1 as nat) + z.spread_val();
    let lo = (n0 + z0) as nat;
    let hi = (n1 + z1) as nat;
    assert(q == lo + 0x1_0000_0000 * hi);
    assert(q % 0x1_0000_0000 == lo && q / 0x1_0000_0000 == hi) by (nonlinear_arith)
        requires
            q == lo + 0x1_0000_0000 * hi && lo < 0x1_0000_0000,
    ;
    lemma_parity_of_two_spreads((0xFFFF - dx0) as nat, dz0);
    lemma_parity_of_two_spreads((0xFFFF - dx1) as nat, dz1);
    lemma_and_nat_is_and((0xFFFF - dx0) as u32, dz0 as u32);
    lemma_and_nat_is_and((0xFFFF - dx1) as u32, dz1 as u32);
    lemma_ch_neg_halves(dx0 as u32, dx1 as u32, dz0 as u32, dz1 as u32);
}

/// On resolved, well-formed operands the even parities of the split spread
/// sum reassemble to the three-way XOR of the dense operand words.
proof fn lemma_f1_result(b: RoundWordSpread, c: RoundWordSpread, d: RoundWordSpread)
    requires
        b.wf(),
        c.wf(),
        d.wf(),
        b.is_known(),
        c.is_known(),
        d.is_known(),
    ensures
        (
        {
            let m = b.spread_val() + c.spread_val() + d.spread_val();
            let r0 = m % 0x1_0000_0000;
            let r1 = m / 0x1_0000_0000;
            even_nat(r0) + 0x10000 * even_nat(r1) == ((b.dense_val() as u32) ^ (c.dense_val()
                as u32) ^ (d.dense_val() as u32)) as nat
        }
        ),
{
    let b0 = b.0->Known_0;
    let b1 = b.1->Known_0;
    let c0 = c.0->Known_0;
    let c1 = c.1->Known_0;
    let d0 = d.0->Known_0;
    let d1 = d.1->Known_0;
    lemma_is_spread16_bound(b0);
    lemma_is_spread16_bound(b1);
    lemma_is_spread16_bound(c0);
    lemma_is_spread16_bound(c1);
    lemma_is_spread16_bound(d0);
    lemma_is_spread16_bound(d1);
    let xb0 = even_nat(b0 as nat);
    let xb1 = even_nat(b1 as nat);
    let xc0 = even_nat(c0 as nat);
    let xc1 = even_nat(c1 as nat);
    let xd0 = even_nat(d0 as nat);
    let xd1 = even_nat(d1 as nat);
    let m = b.spread_val() + c.spread_val() + d.spread_val();
    let lo = (b0 + c0 + d0) as nat;
    let hi = (b1 + c1 + d1) as nat;
    assert(m == lo + 0x1_0000_0000 * hi);
    assert(m % 0x1_0000_0000 == lo && m / 0x1_0000_0000 == hi) by (nonlinear_arith)
        requires
            m == lo + 0x1_0000_0000 * hi && lo < 0x1_0000_0000,
    ;
    lemma_parity_of_three_spreads(xb0, xc0, xd0);
    lemma_parity_of_three_spreads(xb1, xc1, xd1);
    lemma_xor_nat_is_xor(xb0 as u32, xc0 as u32);
    lemma_xor_nat_is_xor((xb0 as u32) ^ (xc0 as u32), xd0 as u32);
    lemma_xor_nat_is_xor(xb1 as u32, xc1 as u32);
    lemma_xor_nat_is_xor((xb1 as u32) ^ (xc1 as u32), xd1 as u32);
    lemma_xor3_halves(xb0 as u32, xb1 as u32, xc0 as u32, xc1 as u32, xd0 as u32, xd1 as u32);
}

/// What `f1` does on success.  The gadget flag comes on at the target row;
/// the three operands' spread halves are copied into `a3`, `a4`, `a5` at the
/// target row and the one after; the four parity candidates of the spread
/// sum are certified at the four lookup rows; and the returned even pair,
/// when resolved, reassembles to the three-way XOR of the dense operands.
pub open spec fn f1_ok(
    pre: Region,
    post: Region,
    row: int,
    b: RoundWordSpread,
    c: RoundWordSpread,
    d: RoundWordSpread,
    out: (AssignedBits, AssignedBits),
) -> bool {
    let known = b.is_known() && c.is_known() && d.is_known();
    let m = b.spread_val() + c.spread_val() + d.spread_val();
    let r0 = m % 0x1_0000_0000;
    let r1 = m / 0x1_0000_0000;
    let r0e = k16(known, even_nat(r0));
    let r0o = k16(known, odd_nat(r0));
    let r1e = k16(known, even_nat(r1));
    let r1o = k16(known, odd_nat(r1));
    &&& post.height == pre.height
    &&& post.witnessing == pre.witnessing
    &&& post.s_f1@ == pre.s_f1@.update(row, true)
    &&& post.s_ch == pre.s_ch
    &&& post.s_ch_neg == pre.s_ch_neg
    &&& post.a3@ == pre.a3@.update(row, Some(w64_32(b.0))).update(row + 1, Some(w64_32(b.1)))
    &&& post.a4@ == pre.a4@.update(row, Some(w64_32(c.0))).update(row + 1, Some(w64_32(c.1)))
    &&& post.a5@ == pre.a5@.update(row, Some(w64_32(d.0))).update(row + 1, Some(w64_32(d.1)))
    &&& lookup_rows_updated(pre.a1@, post.a1@, pre.a2@, post.a2@, row, r0e, r0o, r1e, r1o)
    &&& out.0 == (AssignedBits { row: row as usize, value: r0e })
    &&& out.1 == (AssignedBits { row: (row + 2) as usize, value: r1e })
    &&& known ==> (out.0.value->Known_0 as nat) + 0x10000 * (out.1.value->Known_0 as nat) == ((
    b.dense_val() as u32) ^ (c.dense_val() as u32) ^ (d.dense_val() as u32)) as nat
}

/// What `ch` does on success.  The gadget flag comes on at the target row;
/// the two operands' spread halves are copied into `a3` and `a4`; the four
/// parity candidates of the spread sum are certified at the four lookup
/// rows; and the returned odd pair, when resolved, reassembles to the
/// bitwise AND of the dense operands.
pub open spec fn ch_ok(
    pre: Region,
    post: Region,
    row: int,
    x: RoundWordSpread,
    y: RoundWordSpread,
    out: (AssignedBits, AssignedBits),
) -> bool {
    let known = x.is_known() && y.is_known();
    let p = x.spread_val() + y.spread_val();
    let p0 = p % 0x1_0000_0000;
    let p1 = p / 0x1_0000_0000;
    let p0e = k16(known, even_nat(p0));
    let p0o = k16(known, odd_nat(p0));
    let p1e = k16(known, even_nat(p1));
    let p1o = k16(known, odd_nat(p1));
    &&& post.height == pre.height
    &&& post.witnessing == pre.witnessing
    &&& post.s_ch@ == pre.s_ch@.update(row, true)
    &&& post.s_f1 == pre.s_f1
    &&& post.s_ch_neg == pre.s_ch_neg
    &&& post.a3@ == pre.a3@.update(row, Some(w64_32(x.0))).update(row + 1, Some(w64_32(x.1)))
    &&& post.a4@ == pre.a4@.update(row, Some(w64_32(y.0))).update(row + 1, Some(w64_32(y.1)))
    &&& post.a5 == pre.a5
    &&& lookup_rows_updated(pre.a1@, post.a1@, pre.a2@, post.a2@, row, p0e, p0o, p1e, p1o)
    &&& out.0 == (AssignedBits { row: (row + 1) as usize, value: p0o })
    &&& out.1 == (AssignedBits { row: (row + 3) as usize, value: p1o })
    &&& known ==> (out.0.value->Known_0 as nat) + 0x10000 * (out.1.value->Known_0 as nat) == ((
    x.dense_val() as u32) & (y.dense_val() as u32)) as nat
}

/// The bit-complement of one spread half, as the `ch_neg` gadget derives it:
/// flip the even bits, keep the odd padding clear.
pub open spec fn neg_spread_w(w: Witness<u32>) -> Witness<u32> {
    match w {
        Witness::Unknown => Witness::Unknown,
        Witness::Known(v) => Witness::Known(!v & 0x5555_5555),
    }
}

/// What `ch_neg` does on success.  Beyond the `ch` shape, the derived
/// complemented spread halves of the first operand go to `a5`; the returned
/// odd pair, when resolved, reassembles to `(NOT x) AND z`.
pub open spec fn ch_neg_ok(
    pre: Region,
    post: Region,
    row: int,
    x: RoundWordSpread,
    z: RoundWordSpread,
    out: (AssignedBits, AssignedBits),
) -> bool {
    let known = x.is_known() && z.is_known();
    let n0 = !x.0->Known_0 & 0x5555_5555u32;
    let n1 = !x.1->Known_0 & 0x5555_5555u32;
    let q = (n0 as nat) + 0x1_0000_0000 * (n1 as nat) + z.spread_val();
    let q0 = q % 0x1_0000_0000;
    let q1 = q / 0x1_0000_0000;
    let q0e = k16(known, even_nat(q0));
    let q0o = k16(known, odd_nat(q0));
    let q1e = k16(known, even_nat(q1));
    let q1o = k16(known, odd_nat(q1));
    &&& post.height == pre.height
    &&& post.witnessing == pre.witnessing
    &&& post.s_ch_neg@ == pre.s_ch_neg@.update(row, true)
    &&& post.s_f1 == pre.s_f1
    &&& post.s_ch == pre.s_ch
    &&& post.a3@ == pre.a3@.update(row, Some(w64_32(x.0))).update(row + 1, Some(w64_32(x.1)))
    &&& post.a4@ == pre.a4@.update(row, Some(w64_32(z.0))).update(row + 1, Some(w64_32(z.1)))
    &&& post.a5@ == pre.a5@.update(row, Some(w64_32(neg_spread_w(x.0)))).update(
        row + 1,
        Some(w64_32(neg_spread_w(x.1))),
    )
    &&& lookup_rows_updated(pre.a1@, post.a1@, pre.a2@, post.a2@, row, q0e, q0o, q1e, q1o)
    &&& out.0 == (AssignedBits { row: (row + 1) as usize, value: q0o })
    &&& out.1 == (AssignedBits { row: (row + 3) as usize, value: q1o })
    &&& known ==> (out.0.value->Known_0 as nat) + 0x10000 * (out.1.value->Known_0 as nat) == ((!(
    x.dense_val() as u32)) & (z.dense_val() as u32)) as nat
}

/// Split a 64-bit spread accumulator into low and high 32-bit halves and
/// extract the even and odd 16-bit parities of each half, phase-agnostically:
/// an unresolved accumulator yields four unresolved candidates.
fn split_parities(m: Witness<u64>) -> (r: (Witness<u16>, Witness<u16>, Witness<u16>, Witness<u16>))
    ensures
        (
        {
            let known = m is Known;
            let r0 = (m->Known_0 as nat) % 0x1_0000_0000;
            let r1 = (m->Known_0 as nat) / 0x1_0000_0000;
            &&& r.0 == k16(known, even_nat(r0))
            &&& r.1 == k16(known, odd_nat(r0))
            &&& r.2 == k16(known, even_nat(r1))
            &&& r.3 == k16(known, odd_nat(r1))
        }
        ),
{
    match m {
        Witness::Unknown => (Witness::Unknown, Witness::Unknown, Witness::Unknown, Witness::Unknown),
        Witness::Known(v) => {
            let r_0 = (v % 0x1_0000_0000) as u32;
            let r_1 = (v / 0x1_0000_0000) as u32;
            proof {
                assert(v as nat / 0x1_0000_0000 < 0x1_0000_0000) by (nonlinear_arith)
                    requires v <= 0xFFFF_FFFF_FFFF_FFFFu64,
                ;
                lemma_even32_bound(r_0 as nat);
                lemma_even32_bound(r_1 as nat);
            }
            (
                Witness::Known(even_bits(r_0)),
                Witness::Known(odd_bits(r_0)),
                Witness::Known(even_bits(r_1)),
                Witness::Known(odd_bits(r_1)),
            )
        },
    }
}

/// A certified pair produced from a 16-bit candidate carries the candidate
/// itself as its dense projection and the candidate's spread encoding as its
/// spread projection.
proof fn lemma_spread_var_matches(cand: Witness<u16>, sv: SpreadVar)
    requires
        sv.consistent(),
        sv.dense is Known <==> w64_16(cand) is Known,
        w64_16(cand) matches Witness::Known(v) ==> sv.dense == Witness::Known(v as u16),
    ensures
        sv.dense == cand,
        sv.spread == spread_of_w(cand),
{
    match cand {
        Witness::Unknown => {},
        Witness::Known(v) => {},
    }
}

} // verus!
