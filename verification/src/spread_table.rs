//! Certification of a dense candidate against the spread/dense
//! correspondence table.  The table itself is a precomputed finite relation,
//! supplied externally and assumed correct: for bit-width 16 it holds exactly
//! the pairs `(d, spread_nat(d))` with `d < 2^16`.  Certifying a candidate
//! binds its dense and spread forms to the lookup columns at one row; once
//! certified, either projection may be copied elsewhere without
//! re-certification.

use vstd::prelude::*;
use crate::region::{Error, Region, assign_cell};
use crate::util::{spread_nat, spread16};
use crate::witness::{Witness, w64_16, w64_32};

verus! {

/// The correspondence relation the lookup argument enforces: a row exists
/// for `(dense, spread)` exactly when `dense` is a 16-bit value and `spread`
/// is its spread encoding.
pub open spec fn table_contains(dense: nat, spread: nat) -> bool {
    dense < 0x10000 && spread == spread_nat(dense)
}

/// A (dense, spread) pair ready for certification.
#[derive(Clone, Copy, Debug, PartialEq, Eq, Structural)]
pub struct SpreadWord {
    pub dense: u16,
    pub spread: u32,
}

impl SpreadWord {
    /// The pair matches a table row.
    pub open spec fn wf(self) -> bool {
        table_contains(self.dense as nat, self.spread as nat)
    }

    /// Encode a dense 16-bit word together with its spread form.
    pub fn new(dense: u16) -> (r: SpreadWord)
        ensures
            r.wf(),
            r.dense == dense,
    {
        SpreadWord { dense, spread: spread16(dense) }
    }

    /// Admit a candidate of unchecked width.  A value that does not fit in
    /// 16 bits has no table row and is rejected before it reaches the
    /// lookup relation.
    pub fn try_new(dense: u64) -> (r: Result<SpreadWord, Error>)
        ensures
            r is Ok <==> dense < 0x10000,
            r matches Ok(w) ==> w.dense == dense && w.wf(),
            r matches Err(e) ==> e == Error::InvalidLookupCandidate,
    {
        if dense < 0x10000 {
            Ok(SpreadWord::new(dense as u16))
        } else {
            Err(Error::InvalidLookupCandidate)
        }
    }
}

/// A certified pair: dense and spread forms bound together at a lookup row.
#[derive(Clone, Copy, Debug, PartialEq, Eq, Structural)]
pub struct SpreadVar {
    /// The row whose lookup cells hold the pair.
    pub row: usize,
    /// The dense projection.
    pub dense: Witness<u16>,
    /// The spread projection.
    pub spread: Witness<u32>,
}

impl SpreadVar {
    /// The certification invariant: both projections resolve together, and
    /// whenever they are resolved, re-encoding the dense value gives exactly
    /// the spread value bound to it.
    pub open spec fn consistent(self) -> bool {
        &&& self.dense is Known <==> self.spread is Known
        &&& self.dense is Known ==> table_contains(
            self.dense->Known_0 as nat,
            self.spread->Known_0 as nat,
        )
    }

    /// Certify `candidate` against the correspondence table at `row`: bind
    /// its dense form to `a1` and its spread form to `a2` there.  An
    /// over-wide candidate is rejected before the region is touched; an
    /// unresolved candidate during witness generation is a missing prior
    /// assignment.
    pub fn with_lookup(region: &mut Region, row: usize, candidate: Witness<u64>) -> (res: Result<
        SpreadVar,
        Error,
    >)
        requires
            old(region).wf(),
            row < old(region).height,
        ensures
            final(region).wf(),
            final(region).height == old(region).height,
            final(region).witnessing == old(region).witnessing,
            final(region).a3 == old(region).a3,
            final(region).a4 == old(region).a4,
            final(region).a5 == old(region).a5,
            final(region).s_f1 == old(region).s_f1,
            final(region).s_ch == old(region).s_ch,
            final(region).s_ch_neg == old(region).s_ch_neg,
            res is Ok <==> ((candidate is Known || !old(region).witnessing) && (candidate
                matches Witness::Known(v) ==> v < 0x10000)),
            res matches Err(e) ==> {
                &&& *final(region) == *old(region)
                &&& (e == Error::InvalidLookupCandidate <==> (candidate matches Witness::Known(v)
                    && v >= 0x10000))
                &&& (e == Error::MissingAssignment ==> candidate is Unknown && old(
                    region,
                ).witnessing)
            },
            res matches Ok(sv) ==> {
                &&& sv.row == row
                &&& sv.consistent()
                &&& (sv.dense is Known <==> candidate is Known)
                &&& (candidate matches Witness::Known(v) ==> sv.dense == Witness::Known(
                    v as u16,
                ))
                &&& final(region).a1@ == old(region).a1@.update(row as int, Some(w64_16(sv.dense)))
                &&& final(region).a2@ == old(region).a2@.update(row as int, Some(w64_32(sv.spread)))
            },
    {
        match candidate {
            Witness::Unknown => {
                if region.witnessing {
                    Err(Error::MissingAssignment)
                } else {
                    assign_cell(&mut region.a1, row, Witness::Unknown);
                    assign_cell(&mut region.a2, row, Witness::Unknown);
                    Ok(SpreadVar { row, dense: Witness::Unknown, spread: Witness::Unknown })
                }
            },
            Witness::Known(v) => {
                let word = SpreadWord::try_new(v)?;
                assign_cell(&mut region.a1, row, Witness::Known(word.dense as u64));
                assign_cell(&mut region.a2, row, Witness::Known(word.spread as u64));
                Ok(
                    SpreadVar {
                        row,
                        dense: Witness::Known(word.dense),
                        spread: Witness::Known(word.spread),
                    },
                )
            },
        }
    }
}

} // verus!
