//! The caller-owned block of witness cells one gadget invocation writes into.
//!
//! The layout mirrors the gadgets' fixed column plan: `a1` holds the dense
//! lookup inputs, `a2` the spread lookup inputs, `a3`–`a5` the operand copies
//! and derived values, and one enable flag column per boolean function.  A
//! cell is `None` until a gadget assigns it; an assigned cell still carries a
//! two-phase [`Witness`] payload.

use vstd::prelude::*;
use crate::witness::Witness;

verus! {

/// The one error taxonomy of this core: assignment/lookup failure.  Both
/// conditions are fatal to the enclosing circuit-synthesis call.
#[derive(Clone, Copy, Debug, PartialEq, Eq, Structural)]
pub enum Error {
    /// A copy target that must already hold a certified value was still
    /// unresolved at witness-generation time.
    MissingAssignment,
    /// A candidate dense value had no matching row in the correspondence
    /// table (it was not a 16-bit value).
    InvalidLookupCandidate,
}

/// One witness cell: unassigned, or assigned with a two-phase payload.
pub type Cell = Option<Witness<u64>>;

/// A contiguous block of rows across the gadget columns, exclusively owned
/// by the calling pipeline stage for the duration of one gadget call.
pub struct Region {
    /// True during witness generation, false during circuit description.
    pub witnessing: bool,
    /// Number of rows; every column holds exactly this many cells.
    pub height: usize,
    /// Dense halves bound to the lookup relation.
    pub a1: Vec<Cell>,
    /// Spread halves bound to the lookup relation.
    pub a2: Vec<Cell>,
    /// First operand column.
    pub a3: Vec<Cell>,
    /// Second operand column.
    pub a4: Vec<Cell>,
    /// Third operand / derived value column.
    pub a5: Vec<Cell>,
    /// Gate-enable flag for `f1`.
    pub s_f1: Vec<bool>,
    /// Gate-enable flag for `ch`.
    pub s_ch: Vec<bool>,
    /// Gate-enable flag for `ch_neg`.
    pub s_ch_neg: Vec<bool>,
}

impl Region {
    pub open spec fn wf(self) -> bool {
        &&& self.a1.len() == self.height
        &&& self.a2.len() == self.height
        &&& self.a3.len() == self.height
        &&& self.a4.len() == self.height
        &&& self.a5.len() == self.height
        &&& self.s_f1.len() == self.height
        &&& self.s_ch.len() == self.height
        &&& self.s_ch_neg.len() == self.height
    }

    /// A fresh region: every cell unassigned, every flag off.
    pub fn new(height: usize, witnessing: bool) -> (r: Region)
        ensures
            r.wf(),
            r.height == height,
            r.witnessing == witnessing,
            forall|i: int| 0 <= i < height ==> r.a1@[i] is None,
            forall|i: int| 0 <= i < height ==> r.a2@[i] is None,
            forall|i: int| 0 <= i < height ==> r.a3@[i] is None,
            forall|i: int| 0 <= i < height ==> r.a4@[i] is None,
            forall|i: int| 0 <= i < height ==> r.a5@[i] is None,
            forall|i: int| 0 <= i < height ==> !r.s_f1@[i],
            forall|i: int| 0 <= i < height ==> !r.s_ch@[i],
            forall|i: int| 0 <= i < height ==> !r.s_ch_neg@[i],
    {
        Region {
            witnessing,
            height,
            a1: empty_cells(height),
            a2: empty_cells(height),
            a3: empty_cells(height),
            a4: empty_cells(height),
            a5: empty_cells(height),
            s_f1: off_flags(height),
            s_ch: off_flags(height),
            s_ch_neg: off_flags(height),
        }
    }
}

fn empty_cells(height: usize) -> (r: Vec<Cell>)
    ensures
        r.len() == height,
        forall|i: int| 0 <= i < height ==> r@[i] is None,
{
    let mut r: Vec<Cell> = Vec::new();
    let mut i: usize = 0;
    while i < height
        invariant
            i <= height,
            r.len() == i,
            forall|j: int| 0 <= j < i ==> r@[j] is None,
        decreases height - i,
    {
        r.push(None);
        i = i + 1;
    }
    r
}

fn off_flags(height: usize) -> (r: Vec<bool>)
    ensures
        r.len() == height,
        forall|i: int| 0 <= i < height ==> !r@[i],
{
    let mut r: Vec<bool> = Vec::new();
    let mut i: usize = 0;
    while i < height
        invariant
            i <= height,
            r.len() == i,
            forall|j: int| 0 <= j < i ==> !r@[j],
        decreases height - i,
    {
        r.push(false);
        i = i + 1;
    }
    r
}

/// Write a freshly computed witness value into a cell.
pub fn assign_cell(col: &mut Vec<Cell>, row: usize, w: Witness<u64>)
    requires
        row < old(col).len(),
    ensures
        final(col)@ == old(col)@.update(row as int, Some(w)),
{
    col.set(row, Some(w));
}

/// Copy an already certified value into a destination cell: pure wiring,
/// equality with the previously certified value, not recomputation.  During
/// witness generation an unresolved source is a missing prior assignment.
pub fn copy_cell(col: &mut Vec<Cell>, row: usize, w: Witness<u64>, witnessing: bool) -> (res:
    Result<(), Error>)
    requires
        row < old(col).len(),
    ensures
        res is Ok <==> (w is Known || !witnessing),
        res is Ok ==> final(col)@ == old(col)@.update(row as int, Some(w)),
        res is Err ==> final(col)@ == old(col)@ && res->Err_0 == Error::MissingAssignment,
{
    if witnessing {
        match w {
            Witness::Known(_) => {
                col.set(row, Some(w));
                Ok(())
            },
            Witness::Unknown => Err(Error::MissingAssignment),
        }
    } else {
        col.set(row, Some(w));
        Ok(())
    }
}

/// Turn a gate-enable flag on at one row.
pub fn enable_flag(flags: &mut Vec<bool>, row: usize)
    requires
        row < old(flags).len(),
    ensures
        final(flags)@ == old(flags)@.update(row as int, true),
{
    flags.set(row, true);
}

} // verus!
