//! The two-phase witness value.  During circuit description every quantity is
//! an unresolved placeholder; during witness generation it is concrete.  The
//! same gadget code serves both phases, so a value is carried behind this
//! wrapper and resolvedness is threaded through, never assumed.

use vstd::prelude::*;

verus! {

/// A witness quantity: either still unresolved or a concrete value.
#[derive(Clone, Copy, Debug, PartialEq, Eq, Structural)]
pub enum Witness<T> {
    Unknown,
    Known(T),
}

/// A 16-bit witness widened to the cell payload width.
pub open spec fn w64_16(w: Witness<u16>) -> Witness<u64> {
    match w {
        Witness::Unknown => Witness::Unknown,
        Witness::Known(v) => Witness::Known(v as u64),
    }
}

/// A 32-bit witness widened to the cell payload width.
pub open spec fn w64_32(w: Witness<u32>) -> Witness<u64> {
    match w {
        Witness::Unknown => Witness::Unknown,
        Witness::Known(v) => Witness::Known(v as u64),
    }
}

/// Widen a 16-bit witness to the cell payload width.
pub fn widen16(w: Witness<u16>) -> (r: Witness<u64>)
    ensures
        r == w64_16(w),
{
    match w {
        Witness::Unknown => Witness::Unknown,
        Witness::Known(v) => Witness::Known(v as u64),
    }
}

/// Widen a 32-bit witness to the cell payload width.
pub fn widen32(w: Witness<u32>) -> (r: Witness<u64>)
    ensures
        r == w64_32(w),
{
    match w {
        Witness::Unknown => Witness::Unknown,
        Witness::Known(v) => Witness::Known(v as u64),
    }
}

} // verus!
