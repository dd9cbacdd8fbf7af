//! Arithmetic-circuit gadgets for the nonlinear boolean round functions of a
//! hash compression function: a three-operand XOR-style function (`f1`) and a
//! two-operand choice function in direct (`ch`) and negated-first-operand
//! (`ch_neg`) form.
//!
//! Bitwise boolean operations have no low-degree algebraic form, so words are
//! carried in a "spread" encoding that interleaves every bit with a zero
//! padding bit.  Summing up to three spread words keeps each original bit
//! position inside its own two-bit window; the parity pattern of the sum then
//! recovers XOR (even bits) or AND (odd bits) of the operands.  A lookup
//! relation certifies that a dense value and its spread form belong together.
//!
//! Module layout, leaves first:
//! - [`util`]: the spread encoding and parity extraction, with the laws that
//!   make the gadgets sound;
//! - [`witness`]: the two-phase witness value (unresolved during circuit
//!   description, concrete during witness generation);
//! - [`region`]: the caller-owned block of witness cells a gadget writes into;
//! - [`spread_table`]: certification of a dense candidate against the
//!   spread/dense correspondence;
//! - [`compression`]: the three boolean-function gadgets and their shared
//!   four-row certification routine.

pub mod compression;
pub mod region;
pub mod spread_table;
pub mod util;
pub mod witness;
