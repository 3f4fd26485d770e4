//! A front end for describing verifiable arithmetic computations as algebraic
//! constraints over a grid of cells, together with a concrete-witness checker.
//!
//! A caller declares columns, selector-gated polynomial gates and lookup
//! arguments once per circuit shape, then populates the grid region by region
//! for each concrete input, and finally runs the checker, which evaluates
//! every enabled gate, lookup and copy constraint and reports all violations.
//!
//! The proving backend that would turn a satisfied constraint system into a
//! succinct proof is out of scope: the checker here mirrors the soundness
//! check such a backend would enforce. Field arithmetic is carried out in a
//! small prime field, large enough for every value the example gadgets use.

pub mod checker;
pub mod columns;
pub mod copy;
pub mod errors;
pub mod expression;
pub mod fibonacci;
pub mod field;
pub mod grid;
pub mod is_zero;
pub mod is_zero_gadget;
pub mod layouter;
pub mod numeric;
pub mod range_check_direct;
pub mod range_check_lookup;
pub mod system;
pub mod table;

use vstd::prelude::*;

verus! {

} // verus!
