//! Fatal error kinds for configuration and assignment.
//!
//! These abort synthesis immediately: they indicate a broken circuit
//! description, not a bad witness. Constraint, lookup and copy violations
//! are not errors in this sense; the checker accumulates them as a
//! diagnostic batch instead (see `checker`).

use vstd::prelude::*;

verus! {

/// A fatal error raised while configuring a circuit or assigning its
/// witness.
#[derive(Clone, Copy, Debug, PartialEq, Eq, Structural)]
pub enum Error {
    /// A column, selector or table was used in a way the configuration does
    /// not allow: a handle that was never declared, a table loaded twice, or
    /// a copy constraint on a column without equality support.
    ConfigurationError,
    /// A cell was addressed outside the grid or its region, assigned twice
    /// with differing values, or read before assignment.
    AssignmentError,
}

} // verus!
