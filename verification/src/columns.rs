//! The column and cell model: typed handles for the columns of the grid and
//! for (column, row) cell addresses.
//!
//! Advice columns hold witness values filled in per instance; fixed columns
//! hold per-row constants decided at configuration time (for example lookup
//! tables); instance columns hold public inputs. A selector is a boolean
//! per-row flag, kept apart from the fixed columns, that gates and lookup
//! arguments are multiplied by so that they are vacuous where it is 0.

use vstd::prelude::*;

verus! {

/// The kind of a column. Kinds are fixed at configuration time and never
/// reinterpreted.
#[derive(Clone, Copy, Debug, PartialEq, Eq, Structural)]
pub enum ColumnKind {
    Advice,
    Fixed,
    Instance,
}

/// A handle for one column of the grid.
#[derive(Clone, Copy, Debug, PartialEq, Eq, Structural)]
pub struct Column {
    pub kind: ColumnKind,
    pub index: usize,
}

/// The address of one cell: a column and an absolute row.
#[derive(Clone, Copy, Debug, PartialEq, Eq, Structural)]
pub struct Cell {
    pub column: Column,
    pub row: usize,
}

/// A handle for one selector.
#[derive(Clone, Copy, Debug, PartialEq, Eq, Structural)]
pub struct Selector {
    pub index: usize,
}

/// A relative row offset, used by expressions to address a cell relative to
/// the row a gate is evaluated at.
#[derive(Clone, Copy, Debug, PartialEq, Eq, Structural)]
pub struct Rotation {
    pub offset: i32,
}

impl Rotation {
    /// The current row.
    pub fn cur() -> (r: Rotation)
        ensures
            r.offset == 0,
    {
        Rotation { offset: 0 }
    }

    /// The next row.
    pub fn next() -> (r: Rotation)
        ensures
            r.offset == 1,
    {
        Rotation { offset: 1 }
    }

    /// The previous row.
    pub fn prev() -> (r: Rotation)
        ensures
            r.offset == -1,
    {
        Rotation { offset: -1 }
    }
}

} // verus!
