//! The region/layouter assignment engine.
//!
//! The layouter owns the finalized constraint system, the grid being
//! populated, and the copy-constraint tracker. Row ranges for logically
//! scoped regions are handed out by a single serialized bump allocation, so
//! no two regions overlap in any column; within its range a region enables
//! selectors, assigns advice values, binds advice cells to public inputs or
//! constants, and copies already-assigned cells, each recording its copy
//! constraint. Region names are diagnostic only and carry no semantic
//! effect.
//!
//! Configuration and assignment failures are fatal: every method returns the
//! error instead of touching any state, and its contract says exactly on
//! which inputs each error comes.

use crate::columns::{Cell, Column, ColumnKind, Selector};
use crate::copy::CopyTracker;
use crate::errors::Error;
use crate::field::{Fp, FIELD_MODULUS};
use crate::grid::{lemma_cell_value_out_of_rows, Grid};
use crate::system::ConstraintSystem;
use vstd::arithmetic::power2::{lemma2_to64, lemma_pow2_strictly_increases, pow2};
use vstd::prelude::*;

verus! {

/// The assignment engine for one circuit instance.
pub struct Layouter {
    /// The finalized circuit shape; immutable here.
    pub cs: ConstraintSystem,
    /// The grid being populated.
    pub grid: Grid,
    /// The copy-constraint log.
    pub copies: CopyTracker,
    /// The first row not yet claimed by any region.
    pub next_row: usize,
    /// The next free row of the constant column.
    pub next_constant_row: usize,
}

impl Layouter {
    /// Well-formedness: the grid has the shape the system declares, and the
    /// allocation cursors stay inside the grid.
    pub open spec fn wf(self) -> bool {
        &&& self.cs.wf()
        &&& self.grid.wf()
        &&& self.grid.n_advice == self.cs.n_advice
        &&& self.grid.n_fixed == self.cs.n_fixed
        &&& self.grid.n_selectors == self.cs.n_selectors
        &&& self.grid.instance@.len() == self.cs.n_instance
        &&& self.next_row <= self.grid.n_rows
        &&& self.next_constant_row <= self.grid.n_rows
        &&& self.copies.distinct()
    }

    /// Everything fixed at configuration time is the same in `b` as in `a`:
    /// the system and the grid's shape and public inputs.
    pub open spec fn same_shape(a: Layouter, b: Layouter) -> bool {
        &&& b.cs == a.cs
        &&& b.grid.n_rows == a.grid.n_rows
        &&& b.grid.n_advice == a.grid.n_advice
        &&& b.grid.n_fixed == a.grid.n_fixed
        &&& b.grid.n_selectors == a.grid.n_selectors
        &&& b.grid.instance == a.grid.instance
    }

    /// Whether the public-input vectors fit the grid: no column longer than
    /// the row count, every value reduced.
    pub open spec fn instance_fits(instance: Seq<Vec<Fp>>, n_rows: int) -> bool {
        &&& forall|i: int| 0 <= i < instance.len() ==> (#[trigger] instance[i])@.len() <= n_rows
        &&& forall|i: int, j: int|
            0 <= i < instance.len() && 0 <= j < (instance[i])@.len() ==> (#[trigger] (
            instance[i])@[j]).wf()
    }

    /// Builds the engine for a circuit of `2^k` rows over the given system,
    /// with the given public-input vectors.
    ///
    /// Fails with `ConfigurationError` exactly when a public-input vector is
    /// longer than the grid, its column count differs from the declared
    /// instance-column count, or a public-input value is not reduced.
    pub fn new(cs: ConstraintSystem, k: usize, instance: Vec<Vec<Fp>>) -> (r: Result<
        Layouter,
        Error,
    >)
        requires
            cs.wf(),
            k <= 24,
        ensures
            r is Ok <==> (instance@.len() == cs.n_instance && Self::instance_fits(
                instance@,
                pow2(k as nat) as int,
            )),
            r matches Ok(ly) ==> {
                &&& ly.wf()
                &&& ly.cs == cs
                &&& ly.grid.n_rows == pow2(k as nat)
                &&& ly.grid.instance@ == instance@
                &&& ly.next_row == 0
                &&& ly.next_constant_row == 0
                &&& ly.copies.pairs@.len() == 0
                &&& forall|c: int, r2: int| #[trigger] ly.grid.advice_at(c, r2) is None
                &&& forall|c: int, r2: int| #[trigger] ly.grid.fixed_at(c, r2) is None
                &&& forall|s: int, r2: int| !(#[trigger] ly.grid.selector_at(s, r2))
            },
            r matches Err(e) ==> e == Error::ConfigurationError,
    {
        proof {
            lemma2_to64();
        }
        let mut n_rows: usize = 1;
        let mut i: usize = 0;
        while i < k
            invariant
                i <= k <= 24,
                n_rows == pow2(i as nat),
                n_rows <= 0x100_0000,
            decreases k - i,
        {
            proof {
                lemma2_to64();
                if i + 1 < 24 {
                    lemma_pow2_strictly_increases((i + 1) as nat, 24);
                }
                assert(pow2((i + 1) as nat) == 2 * pow2(i as nat)) by {
                    vstd::arithmetic::power2::lemma_pow2_unfold((i + 1) as nat);
                }
            }
            n_rows = n_rows * 2;
            i = i + 1;
        }
        if instance.len() != cs.n_instance {
            return Err(Error::ConfigurationError);
        }
        let mut ci: usize = 0;
        while ci < instance.len()
            invariant
                ci <= instance@.len(),
                n_rows == pow2(k as nat),
                n_rows <= 0x100_0000,
                forall|i2: int| 0 <= i2 < ci ==> (#[trigger] instance@[i2])@.len() <= n_rows,
                forall|i2: int, j: int|
                    0 <= i2 < ci && 0 <= j < (instance@[i2])@.len() ==> (#[trigger] (
                    instance@[i2])@[j]).wf(),
            decreases instance@.len() - ci,
        {
            let col = &instance[ci];
            if col.len() > n_rows {
                return Err(Error::ConfigurationError);
            }
            let mut rj: usize = 0;
            while rj < col.len()
                invariant
                    ci < instance@.len(),
                    rj <= col@.len(),
                    col == &instance@[ci as int],
                    forall|j: int| 0 <= j < rj ==> ((#[trigger] col@[j])).wf(),
                decreases col@.len() - rj,
            {
                if col[rj].v >= FIELD_MODULUS {
                    proof {
                        assert(!(instance@[ci as int])@[rj as int].wf());
                    }
                    return Err(Error::ConfigurationError);
                }
                rj = rj + 1;
            }
            ci = ci + 1;
        }
        let grid = Grid::new(n_rows, cs.n_advice, cs.n_fixed, cs.n_selectors, instance);
        Ok(
            Layouter {
                cs,
                grid,
                copies: CopyTracker::new(),
                next_row: 0,
                next_constant_row: 0,
            },
        )
    }

    /// The number of rows of the grid.
    pub fn n_rows(&self) -> (n: usize)
        ensures
            n == self.grid.n_rows,
    {
        self.grid.n_rows
    }

    /// Claims the next `rows` rows for a new region and returns the region's
    /// starting row. Regions never overlap: each allocation starts where the
    /// previous one ended. The name is diagnostic only.
    ///
    /// Fails with `AssignmentError` exactly when fewer than `rows` rows are
    /// left.
    pub fn assign_region(&mut self, name: &'static str, rows: usize) -> (r: Result<usize, Error>)
        requires
            old(self).wf(),
        ensures
            final(self).wf(),
            Self::same_shape(*old(self), *final(self)),
            r is Ok <==> old(self).next_row + rows <= old(self).grid.n_rows,
            r matches Ok(off) ==> {
                &&& off == old(self).next_row
                &&& final(self).next_row == old(self).next_row + rows
                &&& final(self).grid == old(self).grid
                &&& final(self).copies == old(self).copies
                &&& final(self).next_constant_row == old(self).next_constant_row
            },
            r matches Err(e) ==> e == Error::AssignmentError && *final(self) == *old(self),
    {
        let _ = name;
        if rows > self.grid.n_rows - self.next_row {
            return Err(Error::AssignmentError);
        }
        let off = self.next_row;
        self.next_row = self.next_row + rows;
        Ok(off)
    }

    /// Whether `s` is a declared selector and `row` is inside the grid.
    pub open spec fn can_enable_selector(self, s: Selector, row: usize) -> bool {
        s.index < self.cs.n_selectors && row < self.grid.n_rows
    }

    /// Enables selector `s` at `row`.
    ///
    /// Fails with `ConfigurationError` exactly when `s` was never declared,
    /// and otherwise with `AssignmentError` exactly when `row` is outside
    /// the grid.
    pub fn enable_selector(&mut self, s: Selector, row: usize) -> (r: Result<(), Error>)
        requires
            old(self).wf(),
        ensures
            final(self).wf(),
            Self::same_shape(*old(self), *final(self)),
            r is Ok <==> old(self).can_enable_selector(s, row),
            r is Ok ==> {
                &&& final(self).grid.selector_at(s.index as int, row as int)
                &&& forall|s2: int, r2: int|
                    !(s2 == s.index && r2 == row) ==> #[trigger] final(self).grid.selector_at(
                        s2,
                        r2,
                    ) == old(self).grid.selector_at(s2, r2)
                &&& final(self).grid.advice == old(self).grid.advice
                &&& final(self).grid.fixed == old(self).grid.fixed
                &&& final(self).copies == old(self).copies
                &&& final(self).next_row == old(self).next_row
                &&& final(self).next_constant_row == old(self).next_constant_row
            },
            r matches Err(e) ==> *final(self) == *old(self) && e == (
            if s.index >= old(self).cs.n_selectors {
                Error::ConfigurationError
            } else {
                Error::AssignmentError
            }),
    {
        if s.index >= self.cs.n_selectors {
            return Err(Error::ConfigurationError);
        }
        if row >= self.grid.n_rows {
            return Err(Error::AssignmentError);
        }
        self.grid.set_selector(s.index, row);
        Ok(())
    }

    /// Whether `col` is a declared advice column.
    pub open spec fn advice_col_ok(self, col: Column) -> bool {
        col.kind == ColumnKind::Advice && col.index < self.cs.n_advice
    }

    /// Whether the advice cell at (`col`, `row`) can take the value `v`:
    /// the cell is inside the grid and is either unassigned or already
    /// carries the same value.
    pub open spec fn advice_cell_ok(self, col: Column, row: usize, v: int) -> bool {
        &&& row < self.grid.n_rows
        &&& (self.grid.advice_at(col.index as int, row as int) is None || self.grid.advice_at(
            col.index as int,
            row as int,
        ) == Some(v))
    }

    /// Assigns a fresh advice value and returns the cell's handle.
    ///
    /// Fails with `ConfigurationError` exactly when `col` is not a declared
    /// advice column, and otherwise with `AssignmentError` exactly when
    /// `row` is outside the grid or the cell already carries a different
    /// value.
    pub fn assign_advice(&mut self, col: Column, row: usize, value: Fp) -> (r: Result<Cell, Error>)
        requires
            old(self).wf(),
            value.wf(),
        ensures
            final(self).wf(),
            Self::same_shape(*old(self), *final(self)),
            r is Ok <==> old(self).advice_col_ok(col) && old(self).advice_cell_ok(
                col,
                row,
                value.val(),
            ),
            r matches Ok(cell) ==> {
                &&& cell == Cell { column: col, row }
                &&& final(self).grid.advice_at(col.index as int, row as int) == Some(value.val())
                &&& forall|c2: int, r2: int|
                    !(c2 == col.index && r2 == row) ==> #[trigger] final(self).grid.advice_at(
                        c2,
                        r2,
                    ) == old(self).grid.advice_at(c2, r2)
                &&& final(self).grid.fixed == old(self).grid.fixed
                &&& final(self).grid.selectors == old(self).grid.selectors
                &&& final(self).copies == old(self).copies
                &&& final(self).next_row == old(self).next_row
                &&& final(self).next_constant_row == old(self).next_constant_row
            },
            r matches Err(e) ==> *final(self) == *old(self) && e == (
            if !old(self).advice_col_ok(col) {
                Error::ConfigurationError
            } else {
                Error::AssignmentError
            }),
    {
        if !(matches!(col.kind, ColumnKind::Advice) && col.index < self.cs.n_advice) {
            return Err(Error::ConfigurationError);
        }
        if row >= self.grid.n_rows {
            return Err(Error::AssignmentError);
        }
        match self.grid.get_advice(col.index, row) {
            Some(existing) => {
                if existing.v != value.v {
                    return Err(Error::AssignmentError);
                }
            },
            None => {},
        }
        self.grid.set_advice(col.index, row, value);
        Ok(Cell { column: col, row })
    }

    /// The configuration-side conditions for binding an advice cell to a
    /// public input: a declared advice column, an instance column, equality
    /// enabled on both.
    pub open spec fn instance_config_ok(self, inst: Column, col: Column) -> bool {
        &&& inst.kind == ColumnKind::Instance
        &&& self.advice_col_ok(col)
        &&& self.cs.equality_ok(inst)
        &&& self.cs.equality_ok(col)
    }

    /// Assigns the public input at (`inst`, `inst_row`) into the advice cell
    /// at (`col`, `row`) and records the copy constraint between the two
    /// cells.
    ///
    /// Fails with `ConfigurationError` exactly when `col` is not a declared
    /// advice column, `inst` is not an instance column, or either column
    /// lacks equality support; otherwise with `AssignmentError` exactly
    /// when the public input is not provided, `row` is outside the grid, or
    /// the advice cell already carries a different value.
    pub fn assign_advice_from_instance(
        &mut self,
        inst: Column,
        inst_row: usize,
        col: Column,
        row: usize,
    ) -> (r: Result<Cell, Error>)
        requires
            old(self).wf(),
        ensures
            final(self).wf(),
            Self::same_shape(*old(self), *final(self)),
            r is Ok <==> (old(self).instance_config_ok(inst, col) && match old(
                self,
            ).grid.instance_at(inst.index as int, inst_row as int) {
                Some(v) => old(self).advice_cell_ok(col, row, v),
                None => false,
            }),
            r matches Ok(cell) ==> {
                &&& cell == Cell { column: col, row }
                &&& final(self).grid.advice_at(col.index as int, row as int) == old(
                    self,
                ).grid.instance_at(inst.index as int, inst_row as int)
                &&& forall|c2: int, r2: int|
                    !(c2 == col.index && r2 == row) ==> #[trigger] final(self).grid.advice_at(
                        c2,
                        r2,
                    ) == old(self).grid.advice_at(c2, r2)
                &&& final(self).grid.fixed == old(self).grid.fixed
                &&& final(self).grid.selectors == old(self).grid.selectors
                &&& final(self).next_row == old(self).next_row
                &&& final(self).next_constant_row == old(self).next_constant_row
                &&& pair_push_or_same(
                    old(self).copies.pairs@,
                    final(self).copies.pairs@,
                    cell,
                    Cell { column: inst, row: inst_row },
                )
            },
            r matches Err(e) ==> *final(self) == *old(self) && e == (
            if !old(self).instance_config_ok(inst, col) {
                Error::ConfigurationError
            } else {
                Error::AssignmentError
            }),
    {
        if !(matches!(inst.kind, ColumnKind::Instance) && matches!(col.kind, ColumnKind::Advice)
            && col.index < self.cs.n_advice) {
            return Err(Error::ConfigurationError);
        }
        if !(column_in(&self.cs.equality_enabled, inst) && column_in(
            &self.cs.equality_enabled,
            col,
        )) {
            return Err(Error::ConfigurationError);
        }
        let v = match self.grid.get_instance(inst.index, inst_row) {
            Some(v) => v,
            None => {
                return Err(Error::AssignmentError);
            },
        };
        if row >= self.grid.n_rows {
            return Err(Error::AssignmentError);
        }
        match self.grid.get_advice(col.index, row) {
            Some(existing) => {
                if existing.v != v.v {
                    return Err(Error::AssignmentError);
                }
            },
            None => {},
        }
        self.grid.set_advice(col.index, row, v);
        let cell = Cell { column: col, row };
        self.copies.record(cell, Cell { column: inst, row: inst_row });
        Ok(cell)
    }

    /// Copies the value of an already-assigned cell into the advice cell at
    /// (`col`, `row`) and records the copy constraint between the two
    /// cells.
    ///
    /// Fails with `ConfigurationError` exactly when `col` is not a declared
    /// advice column or either column lacks equality support; otherwise
    /// with `AssignmentError` exactly when `from` is unassigned, `row` is
    /// outside the grid, or the target cell already carries a different
    /// value.
    pub fn copy_advice(&mut self, from: Cell, col: Column, row: usize) -> (r: Result<Cell, Error>)
        requires
            old(self).wf(),
        ensures
            final(self).wf(),
            Self::same_shape(*old(self), *final(self)),
            r is Ok <==> (old(self).advice_col_ok(col) && old(self).cs.equality_ok(from.column)
                && old(self).cs.equality_ok(col) && match old(self).grid.cell_value(from) {
                Some(v) => old(self).advice_cell_ok(col, row, v),
                None => false,
            }),
            r matches Ok(cell) ==> {
                &&& cell == Cell { column: col, row }
                &&& final(self).grid.advice_at(col.index as int, row as int) == old(
                    self,
                ).grid.cell_value(from)
                &&& forall|c2: int, r2: int|
                    !(c2 == col.index && r2 == row) ==> #[trigger] final(self).grid.advice_at(
                        c2,
                        r2,
                    ) == old(self).grid.advice_at(c2, r2)
                &&& final(self).grid.fixed == old(self).grid.fixed
                &&& final(self).grid.selectors == old(self).grid.selectors
                &&& final(self).next_row == old(self).next_row
                &&& final(self).next_constant_row == old(self).next_constant_row
                &&& pair_push_or_same(
                    old(self).copies.pairs@,
                    final(self).copies.pairs@,
                    from,
                    cell,
                )
            },
            r matches Err(e) ==> *final(self) == *old(self) && e == (
            if !(old(self).advice_col_ok(col) && old(self).cs.equality_ok(from.column) && old(
                self,
            ).cs.equality_ok(col)) {
                Error::ConfigurationError
            } else {
                Error::AssignmentError
            }),
    {
        if !(matches!(col.kind, ColumnKind::Advice) && col.index < self.cs.n_advice) {
            return Err(Error::ConfigurationError);
        }
        if !(column_in(&self.cs.equality_enabled, from.column) && column_in(
            &self.cs.equality_enabled,
            col,
        )) {
            return Err(Error::ConfigurationError);
        }
        if from.row >= self.grid.n_rows {
            proof {
                lemma_cell_value_out_of_rows(old(self).grid, from);
            }
            return Err(Error::AssignmentError);
        }
        let v = match self.grid.query_value(from.column, from.row as i64) {
            Some(v) => v,
            None => {
                return Err(Error::AssignmentError);
            },
        };
        if row >= self.grid.n_rows {
            return Err(Error::AssignmentError);
        }
        match self.grid.get_advice(col.index, row) {
            Some(existing) => {
                if existing.v != v.v {
                    return Err(Error::AssignmentError);
                }
            },
            None => {},
        }
        self.grid.set_advice(col.index, row, v);
        let cell = Cell { column: col, row };
        self.copies.record(from, cell);
        Ok(cell)
    }

    /// Assigns the constant `constant` into the advice cell at (`col`,
    /// `row`), places the constant into the next free row of the designated
    /// constant column, and records the copy constraint between the two
    /// cells.
    ///
    /// Fails with `ConfigurationError` exactly when `col` is not a declared
    /// advice column, no constant column was designated, or either column
    /// lacks equality support; otherwise with `AssignmentError` exactly
    /// when `row` is outside the grid, the advice cell already carries a
    /// different value, or no free constant row with a compatible value is
    /// left.
    pub fn assign_advice_from_constant(&mut self, col: Column, row: usize, constant: Fp) -> (r:
        Result<Cell, Error>)
        requires
            old(self).wf(),
            constant.wf(),
        ensures
            final(self).wf(),
            Self::same_shape(*old(self), *final(self)),
            r is Ok <==> (old(self).constant_config_ok(col) && old(self).advice_cell_ok(
                col,
                row,
                constant.val(),
            ) && old(self).constant_slot_ok(constant.val())),
            r matches Ok(cell) ==> {
                &&& cell == Cell { column: col, row }
                &&& old(self).cs.constant_column matches Some(cc) && {
                    &&& final(self).grid.advice_at(col.index as int, row as int) == Some(
                        constant.val(),
                    )
                    &&& forall|c2: int, r2: int|
                        !(c2 == col.index && r2 == row) ==> #[trigger] final(self).grid.advice_at(
                            c2,
                            r2,
                        ) == old(self).grid.advice_at(c2, r2)
                    &&& final(self).grid.fixed_at(
                        cc.index as int,
                        old(self).next_constant_row as int,
                    ) == Some(constant.val())
                    &&& forall|c2: int, r2: int|
                        !(c2 == cc.index && r2 == old(self).next_constant_row)
                            ==> #[trigger] final(self).grid.fixed_at(c2, r2) == old(
                            self,
                        ).grid.fixed_at(c2, r2)
                    &&& final(self).grid.selectors == old(self).grid.selectors
                    &&& final(self).next_row == old(self).next_row
                    &&& final(self).next_constant_row == old(self).next_constant_row + 1
                    &&& pair_push_or_same(
                        old(self).copies.pairs@,
                        final(self).copies.pairs@,
                        cell,
                        Cell { column: cc, row: old(self).next_constant_row },
                    )
                }
            },
            r matches Err(e) ==> *final(self) == *old(self) && e == (
            if !old(self).constant_config_ok(col) {
                Error::ConfigurationError
            } else {
                Error::AssignmentError
            }),
    {
        let cc = match self.cs.constant_column {
            Some(cc) => cc,
            None => {
                return Err(Error::ConfigurationError);
            },
        };
        if !(matches!(col.kind, ColumnKind::Advice) && col.index < self.cs.n_advice) {
            return Err(Error::ConfigurationError);
        }
        if !(column_in(&self.cs.equality_enabled, col) && column_in(
            &self.cs.equality_enabled,
            cc,
        )) {
            return Err(Error::ConfigurationError);
        }
        if row >= self.grid.n_rows {
            return Err(Error::AssignmentError);
        }
        match self.grid.get_advice(col.index, row) {
            Some(existing) => {
                if existing.v != constant.v {
                    return Err(Error::AssignmentError);
                }
            },
            None => {},
        }
        if self.next_constant_row >= self.grid.n_rows {
            return Err(Error::AssignmentError);
        }
        match self.grid.get_fixed(cc.index, self.next_constant_row) {
            Some(existing) => {
                if existing.v != constant.v {
                    return Err(Error::AssignmentError);
                }
            },
            None => {},
        }
        let const_row = self.next_constant_row;
        self.grid.set_advice(col.index, row, constant);
        let ghost mid = self.grid;
        self.grid.set_fixed(cc.index, const_row, constant);
        proof {
            assert forall|c2: int, r2: int| !(c2 == col.index && r2 == row) implies #[trigger] self
                .grid.advice_at(c2, r2) == old(self).grid.advice_at(c2, r2) by {
                assert(self.grid.advice_at(c2, r2) == mid.advice_at(c2, r2));
                assert(mid.advice_at(c2, r2) == old(self).grid.advice_at(c2, r2));
            }
        }
        self.next_constant_row = const_row + 1;
        let cell = Cell { column: col, row };
        self.copies.record(cell, Cell { column: cc, row: const_row });
        Ok(cell)
    }

    /// The configuration-side conditions for constant assignment.
    pub open spec fn constant_config_ok(self, col: Column) -> bool {
        &&& self.advice_col_ok(col)
        &&& self.cs.constant_column is Some
        &&& self.cs.equality_ok(col)
        &&& match self.cs.constant_column {
            Some(cc) => self.cs.equality_ok(cc),
            None => false,
        }
    }

    /// Whether the next constant-column slot can take the value `v`.
    pub open spec fn constant_slot_ok(self, v: int) -> bool {
        &&& self.next_constant_row < self.grid.n_rows
        &&& match self.cs.constant_column {
            Some(cc) => self.grid.fixed_at(cc.index as int, self.next_constant_row as int)
                is None || self.grid.fixed_at(cc.index as int, self.next_constant_row as int)
                == Some(v),
            None => false,
        }
    }

    /// Binds an already-assigned cell to a public input: records the copy
    /// constraint between `cell` and the instance cell at (`inst`,
    /// `inst_row`), without assigning anything. This is the terminal
    /// binding a circuit uses to expose an output.
    ///
    /// Fails with `ConfigurationError` exactly when `inst` is not an
    /// instance column or either column lacks equality support; otherwise
    /// with `AssignmentError` exactly when the public input is not
    /// provided or `cell` is unassigned. Requiring the cell to be assigned
    /// keeps pairwise checking equivalent to class-wise agreement: every
    /// member of every recorded class carries a value.
    pub fn constrain_instance(&mut self, cell: Cell, inst: Column, inst_row: usize) -> (r: Result<
        (),
        Error,
    >)
        requires
            old(self).wf(),
        ensures
            final(self).wf(),
            Self::same_shape(*old(self), *final(self)),
            r is Ok <==> (inst.kind == ColumnKind::Instance && old(self).cs.equality_ok(cell.column)
                && old(self).cs.equality_ok(inst) && old(self).grid.instance_at(
                inst.index as int,
                inst_row as int,
            ) is Some && old(self).grid.cell_value(cell) is Some),
            r is Ok ==> {
                &&& final(self).grid == old(self).grid
                &&& final(self).next_row == old(self).next_row
                &&& final(self).next_constant_row == old(self).next_constant_row
                &&& pair_push_or_same(
                    old(self).copies.pairs@,
                    final(self).copies.pairs@,
                    cell,
                    Cell { column: inst, row: inst_row },
                )
            },
            r matches Err(e) ==> *final(self) == *old(self) && e == (
            if !(inst.kind == ColumnKind::Instance && old(self).cs.equality_ok(cell.column) && old(
                self,
            ).cs.equality_ok(inst)) {
                Error::ConfigurationError
            } else {
                Error::AssignmentError
            }),
    {
        if !matches!(inst.kind, ColumnKind::Instance) {
            return Err(Error::ConfigurationError);
        }
        if !(column_in(&self.cs.equality_enabled, cell.column) && column_in(
            &self.cs.equality_enabled,
            inst,
        )) {
            return Err(Error::ConfigurationError);
        }
        match self.grid.get_instance(inst.index, inst_row) {
            Some(_) => {},
            None => {
                return Err(Error::AssignmentError);
            },
        }
        match self.grid.get_cell_value(cell) {
            Some(_) => {},
            None => {
                return Err(Error::AssignmentError);
            },
        }
        self.copies.record(cell, Cell { column: inst, row: inst_row });
        Ok(())
    }
}

/// The copy log either gained exactly the pair of `a` and `b` at its end,
/// or already held it in some orientation and is unchanged; either way the
/// pair is now recorded.
pub open spec fn pair_push_or_same(before: Seq<(Cell, Cell)>, after: Seq<(Cell, Cell)>, a: Cell, b:
    Cell) -> bool {
    &&& crate::copy::pair_recorded(after, a, b)
    &&& if crate::copy::pair_recorded(before, a, b) {
        after == before
    } else {
        after == before.push((a, b))
    }
}

/// Whether `c` occurs in `v`.
fn column_in(v: &Vec<Column>, c: Column) -> (r: bool)
    ensures
        r == v@.contains(c),
{
    let n = v.len();
    let mut i: usize = 0;
    while i < n
        invariant
            n == v@.len(),
            i <= n,
            forall|j: int| 0 <= j < i ==> v@[j] != c,
        decreases n - i,
    {
        if v[i] == c {
            return true;
        }
        i = i + 1;
    }
    proof {
        if v@.contains(c) {
            let j = choose|j: int| 0 <= j < v@.len() && v@[j] == c;
            assert(v@[j] != c);
        }
    }
    false
}

} // verus!
