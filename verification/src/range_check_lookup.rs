//! The range check with a lookup table: for large bounds, a fixed column
//! is preloaded with `0..lookup_range` and a lookup argument replaces the
//! polynomial product, keeping the constraint degree independent of the
//! bound. A circuit may mix a small direct check and a large lookup-based
//! check, each with its own selector, over the same value column.

use crate::columns::{Cell, Column, ColumnKind, Rotation, Selector};
use crate::errors::Error;
use crate::expression::Expression;
use crate::field::{Fp, FIELD_MODULUS};
use crate::layouter::Layouter;
use crate::system::ConstraintSystem;
use crate::grid::Grid;
use crate::system::LookupArgument;
use crate::table::RangeTableConfig;
use vstd::prelude::*;

verus! {

/// The system holds exactly the direct range gate and the lookup argument
/// of `cfg`, with distinct selectors, and nothing else.
pub open spec fn rc2_configured(cs: ConstraintSystem, cfg: RangeCheckConfig) -> bool {
    &&& cfg.valid(cs)
    &&& cs.gates@.len() == 1
    &&& (cs.gates@[0].constraints)@.len() == 1
    &&& forall|g: Grid, rr: int|
        g.wf() ==> #[trigger] g.eval((cs.gates@[0].constraints)@[0], rr) == cfg.direct().gate_eval(
            g,
            rr,
        )
    &&& cs.lookups@.len() == 1
    &&& cs.lookups@[0] == (LookupArgument {
        selector: cfg.q_lookup,
        input: Expression::Query(cfg.value, crate::columns::Rotation { offset: 0 }),
        table: cfg.table.value,
    })
    &&& cfg.q_lookup.index != cfg.q_range_check.index
}

/// The columns, selectors, bound and table of the combined range check.
#[derive(Clone, Copy, Debug, PartialEq, Eq, Structural)]
pub struct RangeCheckConfig {
    pub q_range_check: Selector,
    pub q_lookup: Selector,
    pub value: Column,
    pub table: RangeTableConfig,
    pub range: usize,
}

impl RangeCheckConfig {
    /// The handles are declared in the system.
    pub open spec fn valid(self, cs: ConstraintSystem) -> bool {
        &&& self.value.kind == ColumnKind::Advice && self.value.index < cs.n_advice
        &&& self.q_range_check.index < cs.n_selectors
        &&& self.q_lookup.index < cs.n_selectors
        &&& self.table.valid(cs)
        &&& 1 <= self.range <= FIELD_MODULUS
    }

    /// The direct range check this combined check embeds.
    pub open spec fn direct(self) -> crate::range_check_direct::RangeCheckConfig {
        crate::range_check_direct::RangeCheckConfig {
            value: self.value,
            q_range_check: self.q_range_check,
            range: self.range,
        }
    }

    /// Declares both selectors and the table column, registers the direct
    /// product gate for `range` through the direct range check, and
    /// registers the lookup argument of `value` against the table.
    pub fn configure(
        meta: &mut ConstraintSystem,
        value: Column,
        range: usize,
        lookup_range: usize,
    ) -> (cfg: RangeCheckConfig)
        requires
            old(meta).wf(),
            old(meta).n_selectors + 2 <= 0x40,
            old(meta).n_fixed < 0x40,
            old(meta).gates@.len() == 0,
            old(meta).lookups@.len() == 0,
            value.kind == ColumnKind::Advice && value.index < old(meta).n_advice,
            1 <= range <= FIELD_MODULUS,
            lookup_range <= FIELD_MODULUS,
        ensures
            final(meta).wf(),
            cfg.valid(*final(meta)),
            rc2_configured(*final(meta), cfg),
            cfg.value == value,
            cfg.range == range,
            cfg.table.n_values == lookup_range,
    {
        let direct = crate::range_check_direct::RangeCheckConfig::configure(meta, value, range);
        let q_lookup = meta.complex_selector();
        let table = RangeTableConfig::configure(meta, lookup_range);

        let lookup_input = Expression::query(value, Rotation::cur());
        meta.lookup(q_lookup, lookup_input, table.value);

        let cfg = RangeCheckConfig {
            q_range_check: direct.q_range_check,
            q_lookup,
            value,
            table,
            range,
        };
        proof {
            assert(cfg.direct() == direct);
            assert(meta.lookups@[0] == (LookupArgument {
                selector: q_lookup,
                input: Expression::Query(value, crate::columns::Rotation { offset: 0 }),
                table: table.value,
            }));
        }
        cfg
    }

    /// Assigns a value under the direct polynomial check.
    pub fn assign_simple(&self, ly: &mut Layouter, value: Fp) -> (r: Result<Cell, Error>)
        requires
            old(ly).wf(),
            self.valid(old(ly).cs),
            value.wf(),
            old(ly).next_row < old(ly).grid.n_rows,
            forall|c2: int, r2: int|
                r2 >= old(ly).next_row ==> #[trigger] old(ly).grid.advice_at(c2, r2) is None,
        ensures
            r is Ok,
            final(ly).wf(),
            Layouter::same_shape(*old(ly), *final(ly)),
            final(ly).next_row == old(ly).next_row + 1,
            r matches Ok(cell) ==> ({
                &&& cell == Cell { column: self.value, row: old(ly).next_row }
                &&& final(ly).grid.cell_value(cell) == Some(value.val())
                &&& final(ly).grid.selector_at(
                    self.q_range_check.index as int,
                    old(ly).next_row as int,
                )
                &&& forall|s2: int, r2: int|
                    !(s2 == self.q_range_check.index && r2 == old(ly).next_row)
                        ==> #[trigger] final(ly).grid.selector_at(s2, r2) == old(ly).grid.selector_at(s2, r2)
                &&& forall|c2: int, r2: int|
                    !(c2 == self.value.index && r2 == old(ly).next_row) ==> #[trigger] final(ly).grid.advice_at(c2, r2) == old(ly).grid.advice_at(c2, r2)
            }),
            forall|c2: int, r2: int|
                r2 >= final(ly).next_row ==> #[trigger] final(ly).grid.advice_at(c2, r2) is None,
            final(ly).grid.fixed == old(ly).grid.fixed,
            final(ly).copies == old(ly).copies,
            final(ly).next_constant_row == old(ly).next_constant_row,
    {
        let row = ly.assign_region("assign for simple", 1)?;
        ly.enable_selector(self.q_range_check, row)?;
        let ghost g0 = ly.grid;
        proof {
            assert(ly.grid.advice_at(self.value.index as int, row as int) == old(ly).grid.advice_at(self.value.index as int, row as int));
        }
        let cell = ly.assign_advice(self.value, row, value)?;
        proof {
            assert forall|c2: int, r2: int| r2 >= ly.next_row implies #[trigger] ly.grid.advice_at(
                c2,
                r2,
            ) is None by {
                assert(ly.grid.advice_at(c2, r2) == old(ly).grid.advice_at(c2, r2));
            }
            assert forall|s2: int, r2: int|
                !(s2 == self.q_range_check.index && r2 == row) implies #[trigger] ly
                .grid.selector_at(s2, r2) == old(ly).grid.selector_at(s2, r2) by {
                assert(ly.grid.selector_at(s2, r2) == g0.selector_at(s2, r2));
                assert(g0.selector_at(s2, r2) == old(ly).grid.selector_at(s2, r2));
            }
            assert(ly.grid.selector_at(self.q_range_check.index as int, row as int)
                == g0.selector_at(self.q_range_check.index as int, row as int));
            assert forall|c2: int, r2: int|
                !(c2 == self.value.index && r2 == row) implies #[trigger] ly.grid.advice_at(c2, r2)
                == old(ly).grid.advice_at(c2, r2) by {
                assert(g0.advice_at(c2, r2) == old(ly).grid.advice_at(c2, r2));
            }
        }
        Ok(cell)
    }

    /// Assigns a value under the lookup check.
    pub fn assign_lookup(&self, ly: &mut Layouter, value: Fp) -> (r: Result<Cell, Error>)
        requires
            old(ly).wf(),
            self.valid(old(ly).cs),
            value.wf(),
            old(ly).next_row < old(ly).grid.n_rows,
            forall|c2: int, r2: int|
                r2 >= old(ly).next_row ==> #[trigger] old(ly).grid.advice_at(c2, r2) is None,
        ensures
            r is Ok,
            final(ly).wf(),
            Layouter::same_shape(*old(ly), *final(ly)),
            final(ly).next_row == old(ly).next_row + 1,
            r matches Ok(cell) ==> ({
                &&& cell == Cell { column: self.value, row: old(ly).next_row }
                &&& final(ly).grid.cell_value(cell) == Some(value.val())
                &&& final(ly).grid.selector_at(self.q_lookup.index as int, old(ly).next_row as int)
                &&& forall|s2: int, r2: int|
                    !(s2 == self.q_lookup.index && r2 == old(ly).next_row) ==> #[trigger] final(ly).grid.selector_at(s2, r2) == old(ly).grid.selector_at(s2, r2)
                &&& forall|c2: int, r2: int|
                    !(c2 == self.value.index && r2 == old(ly).next_row) ==> #[trigger] final(ly).grid.advice_at(c2, r2) == old(ly).grid.advice_at(c2, r2)
            }),
            forall|c2: int, r2: int|
                r2 >= final(ly).next_row ==> #[trigger] final(ly).grid.advice_at(c2, r2) is None,
            final(ly).grid.fixed == old(ly).grid.fixed,
            final(ly).copies == old(ly).copies,
            final(ly).next_constant_row == old(ly).next_constant_row,
    {
        let row = ly.assign_region("assign for lookup", 1)?;
        ly.enable_selector(self.q_lookup, row)?;
        let ghost g0 = ly.grid;
        proof {
            assert(ly.grid.advice_at(self.value.index as int, row as int) == old(ly).grid.advice_at(self.value.index as int, row as int));
        }
        let cell = ly.assign_advice(self.value, row, value)?;
        proof {
            assert forall|c2: int, r2: int| r2 >= ly.next_row implies #[trigger] ly.grid.advice_at(
                c2,
                r2,
            ) is None by {
                assert(ly.grid.advice_at(c2, r2) == old(ly).grid.advice_at(c2, r2));
            }
            assert forall|s2: int, r2: int|
                !(s2 == self.q_lookup.index && r2 == row) implies #[trigger] ly.grid.selector_at(s2, r2)
                == old(ly).grid.selector_at(s2, r2) by {
                assert(ly.grid.selector_at(s2, r2) == g0.selector_at(s2, r2));
                assert(g0.selector_at(s2, r2) == old(ly).grid.selector_at(s2, r2));
            }
            assert(ly.grid.selector_at(self.q_lookup.index as int, row as int) == g0.selector_at(
                self.q_lookup.index as int,
                row as int,
            ));
            assert forall|c2: int, r2: int|
                !(c2 == self.value.index && r2 == row) implies #[trigger] ly.grid.advice_at(c2, r2)
                == old(ly).grid.advice_at(c2, r2) by {
                assert(g0.advice_at(c2, r2) == old(ly).grid.advice_at(c2, r2));
            }
        }
        Ok(cell)
    }
}

/// The example circuit: a direct range check at one row and a
/// lookup-table range check at the next, over the same value column.
pub struct RangeCheck2Circuit {
    pub value: Fp,
    pub lookup_value: Fp,
}

impl RangeCheck2Circuit {
    /// Loads the table and assigns both values on a fresh grid.
    ///
    /// Combined range-check correctness: the populated grid satisfies the
    /// registered system exactly when the first value lies below the
    /// direct bound and the second appears in the table.
    pub fn synthesize(&self, config: RangeCheckConfig, ly: &mut Layouter) -> (r: Result<(), Error>)
        requires
            old(ly).wf(),
            rc2_configured(old(ly).cs, config),
            self.value.wf(),
            self.lookup_value.wf(),
            old(ly).next_row == 0,
            forall|c2: int, r2: int| #[trigger] old(ly).grid.advice_at(c2, r2) is None,
            forall|c2: int, r2: int| #[trigger] old(ly).grid.fixed_at(c2, r2) is None,
            forall|s2: int, r2: int| !(#[trigger] old(ly).grid.selector_at(s2, r2)),
            old(ly).copies.pairs@.len() == 0,
            config.table.n_values >= 1,
            config.table.n_values + 2 <= old(ly).grid.n_rows,
        ensures
            r is Ok,
            final(ly).wf(),
            Layouter::same_shape(*old(ly), *final(ly)),
            r is Ok ==> (crate::checker::satisfies(*final(ly)) <==> (self.value.val()
                < config.range && self.lookup_value.val() < config.table.n_values)),
            r is Ok ==> (crate::checker::gates_ok(final(ly).cs, final(ly).grid)
                <==> self.value.val() < config.range),
            r is Ok ==> (crate::checker::lookups_ok(final(ly).cs, final(ly).grid)
                <==> self.lookup_value.val() < config.table.n_values),
    {
        proof {
            assert(old(ly).grid.fixed_at(config.table.value.index as int, 0) is None);
        }
        config.table.load(ly)?;
        let ghost l1 = *ly;
        proof {
            assert forall|c2: int, r2: int| r2 >= ly.next_row implies #[trigger] ly.grid.advice_at(
                c2,
                r2,
            ) is None by {
                assert(ly.grid.advice_at(c2, r2) == old(ly).grid.advice_at(c2, r2));
            }
        }
        config.assign_simple(ly, self.value)?;
        let ghost l2 = *ly;
        config.assign_lookup(ly, self.lookup_value)?;
        proof {
            let gf = ly.grid;
            let cs = ly.cs;
            assert(l1.next_row == 0);
            assert(l2.next_row == 1);
            assert(ly.copies == l2.copies && l2.copies == l1.copies && l1.copies == old(ly).copies);
            let v = self.value.val();
            let lv = self.lookup_value.val();
            let qrc = config.q_range_check.index as int;
            let ql = config.q_lookup.index as int;
            let vcol = config.value.index as int;
            // selectors: the direct check at row 0, the lookup at row 1
            assert forall|s2: int, r2: int|
                #[trigger] gf.selector_at(s2, r2) <==> ((s2 == qrc && r2 == 0) || (s2 == ql && r2
                    == 1)) by {
                if !(s2 == ql && r2 == 1) {
                    assert(gf.selector_at(s2, r2) == l2.grid.selector_at(s2, r2));
                    if !(s2 == qrc && r2 == 0) {
                        assert(l2.grid.selector_at(s2, r2) == l1.grid.selector_at(s2, r2));
                        assert(l1.grid.selector_at(s2, r2) == old(ly).grid.selector_at(s2, r2));
                    } else {
                        assert(l2.grid.selector_at(qrc, 0));
                    }
                } else {
                    assert(gf.selector_at(ql, 1));
                }
            }
            // the two assigned values
            assert(gf.advice_at(vcol, 0) == Some(v)) by {
                assert(l2.grid.advice_at(vcol, 0) == Some(v));
                assert(gf.advice_at(vcol, 0) == l2.grid.advice_at(vcol, 0));
            }
            assert(gf.advice_at(vcol, 1) == Some(lv));
            // the table is unchanged by the advice assignments
            assert(gf.fixed == l1.grid.fixed);
            assert forall|x: int|
                crate::checker::table_contains(gf, config.table.value, x) <==> (0 <= x
                    < config.table.n_values) by {
                if crate::checker::table_contains(gf, config.table.value, x) {
                    let tr = choose|tr: int|
                        0 <= tr < gf.n_rows && #[trigger] gf.fixed_at(
                            config.table.value.index as int,
                            tr,
                        ) == Some(x);
                    assert(l1.grid.fixed_at(config.table.value.index as int, tr) == Some(x));
                    assert(crate::checker::table_contains(l1.grid, config.table.value, x));
                }
                if 0 <= x < config.table.n_values {
                    assert(crate::checker::table_contains(l1.grid, config.table.value, x));
                    let tr = choose|tr: int|
                        0 <= tr < l1.grid.n_rows && #[trigger] l1.grid.fixed_at(
                            config.table.value.index as int,
                            tr,
                        ) == Some(x);
                    assert(gf.fixed_at(config.table.value.index as int, tr) == Some(x));
                }
            }
            // the direct gate vanishes everywhere iff the value is in range
            crate::range_check_direct::lemma_range_check_poly(v, config.range as nat);
            assert forall|rr: int|
                0 <= rr < gf.n_rows && rr != 0 implies #[trigger] gf.eval(
                (cs.gates@[0].constraints)@[0],
                rr,
            ) == Some(0int) by {
                assert(gf.eval((cs.gates@[0].constraints)@[0], rr) == config.direct().gate_eval(
                    gf,
                    rr,
                ));
                assert(!gf.selector_at(qrc, rr));
            }
            assert(gf.eval((cs.gates@[0].constraints)@[0], 0) == Some(
                crate::range_check_direct::range_check_poly(v, config.range as nat),
            )) by {
                assert(gf.eval((cs.gates@[0].constraints)@[0], 0) == config.direct().gate_eval(
                    gf,
                    0,
                ));
                assert(gf.selector_at(qrc, 0));
                assert(gf.query_at(config.value, 0) == Some(v));
            }
            if v < config.range {
                assert(crate::checker::gates_ok(cs, gf)) by {
                    assert forall|gi: int, ci: int, rr: int|
                        0 <= gi < cs.gates@.len() && 0 <= ci < (cs.gates@[gi].constraints)@.len()
                            && 0 <= rr < gf.n_rows implies
                        #[trigger] crate::checker::gate_constraint_ok(cs, gf, gi, ci, rr) by {
                        if rr != 0 {
                            assert(gf.eval((cs.gates@[0].constraints)@[0], rr) == Some(0int));
                        }
                    }
                }
            } else {
                assert(!crate::checker::gate_constraint_ok(cs, gf, 0, 0, 0));
                assert(!crate::checker::gates_ok(cs, gf));
            }
            // the lookup argument holds everywhere iff the value is in the table
            let le = cs.lookups@[0];
            assert(le.selector == config.q_lookup && le.table == config.table.value);
            assert(gf.eval(le.input, 1) == Some(lv)) by {
                assert(gf.eval(
                    Expression::Query(config.value, crate::columns::Rotation { offset: 0 }),
                    1,
                ) == gf.query_at(config.value, 1));
            }
            assert forall|rr: int|
                0 <= rr < gf.n_rows && rr != 1 implies #[trigger] crate::checker::lookup_row_ok(
                cs,
                gf,
                0,
                rr,
            ) by {
                assert(!gf.selector_at(ql, rr));
            }
            if lv < config.table.n_values {
                assert(crate::checker::lookups_ok(cs, gf)) by {
                    assert forall|li: int, rr: int|
                        0 <= li < cs.lookups@.len() && 0 <= rr < gf.n_rows implies
                        #[trigger] crate::checker::lookup_row_ok(cs, gf, li, rr) by {
                        if rr == 1 {
                            assert(crate::checker::table_contains(gf, config.table.value, lv));
                        }
                    }
                }
            } else {
                assert(!crate::checker::table_contains(gf, config.table.value, lv));
                assert(!crate::checker::lookup_row_ok(cs, gf, 0, 1));
                assert(!crate::checker::lookups_ok(cs, gf));
            }
            // no copy constraints are recorded
            assert(ly.copies.pairs@.len() == 0);
            assert(crate::copy::copies_ok(ly.copies.pairs@, gf));
        }
        Ok(())
    }
}

} // verus!
