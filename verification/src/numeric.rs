//! The multiplication chip: loads private values and a constant into a
//! two-column layout and multiplies under a gate of the form
//! `selector * (lhs * rhs - out)`, where `out` sits one row below `lhs`.
//!
//! The example circuit chains two multiplications to square a product and
//! then scales by the constant, binding the final cell to a public output.

use crate::columns::{Cell, Column, ColumnKind, Rotation, Selector};
use crate::errors::Error;
use crate::expression::Expression;
use crate::field::{fmul, fsub, p, Fp};
use crate::grid::Grid;
use crate::layouter::Layouter;
use crate::system::ConstraintSystem;
use vstd::prelude::*;

verus! {

/// The value the chained example computes: `k * (a*b) * (a*b)` in the
/// field, which equals `k * a^2 * b^2`.
pub open spec fn mul_chain(k: int, a: int, b: int) -> int {
    fmul(k, fmul(fmul(a, b), fmul(a, b)))
}

/// The chained product equals `k * a^2 * b^2` reduced into the field.
pub proof fn lemma_mul_chain(k: int, a: int, b: int)
    requires
        0 <= k < p(),
        0 <= a < p(),
        0 <= b < p(),
    ensures
        mul_chain(k, a, b) == (k * ((a * a) * (b * b))) % p(),
{
    let ab = a * b;
    assert(fmul(fmul(a, b), fmul(a, b)) == (ab * ab) % p()) by {
        vstd::arithmetic::div_mod::lemma_mul_mod_noop_general(ab, ab, p());
    }
    assert(fmul(k, (ab * ab) % p()) == (k * (ab * ab)) % p()) by {
        vstd::arithmetic::div_mod::lemma_mul_mod_noop_general(k, ab * ab, p());
    }
    assert(k * (ab * ab) == k * ((a * a) * (b * b))) by (nonlinear_arith)
        requires
            ab == a * b,
    ;
}

/// What the chip's single gate constraint evaluates to at a row: zero
/// where the selector is off, else the residual `lhs * rhs - out`, with
/// `out` one row below. An unassigned operand yields no value, except
/// under a factor known to be zero, mirroring concrete evaluation.
pub open spec fn mul_gate_eval(cfg: FieldConfig, g: Grid, r: int) -> Option<int> {
    if !g.selector_at(cfg.selector.index as int, r) {
        Some(0int)
    } else {
        let l = g.advice_at(cfg.advice0.index as int, r);
        let rr = g.advice_at(cfg.advice1.index as int, r);
        let o = g.advice_at(cfg.advice0.index as int, r + 1);
        let prod = match (l, rr) {
            (Some(x), Some(y)) => Some(fmul(x, y)),
            (Some(x), None) => if x == 0 {
                Some(0int)
            } else {
                None
            },
            (None, Some(y)) => if y == 0 {
                Some(0int)
            } else {
                None
            },
            _ => None,
        };
        match (prod, o) {
            (Some(pv), Some(ov)) => Some(fsub(pv, ov)),
            _ => None,
        }
    }
}

/// The system holds exactly the multiplication gate over `cfg`, and
/// nothing else.
pub open spec fn mul_configured(cs: ConstraintSystem, cfg: FieldConfig) -> bool {
    &&& cfg.valid(cs)
    &&& cs.gates@.len() == 1
    &&& (cs.gates@[0].constraints)@.len() == 1
    &&& cs.lookups@.len() == 0
    &&& forall|g: Grid, r: int|
        g.wf() ==> #[trigger] g.eval((cs.gates@[0].constraints)@[0], r) == mul_gate_eval(cfg, g, r)
}

/// The columns and selector of the multiplication chip.
#[derive(Clone, Copy, Debug, PartialEq, Eq, Structural)]
pub struct FieldConfig {
    pub advice0: Column,
    pub advice1: Column,
    pub instance: Column,
    pub selector: Selector,
}

impl FieldConfig {
    /// The handles are declared in the system and equality-enabled where
    /// copies are recorded.
    pub open spec fn valid(self, cs: ConstraintSystem) -> bool {
        &&& self.advice0.kind == ColumnKind::Advice && self.advice0.index < cs.n_advice
        &&& self.advice1.kind == ColumnKind::Advice && self.advice1.index < cs.n_advice
        &&& self.advice0.index != self.advice1.index
        &&& self.instance.kind == ColumnKind::Instance
        &&& self.selector.index < cs.n_selectors
        &&& cs.equality_ok(self.advice0)
        &&& cs.equality_ok(self.advice1)
        &&& cs.equality_ok(self.instance)
        &&& cs.constant_column is Some
        &&& match cs.constant_column {
            Some(cc) => cs.equality_ok(cc),
            None => false,
        }
    }
}

/// The multiplication chip.
pub struct FieldChip {
    pub config: FieldConfig,
}

impl FieldChip {
    /// Wraps a configuration.
    pub fn construct(config: FieldConfig) -> (chip: FieldChip)
        ensures
            chip.config == config,
    {
        FieldChip { config }
    }

    /// The chip's configuration.
    pub fn config(&self) -> (cfg: &FieldConfig)
        ensures
            cfg == self.config,
    {
        &self.config
    }

    /// Enables equality on the given columns, designates the constant
    /// column, and registers a gate `selector * (lhs * rhs - out)` with
    /// `out` one row below `lhs`.
    pub fn configure(
        meta: &mut ConstraintSystem,
        advice0: Column,
        advice1: Column,
        instance: Column,
        constant: Column,
    ) -> (cfg: FieldConfig)
        requires
            old(meta).wf(),
            old(meta).n_selectors < 0x40,
            old(meta).gates@.len() == 0,
            old(meta).lookups@.len() == 0,
            advice0.kind == ColumnKind::Advice && advice0.index < old(meta).n_advice,
            advice1.kind == ColumnKind::Advice && advice1.index < old(meta).n_advice,
            advice0.index != advice1.index,
            instance.kind == ColumnKind::Instance,
            constant.kind == ColumnKind::Fixed && constant.index < old(meta).n_fixed,
        ensures
            final(meta).wf(),
            cfg.valid(*final(meta)),
            mul_configured(*final(meta), cfg),
            cfg == (FieldConfig {
                advice0,
                advice1,
                instance,
                selector: Selector { index: old(meta).n_selectors },
            }),
    {
        meta.enable_equality(instance);
        meta.enable_constant(constant);
        meta.enable_equality(advice0);
        meta.enable_equality(advice1);
        let selector = meta.selector();

        let lhs = Expression::query(advice0, Rotation::cur());
        let rhs = Expression::query(advice1, Rotation::cur());
        let out = Expression::query(advice0, Rotation::next());
        let s = Expression::query_selector(selector);
        let constraint = s.mul(lhs.mul(rhs).sub(out));
        proof {
            assert(constraint.wf()) by {
                reveal_with_fuel(Expression::wf, 6);
            }
        }
        let mut constraints: Vec<Expression> = Vec::new();
        constraints.push(constraint);
        meta.create_gate("mul", selector, constraints);
        let cfg = FieldConfig { advice0, advice1, instance, selector };
        proof {
            let e = (meta.gates@[0].constraints)@[0];
            assert forall|g: Grid, r: int| g.wf() implies #[trigger] g.eval(e, r) == mul_gate_eval(
                cfg,
                g,
                r,
            ) by {
                lemma_mul_gate_eval(cfg, g, r, e);
            }
        }
        cfg
    }

    /// Loads a private value into a fresh region's first advice column.
    pub fn load_private(&self, ly: &mut Layouter, value: Fp) -> (r: Result<Cell, Error>)
        requires
            old(ly).wf(),
            self.config.valid(old(ly).cs),
            value.wf(),
            old(ly).next_row < old(ly).grid.n_rows,
            forall|c2: int, r2: int|
                r2 >= old(ly).next_row ==> #[trigger] old(ly).grid.advice_at(c2, r2) is None,
        ensures
            r is Ok,
            final(ly).wf(),
            Layouter::same_shape(*old(ly), *final(ly)),
            final(ly).next_row == old(ly).next_row + 1,
            r matches Ok(cell) ==> ({
                &&& cell == Cell { column: self.config.advice0, row: old(ly).next_row }
                &&& final(ly).grid.cell_value(cell) == Some(value.val())
            }),
            forall|c2: int, r2: int|
                r2 >= final(ly).next_row ==> #[trigger] final(ly).grid.advice_at(c2, r2) is None,
            final(ly).grid.fixed == old(ly).grid.fixed,
            final(ly).grid.selectors == old(ly).grid.selectors,
            final(ly).copies == old(ly).copies,
            final(ly).next_constant_row == old(ly).next_constant_row,
            forall|cell2: Cell|
                old(ly).grid.cell_value(cell2) is Some ==> #[trigger] final(ly).grid.cell_value(
                    cell2,
                ) == old(ly).grid.cell_value(cell2),
    {
        let cfg = self.config;
        let row = ly.assign_region("load private", 1)?;
        proof {
            assert(old(ly).grid.advice_at(cfg.advice0.index as int, row as int) is None);
        }
        let cell = ly.assign_advice(cfg.advice0, row, value)?;
        proof {
            assert forall|c2: int, r2: int| r2 >= ly.next_row implies #[trigger] ly.grid.advice_at(
                c2,
                r2,
            ) is None by {
                assert(ly.grid.advice_at(c2, r2) == old(ly).grid.advice_at(c2, r2));
            }
            crate::copy::lemma_advice_write_preserves(
                old(ly).grid,
                ly.grid,
                cfg.advice0.index as int,
                row as int,
            );
        }
        Ok(cell)
    }

    /// Loads a constant into a fresh region, bound by a copy constraint to
    /// the constant column.
    pub fn load_constant(&self, ly: &mut Layouter, constant: Fp) -> (r: Result<Cell, Error>)
        requires
            old(ly).wf(),
            self.config.valid(old(ly).cs),
            constant.wf(),
            old(ly).next_row < old(ly).grid.n_rows,
            old(ly).next_constant_row < old(ly).grid.n_rows,
            forall|c2: int, r2: int|
                r2 >= old(ly).next_row ==> #[trigger] old(ly).grid.advice_at(c2, r2) is None,
            match old(ly).cs.constant_column {
                Some(cc) => old(ly).grid.fixed_at(
                    cc.index as int,
                    old(ly).next_constant_row as int,
                ) is None,
                None => false,
            },
        ensures
            r is Ok,
            final(ly).wf(),
            Layouter::same_shape(*old(ly), *final(ly)),
            final(ly).next_row == old(ly).next_row + 1,
            final(ly).next_constant_row == old(ly).next_constant_row + 1,
            r matches Ok(cell) ==> ({
                &&& cell == Cell { column: self.config.advice0, row: old(ly).next_row }
                &&& final(ly).grid.cell_value(cell) == Some(constant.val())
                &&& old(ly).cs.constant_column matches Some(cc) && ({
                    &&& final(ly).grid.fixed_at(
                        cc.index as int,
                        old(ly).next_constant_row as int,
                    ) == Some(constant.val())
                    &&& crate::copy::pair_recorded(
                        final(ly).copies.pairs@,
                        cell,
                        Cell { column: cc, row: old(ly).next_constant_row },
                    )
                })
            }),
            forall|c2: int, r2: int|
                r2 >= final(ly).next_row ==> #[trigger] final(ly).grid.advice_at(c2, r2) is None,
            final(ly).grid.selectors == old(ly).grid.selectors,
            forall|cell2: Cell|
                old(ly).grid.cell_value(cell2) is Some ==> #[trigger] final(ly).grid.cell_value(
                    cell2,
                ) == old(ly).grid.cell_value(cell2),
            crate::copy::copies_ok(old(ly).copies.pairs@, old(ly).grid)
                && crate::copy::copies_assigned(old(ly).copies.pairs@, old(ly).grid)
                ==> crate::copy::copies_ok(final(ly).copies.pairs@, final(ly).grid)
                && crate::copy::copies_assigned(final(ly).copies.pairs@, final(ly).grid),
    {
        let cfg = self.config;
        let row = ly.assign_region("load constant", 1)?;
        proof {
            assert(old(ly).grid.advice_at(cfg.advice0.index as int, row as int) is None);
        }
        let ghost g0 = ly.grid;
        let ghost pairs0 = ly.copies.pairs@;
        let cell = ly.assign_advice_from_constant(cfg.advice0, row, constant)?;
        proof {
            assert forall|c2: int, r2: int| r2 >= ly.next_row implies #[trigger] ly.grid.advice_at(
                c2,
                r2,
            ) is None by {
                assert(ly.grid.advice_at(c2, r2) == old(ly).grid.advice_at(c2, r2));
            }
            assert forall|cell2: Cell| old(ly).grid.cell_value(cell2) is Some implies
                #[trigger] ly.grid.cell_value(cell2) == old(ly).grid.cell_value(cell2) by {
                match cell2.column.kind {
                    ColumnKind::Advice => {
                        assert(!(cell2.column.index == cfg.advice0.index && cell2.row == row));
                    },
                    ColumnKind::Fixed => {
                        match old(ly).cs.constant_column {
                            Some(cc) => {
                                assert(!(cell2.column.index == cc.index && cell2.row == old(ly).next_constant_row));
                            },
                            None => {},
                        }
                    },
                    ColumnKind::Instance => {},
                }
            }
            if crate::copy::copies_ok(pairs0, g0) && crate::copy::copies_assigned(pairs0, g0) {
                crate::copy::lemma_copies_preserved(pairs0, g0, ly.grid);
                match old(ly).cs.constant_column {
                    Some(cc) => {
                        let fcell = Cell { column: cc, row: old(ly).next_constant_row };
                        if ly.copies.pairs@ != pairs0 {
                            assert(ly.copies.pairs@ == pairs0.push((cell, fcell)));
                            crate::copy::lemma_copies_ok_push(pairs0, (cell, fcell), ly.grid);
                            crate::copy::lemma_copies_assigned_push(
                                pairs0,
                                (cell, fcell),
                                ly.grid,
                            );
                        }
                    },
                    None => {},
                }
            }
        }
        Ok(cell)
    }

    /// Multiplies the values of two assigned cells in a fresh two-row
    /// region: copies them into that gate's input cells and assigns the
    /// product below.
    pub fn mul(&self, ly: &mut Layouter, a: Cell, b: Cell) -> (r: Result<Cell, Error>)
        requires
            old(ly).wf(),
            self.config.valid(old(ly).cs),
            old(ly).next_row + 2 <= old(ly).grid.n_rows,
            old(ly).grid.cell_value(a) is Some,
            old(ly).grid.cell_value(b) is Some,
            old(ly).cs.equality_ok(a.column),
            old(ly).cs.equality_ok(b.column),
            forall|c2: int, r2: int|
                r2 >= old(ly).next_row ==> #[trigger] old(ly).grid.advice_at(c2, r2) is None,
        ensures
            r is Ok,
            final(ly).wf(),
            Layouter::same_shape(*old(ly), *final(ly)),
            final(ly).next_row == old(ly).next_row + 2,
            final(ly).next_constant_row == old(ly).next_constant_row,
            r matches Ok(cell) ==> ({
                let va = old(ly).grid.cell_value(a)->Some_0;
                let vb = old(ly).grid.cell_value(b)->Some_0;
                let row = old(ly).next_row as int;
                &&& cell == Cell { column: self.config.advice0, row: (old(ly).next_row + 1) as usize }
                &&& final(ly).grid.cell_value(cell) == Some(fmul(va, vb))
                &&& final(ly).grid.advice_at(self.config.advice0.index as int, row) == Some(va)
                &&& final(ly).grid.advice_at(self.config.advice1.index as int, row) == Some(vb)
                &&& final(ly).grid.advice_at(self.config.advice0.index as int, row + 1) == Some(
                    fmul(va, vb),
                )
                &&& final(ly).grid.selector_at(self.config.selector.index as int, row)
                &&& forall|s2: int, r2: int|
                    !(s2 == self.config.selector.index && r2 == row) ==> #[trigger] final(ly).grid.selector_at(s2, r2) == old(ly).grid.selector_at(s2, r2)
                &&& crate::copy::pair_recorded(
                    final(ly).copies.pairs@,
                    a,
                    Cell { column: self.config.advice0, row: old(ly).next_row },
                )
                &&& crate::copy::pair_recorded(
                    final(ly).copies.pairs@,
                    b,
                    Cell { column: self.config.advice1, row: old(ly).next_row },
                )
                &&& (crate::copy::copies_ok(old(ly).copies.pairs@, old(ly).grid)
                    && crate::copy::copies_assigned(old(ly).copies.pairs@, old(ly).grid)
                    ==> crate::copy::copies_ok(final(ly).copies.pairs@, final(ly).grid)
                    && crate::copy::copies_assigned(final(ly).copies.pairs@, final(ly).grid))
            }),
            forall|c2: int, r2: int|
                r2 >= final(ly).next_row ==> #[trigger] final(ly).grid.advice_at(c2, r2) is None,
            final(ly).grid.fixed == old(ly).grid.fixed,
            forall|cell2: Cell|
                old(ly).grid.cell_value(cell2) is Some ==> #[trigger] final(ly).grid.cell_value(
                    cell2,
                ) == old(ly).grid.cell_value(cell2),
    {
        let cfg = self.config;
        proof {
            crate::grid::lemma_query_in_range(old(ly).grid, a.column, a.row as int);
            crate::grid::lemma_query_in_range(old(ly).grid, b.column, b.row as int);
        }
        let row = ly.assign_region("mul", 2)?;
        ly.enable_selector(cfg.selector, row)?;
        let ghost g0 = ly.grid;
        proof {
            assert forall|c2: int, r2: int| r2 >= row implies #[trigger] g0.advice_at(c2, r2)
                is None by {
                assert(old(ly).grid.advice_at(c2, r2) is None);
            }
        }
        let ghost pairs0 = ly.copies.pairs@;
        let lhs = ly.copy_advice(a, cfg.advice0, row)?;
        let ghost g1 = ly.grid;
        let ghost pairs1 = ly.copies.pairs@;
        proof {
            crate::copy::lemma_advice_write_preserves(g0, g1, cfg.advice0.index as int, row as int);
            assert forall|c2: int, r2: int| r2 >= row + 1 implies #[trigger] g1.advice_at(c2, r2)
                is None by {
                assert(g1.advice_at(c2, r2) == g0.advice_at(c2, r2));
            }
            assert(g1.advice_at(cfg.advice1.index as int, row as int) == g0.advice_at(
                cfg.advice1.index as int,
                row as int,
            ));
        }
        let rhs = ly.copy_advice(b, cfg.advice1, row)?;
        let ghost g2 = ly.grid;
        let ghost pairs2 = ly.copies.pairs@;
        proof {
            crate::copy::lemma_advice_write_preserves(g1, g2, cfg.advice1.index as int, row as int);
            assert forall|c2: int, r2: int| r2 >= row + 1 implies #[trigger] g2.advice_at(c2, r2)
                is None by {
                assert(g2.advice_at(c2, r2) == g1.advice_at(c2, r2));
            }
        }
        let va = match ly.grid.get_advice(cfg.advice0.index, row) {
            Some(v) => v,
            None => {
                return Err(Error::AssignmentError);
            },
        };
        let vb = match ly.grid.get_advice(cfg.advice1.index, row) {
            Some(v) => v,
            None => {
                return Err(Error::AssignmentError);
            },
        };
        let out = ly.assign_advice(cfg.advice0, row + 1, va.mul(vb))?;
        proof {
            let g3 = ly.grid;
            crate::copy::lemma_advice_write_preserves(
                g2,
                g3,
                cfg.advice0.index as int,
                row as int + 1,
            );
            assert forall|c2: int, r2: int| r2 >= ly.next_row implies #[trigger] g3.advice_at(
                c2,
                r2,
            ) is None by {
                assert(g3.advice_at(c2, r2) == g2.advice_at(c2, r2));
                assert(g2.advice_at(c2, r2) == g1.advice_at(c2, r2));
                assert(g1.advice_at(c2, r2) == g0.advice_at(c2, r2));
            }
            assert forall|cell2: Cell| old(ly).grid.cell_value(cell2) is Some implies
                #[trigger] g3.cell_value(cell2) == old(ly).grid.cell_value(cell2) by {
                assert(g0.cell_value(cell2) == old(ly).grid.cell_value(cell2));
                assert(g1.cell_value(cell2) == g0.cell_value(cell2));
                assert(g2.cell_value(cell2) == g1.cell_value(cell2));
                assert(g3.cell_value(cell2) == g2.cell_value(cell2));
            }
            assert(g2.cell_value(a) == old(ly).grid.cell_value(a));
            assert(g2.cell_value(b) == old(ly).grid.cell_value(b));
            assert(g1.cell_value(a) == g0.cell_value(a));
            assert forall|s2: int, r2: int|
                !(s2 == cfg.selector.index && r2 == row) implies #[trigger] g3.selector_at(s2, r2)
                == old(ly).grid.selector_at(s2, r2) by {
                assert(g3.selector_at(s2, r2) == g0.selector_at(s2, r2));
                assert(g0.selector_at(s2, r2) == old(ly).grid.selector_at(s2, r2));
            }
            assert(g3.selector_at(cfg.selector.index as int, row as int) == g0.selector_at(
                cfg.selector.index as int,
                row as int,
            ));
            assert(g3.advice_at(cfg.advice0.index as int, row as int) == g2.advice_at(
                cfg.advice0.index as int,
                row as int,
            ));
            assert(g2.advice_at(cfg.advice0.index as int, row as int) == g1.advice_at(
                cfg.advice0.index as int,
                row as int,
            ));
            assert(g3.advice_at(cfg.advice1.index as int, row as int) == g2.advice_at(
                cfg.advice1.index as int,
                row as int,
            ));
            assert(crate::copy::pair_recorded(pairs1, a, lhs));
            if pairs2 != pairs1 {
                assert(pairs2 == pairs1.push((b, rhs)));
            }
            crate::copy::lemma_pair_recorded_monotone(pairs1, pairs2, a, lhs);
            assert(crate::copy::pair_recorded(pairs2, b, rhs));
            assert(ly.copies.pairs@ == pairs2);
            if crate::copy::copies_ok(pairs0, g0) && crate::copy::copies_assigned(pairs0, g0) {
                crate::copy::lemma_copies_preserved(pairs0, g0, g1);
                if pairs1 == pairs0.push((a, lhs)) {
                    crate::copy::lemma_copies_ok_push(pairs0, (a, lhs), g1);
                    crate::copy::lemma_copies_assigned_push(pairs0, (a, lhs), g1);
                }
                assert(crate::copy::copies_ok(pairs1, g1) && crate::copy::copies_assigned(
                    pairs1,
                    g1,
                ));
                crate::copy::lemma_copies_preserved(pairs1, g1, g2);
                if pairs2 == pairs1.push((b, rhs)) {
                    crate::copy::lemma_copies_ok_push(pairs1, (b, rhs), g2);
                    crate::copy::lemma_copies_assigned_push(pairs1, (b, rhs), g2);
                }
                assert(crate::copy::copies_ok(pairs2, g2) && crate::copy::copies_assigned(
                    pairs2,
                    g2,
                ));
                crate::copy::lemma_copies_preserved(pairs2, g2, g3);
            }
        }
        Ok(out)
    }

    /// Binds an assigned cell to a public input: the terminal equality
    /// constraint that exposes an output.
    pub fn expose_public(&self, ly: &mut Layouter, cell: Cell, row: usize) -> (r: Result<
        (),
        Error,
    >)
        requires
            old(ly).wf(),
            self.config.valid(old(ly).cs),
            old(ly).grid.instance_at(self.config.instance.index as int, row as int) is Some,
            old(ly).grid.cell_value(cell) is Some,
            old(ly).cs.equality_ok(cell.column),
        ensures
            r is Ok,
            final(ly).wf(),
            Layouter::same_shape(*old(ly), *final(ly)),
            final(ly).grid == old(ly).grid,
            final(ly).next_row == old(ly).next_row,
            final(ly).next_constant_row == old(ly).next_constant_row,
            r is Ok ==> ({
                let icell = Cell { column: self.config.instance, row };
                &&& (crate::copy::copies_ok(final(ly).copies.pairs@, final(ly).grid)
                    <==> (crate::copy::copies_ok(old(ly).copies.pairs@, old(ly).grid)
                    && crate::copy::pair_agrees(old(ly).grid, cell, icell)))
                &&& (crate::copy::copies_assigned(old(ly).copies.pairs@, old(ly).grid)
                    ==> crate::copy::copies_assigned(final(ly).copies.pairs@, final(ly).grid))
            }),
    {
        let _ = ly.constrain_instance(cell, self.config.instance, row)?;
        proof {
            let icell = Cell { column: self.config.instance, row };
            if ly.copies.pairs@ == old(ly).copies.pairs@.push((cell, icell)) {
                crate::copy::lemma_copies_ok_push(old(ly).copies.pairs@, (cell, icell), ly.grid);
                if crate::copy::copies_assigned(old(ly).copies.pairs@, old(ly).grid) {
                    crate::copy::lemma_copies_assigned_push(
                        old(ly).copies.pairs@,
                        (cell, icell),
                        ly.grid,
                    );
                }
            } else {
                assert(crate::copy::pair_recorded(old(ly).copies.pairs@, cell, icell));
                if crate::copy::copies_ok(old(ly).copies.pairs@, old(ly).grid) {
                    if old(ly).copies.pairs@.contains((cell, icell)) {
                        let i = choose|i: int|
                            0 <= i < old(ly).copies.pairs@.len() && old(ly).copies.pairs@[i] == (
                            cell,
                            icell,
                            );
                        assert(crate::copy::pair_agrees(old(ly).grid, cell, icell));
                    } else {
                        let i = choose|i: int|
                            0 <= i < old(ly).copies.pairs@.len() && old(ly).copies.pairs@[i] == (
                            icell,
                            cell,
                            );
                        assert(crate::copy::pair_agrees(old(ly).grid, icell, cell));
                    }
                }
            }
        }
        Ok(())
    }
}

/// Evaluating the constructed gate expression agrees with
/// `mul_gate_eval`; unfolded bottom-up, one operator at a time.
proof fn lemma_mul_gate_eval(cfg: FieldConfig, g: Grid, r: int, e: Expression)
    requires
        g.wf(),
        cfg.advice0.kind == ColumnKind::Advice,
        cfg.advice1.kind == ColumnKind::Advice,
        e == Expression::Product(
            Box::new(Expression::SelectorQuery(cfg.selector)),
            Box::new(
                Expression::Difference(
                    Box::new(
                        Expression::Product(
                            Box::new(Expression::Query(cfg.advice0, Rotation { offset: 0 })),
                            Box::new(Expression::Query(cfg.advice1, Rotation { offset: 0 })),
                        ),
                    ),
                    Box::new(Expression::Query(cfg.advice0, Rotation { offset: 1 })),
                ),
            ),
        ),
    ensures
        g.eval(e, r) == mul_gate_eval(cfg, g, r),
{
    let ql = Expression::Query(cfg.advice0, Rotation { offset: 0 });
    let qr = Expression::Query(cfg.advice1, Rotation { offset: 0 });
    let qo = Expression::Query(cfg.advice0, Rotation { offset: 1 });
    let se = Expression::SelectorQuery(cfg.selector);
    let prod = Expression::Product(Box::new(ql), Box::new(qr));
    let dif = Expression::Difference(Box::new(prod), Box::new(qo));
    crate::grid::lemma_query_in_range(g, cfg.advice0, r);
    crate::grid::lemma_query_in_range(g, cfg.advice1, r);
    crate::grid::lemma_query_in_range(g, cfg.advice0, r + 1);
    assert(g.eval(ql, r) == g.query_at(cfg.advice0, r));
    assert(g.eval(qr, r) == g.query_at(cfg.advice1, r));
    assert(g.eval(qo, r) == g.query_at(cfg.advice0, r + 1));
    assert(g.eval(se, r) == Some(
        if g.selector_at(cfg.selector.index as int, r) {
            1int
        } else {
            0int
        },
    ));
    let l = g.advice_at(cfg.advice0.index as int, r);
    let rr = g.advice_at(cfg.advice1.index as int, r);
    match (l, rr) {
        (Some(x), Some(y)) => {
            assert(fmul(0, y) == 0 && fmul(x, 0) == 0) by {
                assert(0 * y == 0 && x * 0 == 0) by (nonlinear_arith);
                vstd::arithmetic::div_mod::lemma_small_mod(0, p() as nat);
            }
            assert(g.eval(prod, r) == Some(fmul(x, y)));
        },
        _ => {
            assert(g.eval(prod, r) == (match (l, rr) {
                (Some(x), None) => if x == 0 {
                    Some(0int)
                } else {
                    None
                },
                (None, Some(y)) => if y == 0 {
                    Some(0int)
                } else {
                    None
                },
                _ => None::<int>,
            }));
        },
    }
    assert(g.eval(dif, r) == (match (g.eval(prod, r), g.eval(qo, r)) {
        (Some(pv), Some(ov)) => Some(fsub(pv, ov)),
        _ => None::<int>,
    }));
    if g.selector_at(cfg.selector.index as int, r) {
        match g.eval(dif, r) {
            Some(d) => {
                assert(0 <= d < p()) by {
                    match (g.eval(prod, r), g.eval(qo, r)) {
                        (Some(pv), Some(ov)) => {
                            vstd::arithmetic::div_mod::lemma_mod_bound(pv - ov, p());
                        },
                        _ => {},
                    }
                }
                if d == 0 {
                    assert(g.eval(e, r) == Some(0int));
                } else {
                    assert(g.eval(e, r) == Some(fmul(1, d)));
                    assert(fmul(1, d) == d) by {
                        vstd::arithmetic::div_mod::lemma_small_mod(d as nat, p() as nat);
                    }
                }
            },
            None => {
                assert(g.eval(e, r) is None);
            },
        }
    } else {
        assert(g.eval(e, r) == Some(0int));
    }
}

/// The example circuit: loads two private values and a constant, chains
/// two multiplications to square the product, scales by the constant, and
/// binds the result to the public output.
pub struct NumericCircuit {
    pub constant: Fp,
    pub a: Fp,
    pub b: Fp,
}

impl NumericCircuit {
    /// Populates a fresh grid with the multiplication chain.
    ///
    /// Multiplication-chain correctness: the populated grid satisfies the
    /// registered system exactly when the public output equals
    /// `constant * a^2 * b^2` in the field.
    pub fn synthesize(&self, config: FieldConfig, ly: &mut Layouter) -> (r: Result<(), Error>)
        requires
            old(ly).wf(),
            mul_configured(old(ly).cs, config),
            self.constant.wf(),
            self.a.wf(),
            self.b.wf(),
            old(ly).next_row == 0,
            old(ly).next_constant_row == 0,
            forall|c2: int, r2: int| #[trigger] old(ly).grid.advice_at(c2, r2) is None,
            forall|c2: int, r2: int| #[trigger] old(ly).grid.fixed_at(c2, r2) is None,
            forall|s2: int, r2: int| !(#[trigger] old(ly).grid.selector_at(s2, r2)),
            old(ly).copies.pairs@.len() == 0,
            old(ly).grid.instance_at(config.instance.index as int, 0) is Some,
            9 <= old(ly).grid.n_rows,
        ensures
            r is Ok,
            final(ly).wf(),
            Layouter::same_shape(*old(ly), *final(ly)),
            r is Ok ==> (crate::checker::satisfies(*final(ly)) <==> old(ly).grid.instance_at(
                config.instance.index as int,
                0,
            ) == Some(mul_chain(self.constant.val(), self.a.val(), self.b.val()))),
    {
        let chip = FieldChip::construct(config);
        let ghost kc = self.constant.val();
        let ghost av = self.a.val();
        let ghost bv = self.b.val();
        let a_cell = chip.load_private(ly, self.a)?;
        let ghost l1 = *ly;
        let b_cell = chip.load_private(ly, self.b)?;
        let ghost l2 = *ly;
        proof {
            match ly.cs.constant_column {
                Some(cc) => {
                    assert(ly.grid.fixed_at(cc.index as int, 0) == old(ly).grid.fixed_at(
                        cc.index as int,
                        0,
                    ));
                },
                None => {},
            }
        }
        let k_cell = chip.load_constant(ly, self.constant)?;
        let ghost l3 = *ly;
        proof {
            assert(l3.grid.cell_value(a_cell) == Some(av));
            assert(l3.grid.cell_value(b_cell) == Some(bv));
            assert(l3.grid.cell_value(k_cell) == Some(kc));
            assert(crate::copy::copies_ok(l3.copies.pairs@, l3.grid) && crate::copy::copies_assigned(
                l3.copies.pairs@,
                l3.grid,
            ));
        }
        let ab = chip.mul(ly, a_cell, b_cell)?;
        let ghost l4 = *ly;
        let ab_sq = chip.mul(ly, ab, ab)?;
        let ghost l5 = *ly;
        let c_cell = chip.mul(ly, k_cell, ab_sq)?;
        let ghost l6 = *ly;
        proof {
            assert(l4.grid.cell_value(ab) == Some(fmul(av, bv)));
            assert(l5.grid.cell_value(ab) == Some(fmul(av, bv)));
            assert(l5.grid.cell_value(ab_sq) == Some(fmul(fmul(av, bv), fmul(av, bv))));
            assert(l5.grid.cell_value(k_cell) == Some(kc));
            assert(l6.grid.cell_value(c_cell) == Some(mul_chain(kc, av, bv)));
        }
        chip.expose_public(ly, c_cell, 0)?;
        proof {
            let gf = ly.grid;
            let cs = ly.cs;
            let sel = config.selector.index as int;
            assert(gf == l6.grid);
            // selectors: enabled exactly at the three multiplication rows
            assert forall|s2: int, r2: int|
                #[trigger] gf.selector_at(s2, r2) <==> (s2 == sel && (r2 == 3 || r2 == 5 || r2
                    == 7)) by {
                if !(s2 == sel && (r2 == 3 || r2 == 5 || r2 == 7)) {
                    assert(l6.grid.selector_at(s2, r2) == l5.grid.selector_at(s2, r2));
                    assert(l5.grid.selector_at(s2, r2) == l4.grid.selector_at(s2, r2));
                    assert(l4.grid.selector_at(s2, r2) == l3.grid.selector_at(s2, r2));
                    assert(l3.grid.selector_at(s2, r2) == old(ly).grid.selector_at(s2, r2));
                } else if r2 == 3 {
                    assert(l4.grid.selector_at(sel, 3));
                    assert(l5.grid.selector_at(s2, r2) == l4.grid.selector_at(s2, r2));
                    assert(l6.grid.selector_at(s2, r2) == l5.grid.selector_at(s2, r2));
                } else if r2 == 5 {
                    assert(l5.grid.selector_at(sel, 5));
                    assert(l6.grid.selector_at(s2, r2) == l5.grid.selector_at(s2, r2));
                } else {
                    assert(l6.grid.selector_at(sel, 7));
                }
            }
            // the three product rows carry factor, factor, product
            assert(l6.grid.cell_value(Cell { column: config.advice0, row: 3 }) == Some(av) && l6
                .grid.cell_value(Cell { column: config.advice1, row: 3 }) == Some(bv) && l6
                .grid.cell_value(Cell { column: config.advice0, row: 4 }) == Some(fmul(av, bv)))
                by {
                assert(l4.grid.advice_at(config.advice0.index as int, 3) == Some(av));
                assert(l4.grid.advice_at(config.advice1.index as int, 3) == Some(bv));
                assert(l4.grid.advice_at(config.advice0.index as int, 4) == Some(fmul(av, bv)));
                assert(l5.grid.cell_value(Cell { column: config.advice0, row: 3 }) == l4
                    .grid.cell_value(Cell { column: config.advice0, row: 3 }));
                assert(l5.grid.cell_value(Cell { column: config.advice1, row: 3 }) == l4
                    .grid.cell_value(Cell { column: config.advice1, row: 3 }));
                assert(l5.grid.cell_value(Cell { column: config.advice0, row: 4 }) == l4
                    .grid.cell_value(Cell { column: config.advice0, row: 4 }));
                assert(l6.grid.cell_value(Cell { column: config.advice0, row: 3 }) == l5
                    .grid.cell_value(Cell { column: config.advice0, row: 3 }));
                assert(l6.grid.cell_value(Cell { column: config.advice1, row: 3 }) == l5
                    .grid.cell_value(Cell { column: config.advice1, row: 3 }));
                assert(l6.grid.cell_value(Cell { column: config.advice0, row: 4 }) == l5
                    .grid.cell_value(Cell { column: config.advice0, row: 4 }));
            }
            let sq = fmul(fmul(av, bv), fmul(av, bv));
            assert(l6.grid.cell_value(Cell { column: config.advice0, row: 5 }) == Some(
                fmul(av, bv),
            ) && l6.grid.cell_value(Cell { column: config.advice1, row: 5 }) == Some(fmul(av, bv))
                && l6.grid.cell_value(Cell { column: config.advice0, row: 6 }) == Some(sq)) by {
                assert(l5.grid.advice_at(config.advice0.index as int, 5) == Some(fmul(av, bv)));
                assert(l5.grid.advice_at(config.advice1.index as int, 5) == Some(fmul(av, bv)));
                assert(l5.grid.advice_at(config.advice0.index as int, 6) == Some(sq));
                assert(l6.grid.cell_value(Cell { column: config.advice0, row: 5 }) == l5
                    .grid.cell_value(Cell { column: config.advice0, row: 5 }));
                assert(l6.grid.cell_value(Cell { column: config.advice1, row: 5 }) == l5
                    .grid.cell_value(Cell { column: config.advice1, row: 5 }));
                assert(l6.grid.cell_value(Cell { column: config.advice0, row: 6 }) == l5
                    .grid.cell_value(Cell { column: config.advice0, row: 6 }));
            }
            assert(l6.grid.advice_at(config.advice0.index as int, 7) == Some(kc));
            assert(l6.grid.advice_at(config.advice1.index as int, 7) == Some(sq));
            assert(l6.grid.advice_at(config.advice0.index as int, 8) == Some(mul_chain(kc, av, bv)));
            // every gate constraint vanishes at every row
            assert(crate::checker::gates_ok(cs, gf)) by {
                assert forall|gi: int, ci: int, rr: int|
                    0 <= gi < cs.gates@.len() && 0 <= ci < (cs.gates@[gi].constraints)@.len() && 0
                        <= rr < gf.n_rows implies #[trigger] crate::checker::gate_constraint_ok(
                    cs,
                    gf,
                    gi,
                    ci,
                    rr,
                ) by {
                    assert(gf.eval((cs.gates@[0].constraints)@[0], rr) == mul_gate_eval(
                        config,
                        gf,
                        rr,
                    ));
                    if gf.selector_at(sel, rr) {
                        assert(rr == 3 || rr == 5 || rr == 7);
                        let l = gf.advice_at(config.advice0.index as int, rr)->Some_0;
                        let rrr = gf.advice_at(config.advice1.index as int, rr)->Some_0;
                        let o = gf.advice_at(config.advice0.index as int, rr + 1)->Some_0;
                        assert(o == fmul(l, rrr));
                        assert(fsub(fmul(l, rrr), o) == 0) by {
                            vstd::arithmetic::div_mod::lemma_small_mod(0, p() as nat);
                        }
                    }
                }
            }
            assert(crate::checker::lookups_ok(cs, gf));
            // the copy log agrees except possibly at the terminal binding
            assert(crate::copy::copies_ok(l6.copies.pairs@, l6.grid) && crate::copy::copies_assigned(
                l6.copies.pairs@,
                l6.grid,
            ));
            let icell = Cell { column: config.instance, row: 0 };
            let out = old(ly).grid.instance_at(config.instance.index as int, 0);
            assert(gf.cell_value(icell) == out);
            if crate::copy::copies_ok(ly.copies.pairs@, gf) {
                assert(crate::copy::pair_agrees(l6.grid, c_cell, icell));
                assert(out == Some(mul_chain(kc, av, bv)));
            }
            if out == Some(mul_chain(kc, av, bv)) {
                assert(crate::copy::pair_agrees(l6.grid, c_cell, icell));
            }
        }
        Ok(())
    }
}

} // verus!
