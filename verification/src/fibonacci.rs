//! The recurrence chip: an additive recurrence over a three-column layout.
//!
//! The first region loads two public inputs into columns `a` and `b` of row
//! 0 and computes `c = a + b` under a gate `selector * (a + b - c)`; each
//! later region copies the previous row's `b` and `c` into the new row's
//! `a` and `b` and computes a new `c`. The final `c` is bound to a public
//! output by a terminal equality constraint against the instance column.
//!
//! The satisfaction theorem is part of `FibonacciCircuit::synthesize`'s
//! contract: the populated grid satisfies the registered system exactly
//! when the third public input equals the recurrence value.

use crate::columns::{Cell, Column, ColumnKind, Rotation, Selector};
use crate::copy::{
    copies_assigned, copies_ok, lemma_advice_write_preserves, lemma_copies_ok_push,
    lemma_copies_preserved, pair_agrees,
};
use crate::errors::Error;
use crate::expression::Expression;
use crate::field::{fadd, fsub, p, Fp};
use crate::grid::Grid;
use crate::layouter::Layouter;
use crate::system::ConstraintSystem;
use vstd::prelude::*;

verus! {

/// The value of the additive recurrence seeded by `a`, `b` at index `i`.
pub open spec fn fib_val(a: int, b: int, i: nat) -> int
    decreases i,
{
    if i == 0 {
        a
    } else if i == 1 {
        b
    } else {
        fadd(fib_val(a, b, (i - 2) as nat), fib_val(a, b, (i - 1) as nat))
    }
}

/// The columns and selector of the recurrence chip.
#[derive(Clone, Copy, Debug, PartialEq, Eq, Structural)]
pub struct FibonacciConfig {
    pub col_a: Column,
    pub col_b: Column,
    pub col_c: Column,
    pub instance: Column,
    pub selector: Selector,
}

impl FibonacciConfig {
    /// The handles are declared in the system, pairwise distinct where they
    /// must be, and equality-enabled where copies are recorded.
    pub open spec fn valid(self, cs: ConstraintSystem) -> bool {
        &&& self.col_a.kind == ColumnKind::Advice && self.col_a.index < cs.n_advice
        &&& self.col_b.kind == ColumnKind::Advice && self.col_b.index < cs.n_advice
        &&& self.col_c.kind == ColumnKind::Advice && self.col_c.index < cs.n_advice
        &&& self.col_a.index != self.col_b.index
        &&& self.col_a.index != self.col_c.index
        &&& self.col_b.index != self.col_c.index
        &&& self.instance.kind == ColumnKind::Instance
        &&& self.selector.index < cs.n_selectors
        &&& cs.equality_ok(self.col_a)
        &&& cs.equality_ok(self.col_b)
        &&& cs.equality_ok(self.col_c)
        &&& cs.equality_ok(self.instance)
    }
}

/// What the chip's single gate constraint evaluates to at a row: zero where
/// the selector is off, else the residual `a + b - c` of that row.
pub open spec fn fib_gate_eval(cfg: FibonacciConfig, g: Grid, r: int) -> Option<int> {
    if !g.selector_at(cfg.selector.index as int, r) {
        Some(0int)
    } else {
        match (
            g.advice_at(cfg.col_a.index as int, r),
            g.advice_at(cfg.col_b.index as int, r),
            g.advice_at(cfg.col_c.index as int, r),
        ) {
            (Some(x), Some(y), Some(z)) => Some(fsub(fadd(x, y), z)),
            _ => None,
        }
    }
}

/// The system holds exactly the recurrence gate over `cfg`, and nothing
/// else.
pub open spec fn fib_configured(cs: ConstraintSystem, cfg: FibonacciConfig) -> bool {
    &&& cfg.valid(cs)
    &&& cs.gates@.len() == 1
    &&& (cs.gates@[0].constraints)@.len() == 1
    &&& cs.lookups@.len() == 0
    &&& forall|g: Grid, r: int|
        g.wf() ==> #[trigger] g.eval((cs.gates@[0].constraints)@[0], r) == fib_gate_eval(cfg, g, r)
}

/// The recurrence chip.
pub struct FibonacciChip {
    pub config: FibonacciConfig,
}

impl FibonacciChip {
    /// Wraps a configuration.
    pub fn construct(config: FibonacciConfig) -> (chip: FibonacciChip)
        ensures
            chip.config == config,
    {
        FibonacciChip { config }
    }

    /// Declares the chip's columns and selector on a fresh system, enables
    /// equality on them, and registers a gate `selector * (a + b - c)`.
    pub fn configure(meta: &mut ConstraintSystem) -> (cfg: FibonacciConfig)
        requires
            old(meta).wf(),
            old(meta).n_advice == 0,
            old(meta).n_instance == 0,
            old(meta).n_selectors == 0,
            old(meta).gates@.len() == 0,
            old(meta).lookups@.len() == 0,
        ensures
            final(meta).wf(),
            fib_configured(*final(meta), cfg),
            cfg.instance.index == 0,
            final(meta).n_instance == 1,
    {
        let col_a = meta.advice_column();
        let col_b = meta.advice_column();
        let col_c = meta.advice_column();
        let instance = meta.instance_column();
        let selector = meta.selector();

        meta.enable_equality(col_a);
        meta.enable_equality(col_b);
        meta.enable_equality(col_c);
        meta.enable_equality(instance);

        let a = Expression::query(col_a, Rotation::cur());
        let b = Expression::query(col_b, Rotation::cur());
        let c = Expression::query(col_c, Rotation::cur());
        let s = Expression::query_selector(selector);
        let constraint = s.mul(a.add(b).sub(c));

        proof {
            assert(constraint.wf()) by {
                reveal_with_fuel(Expression::wf, 5);
            }
        }
        let mut constraints: Vec<Expression> = Vec::new();
        constraints.push(constraint);
        meta.create_gate("add", selector, constraints);

        let cfg = FibonacciConfig { col_a, col_b, col_c, instance, selector };
        proof {
            let e = (meta.gates@[0].constraints)@[0];
            assert forall|g: Grid, r: int| g.wf() implies #[trigger] g.eval(e, r) == fib_gate_eval(
                cfg,
                g,
                r,
            ) by {
                lemma_fib_gate_eval(cfg, g, r, e);
            }
        }
        cfg
    }

    /// Loads the first two public inputs into row `next_row` of columns `a`
    /// and `b`, computes their sum into column `c`, and enables the
    /// selector there.
    pub fn assign_first_row(&self, ly: &mut Layouter) -> (r: Result<(Cell, Cell, Cell), Error>)
        requires
            old(ly).wf(),
            self.config.valid(old(ly).cs),
            old(ly).next_row < old(ly).grid.n_rows,
            old(ly).grid.advice_at(self.config.col_a.index as int, old(ly).next_row as int)
                is None,
            old(ly).grid.advice_at(self.config.col_b.index as int, old(ly).next_row as int)
                is None,
            old(ly).grid.advice_at(self.config.col_c.index as int, old(ly).next_row as int)
                is None,
            old(ly).grid.instance_at(self.config.instance.index as int, 0) is Some,
            old(ly).grid.instance_at(self.config.instance.index as int, 1) is Some,
        ensures
            r is Ok,
            final(ly).wf(),
            Layouter::same_shape(*old(ly), *final(ly)),
            r matches Ok(cells) ==> ({
                let row = old(ly).next_row as int;
                let i0 = old(ly).grid.instance_at(self.config.instance.index as int, 0)->Some_0;
                let i1 = old(ly).grid.instance_at(self.config.instance.index as int, 1)->Some_0;
                &&& cells.0 == Cell { column: self.config.col_a, row: old(ly).next_row }
                &&& cells.1 == Cell { column: self.config.col_b, row: old(ly).next_row }
                &&& cells.2 == Cell { column: self.config.col_c, row: old(ly).next_row }
                &&& final(ly).next_row == old(ly).next_row + 1
                &&& final(ly).next_constant_row == old(ly).next_constant_row
                &&& final(ly).grid.advice_at(self.config.col_a.index as int, row) == Some(i0)
                &&& final(ly).grid.advice_at(self.config.col_b.index as int, row) == Some(i1)
                &&& final(ly).grid.advice_at(self.config.col_c.index as int, row) == Some(
                    fadd(i0, i1),
                )
                &&& forall|c2: int, r2: int|
                    !(r2 == row && (c2 == self.config.col_a.index || c2 == self.config.col_b.index
                        || c2 == self.config.col_c.index)) ==> #[trigger] final(ly).grid.advice_at(c2, r2) == old(ly).grid.advice_at(c2, r2)
                &&& final(ly).grid.fixed == old(ly).grid.fixed
                &&& final(ly).grid.selector_at(self.config.selector.index as int, row)
                &&& forall|s2: int, r2: int|
                    !(s2 == self.config.selector.index && r2 == row) ==> #[trigger] final(ly).grid.selector_at(s2, r2) == old(ly).grid.selector_at(s2, r2)
                &&& crate::copy::pair_recorded(
                    final(ly).copies.pairs@,
                    cells.0,
                    Cell { column: self.config.instance, row: 0 },
                )
                &&& crate::copy::pair_recorded(
                    final(ly).copies.pairs@,
                    cells.1,
                    Cell { column: self.config.instance, row: 1 },
                )
                &&& (copies_ok(old(ly).copies.pairs@, old(ly).grid) && copies_assigned(
                    old(ly).copies.pairs@,
                    old(ly).grid,
                ) ==> copies_ok(final(ly).copies.pairs@, final(ly).grid) && copies_assigned(
                    final(ly).copies.pairs@,
                    final(ly).grid,
                ))
            }),
    {
        let cfg = self.config;
        let row = ly.assign_region("first row", 1)?;
        ly.enable_selector(cfg.selector, row)?;
        let ghost g0 = ly.grid;
        let a_cell = ly.assign_advice_from_instance(cfg.instance, 0, cfg.col_a, row)?;
        let ghost g1 = ly.grid;
        let ghost pairs1 = ly.copies.pairs@;
        let b_cell = ly.assign_advice_from_instance(cfg.instance, 1, cfg.col_b, row)?;
        let ghost g2 = ly.grid;
        let ghost pairs2 = ly.copies.pairs@;
        let av = match ly.grid.get_advice(cfg.col_a.index, row) {
            Some(v) => v,
            None => {
                return Err(Error::AssignmentError);
            },
        };
        let bv = match ly.grid.get_advice(cfg.col_b.index, row) {
            Some(v) => v,
            None => {
                return Err(Error::AssignmentError);
            },
        };
        let c_cell = ly.assign_advice(cfg.col_c, row, av.add(bv))?;
        proof {
            let g3 = ly.grid;
            assert forall|c2: int, r2: int|
                !(r2 == row && (c2 == cfg.col_a.index || c2 == cfg.col_b.index || c2
                    == cfg.col_c.index)) implies #[trigger] g3.advice_at(c2, r2) == g0.advice_at(
                c2,
                r2,
            ) by {
                assert(g3.advice_at(c2, r2) == g2.advice_at(c2, r2));
                assert(g2.advice_at(c2, r2) == g1.advice_at(c2, r2));
            }
            assert forall|s2: int, r2: int|
                !(s2 == cfg.selector.index && r2 == row) implies #[trigger] g3.selector_at(s2, r2)
                == old(ly).grid.selector_at(s2, r2) by {
                assert(g3.selector_at(s2, r2) == g0.selector_at(s2, r2));
                assert(g0.selector_at(s2, r2) == old(ly).grid.selector_at(s2, r2));
            }
            assert(g3.selector_at(cfg.selector.index as int, row as int) == g0.selector_at(
                cfg.selector.index as int,
                row as int,
            ));
            if copies_ok(old(ly).copies.pairs@, old(ly).grid) && copies_assigned(
                old(ly).copies.pairs@,
                old(ly).grid,
            ) {
                lemma_advice_write_preserves(g0, g1, cfg.col_a.index as int, row as int);
                lemma_copies_preserved(old(ly).copies.pairs@, g0, g1);
                if pairs1 == old(ly).copies.pairs@.push(
                    (a_cell, Cell { column: cfg.instance, row: 0 }),
                ) {
                    lemma_copies_ok_push(
                        old(ly).copies.pairs@,
                        (a_cell, Cell { column: cfg.instance, row: 0 }),
                        g1,
                    );
                    crate::copy::lemma_copies_assigned_push(
                        old(ly).copies.pairs@,
                        (a_cell, Cell { column: cfg.instance, row: 0 }),
                        g1,
                    );
                }
                assert(copies_ok(pairs1, g1) && copies_assigned(pairs1, g1));
                lemma_advice_write_preserves(g1, g2, cfg.col_b.index as int, row as int);
                lemma_copies_preserved(pairs1, g1, g2);
                if pairs2 == pairs1.push((b_cell, Cell { column: cfg.instance, row: 1 })) {
                    lemma_copies_ok_push(
                        pairs1,
                        (b_cell, Cell { column: cfg.instance, row: 1 }),
                        g2,
                    );
                    crate::copy::lemma_copies_assigned_push(
                        pairs1,
                        (b_cell, Cell { column: cfg.instance, row: 1 }),
                        g2,
                    );
                }
                assert(copies_ok(pairs2, g2) && copies_assigned(pairs2, g2));
                lemma_advice_write_preserves(g2, g3, cfg.col_c.index as int, row as int);
                lemma_copies_preserved(pairs2, g2, g3);
                assert(ly.copies.pairs@ == pairs2);
            }
            let icell0 = Cell { column: cfg.instance, row: 0 };
            let icell1 = Cell { column: cfg.instance, row: 1 };
            assert(crate::copy::pair_recorded(pairs1, a_cell, icell0));
            if pairs2 != pairs1 {
                assert(pairs2 == pairs1.push((b_cell, icell1)));
            }
            crate::copy::lemma_pair_recorded_monotone(pairs1, pairs2, a_cell, icell0);
            assert(crate::copy::pair_recorded(pairs2, b_cell, icell1));
            assert(ly.copies.pairs@ == pairs2);
        }
        Ok((a_cell, b_cell, c_cell))
    }

    /// Copies the previous row's `b` and `c` into the new row's `a` and
    /// `b`, computes the new `c` as their sum, and enables the selector.
    pub fn assign_row(&self, ly: &mut Layouter, prev_b: Cell, prev_c: Cell) -> (r: Result<
        Cell,
        Error,
    >)
        requires
            old(ly).wf(),
            self.config.valid(old(ly).cs),
            old(ly).next_row < old(ly).grid.n_rows,
            old(ly).grid.advice_at(self.config.col_a.index as int, old(ly).next_row as int)
                is None,
            old(ly).grid.advice_at(self.config.col_b.index as int, old(ly).next_row as int)
                is None,
            old(ly).grid.advice_at(self.config.col_c.index as int, old(ly).next_row as int)
                is None,
            old(ly).grid.cell_value(prev_b) is Some,
            old(ly).grid.cell_value(prev_c) is Some,
            old(ly).cs.equality_ok(prev_b.column),
            old(ly).cs.equality_ok(prev_c.column),
        ensures
            r is Ok,
            final(ly).wf(),
            Layouter::same_shape(*old(ly), *final(ly)),
            r matches Ok(c_cell) ==> ({
                let row = old(ly).next_row as int;
                let vb = old(ly).grid.cell_value(prev_b)->Some_0;
                let vc = old(ly).grid.cell_value(prev_c)->Some_0;
                &&& c_cell == Cell { column: self.config.col_c, row: old(ly).next_row }
                &&& final(ly).next_row == old(ly).next_row + 1
                &&& final(ly).next_constant_row == old(ly).next_constant_row
                &&& final(ly).grid.advice_at(self.config.col_a.index as int, row) == Some(vb)
                &&& final(ly).grid.advice_at(self.config.col_b.index as int, row) == Some(vc)
                &&& final(ly).grid.advice_at(self.config.col_c.index as int, row) == Some(
                    fadd(vb, vc),
                )
                &&& forall|c2: int, r2: int|
                    !(r2 == row && (c2 == self.config.col_a.index || c2 == self.config.col_b.index
                        || c2 == self.config.col_c.index)) ==> #[trigger] final(ly).grid.advice_at(c2, r2) == old(ly).grid.advice_at(c2, r2)
                &&& final(ly).grid.fixed == old(ly).grid.fixed
                &&& final(ly).grid.selector_at(self.config.selector.index as int, row)
                &&& forall|s2: int, r2: int|
                    !(s2 == self.config.selector.index && r2 == row) ==> #[trigger] final(ly).grid.selector_at(s2, r2) == old(ly).grid.selector_at(s2, r2)
                &&& crate::copy::pair_recorded(
                    final(ly).copies.pairs@,
                    prev_b,
                    Cell { column: self.config.col_a, row: old(ly).next_row },
                )
                &&& crate::copy::pair_recorded(
                    final(ly).copies.pairs@,
                    prev_c,
                    Cell { column: self.config.col_b, row: old(ly).next_row },
                )
                &&& (copies_ok(old(ly).copies.pairs@, old(ly).grid) && copies_assigned(
                    old(ly).copies.pairs@,
                    old(ly).grid,
                ) ==> copies_ok(final(ly).copies.pairs@, final(ly).grid) && copies_assigned(
                    final(ly).copies.pairs@,
                    final(ly).grid,
                ))
            }),
    {
        let cfg = self.config;
        proof {
            crate::grid::lemma_query_in_range(old(ly).grid, prev_b.column, prev_b.row as int);
            crate::grid::lemma_query_in_range(old(ly).grid, prev_c.column, prev_c.row as int);
        }
        let row = ly.assign_region("next row", 1)?;
        ly.enable_selector(cfg.selector, row)?;
        let ghost g0 = ly.grid;
        let a_cell = ly.copy_advice(prev_b, cfg.col_a, row)?;
        let ghost g1 = ly.grid;
        let ghost pairs1 = ly.copies.pairs@;
        let b_cell = ly.copy_advice(prev_c, cfg.col_b, row)?;
        let ghost g2 = ly.grid;
        let ghost pairs2 = ly.copies.pairs@;
        let av = match ly.grid.get_advice(cfg.col_a.index, row) {
            Some(v) => v,
            None => {
                return Err(Error::AssignmentError);
            },
        };
        let bv = match ly.grid.get_advice(cfg.col_b.index, row) {
            Some(v) => v,
            None => {
                return Err(Error::AssignmentError);
            },
        };
        let c_cell = ly.assign_advice(cfg.col_c, row, av.add(bv))?;
        proof {
            let g3 = ly.grid;
            assert(g1.cell_value(prev_b) == g0.cell_value(prev_b));
            assert forall|c2: int, r2: int|
                !(r2 == row && (c2 == cfg.col_a.index || c2 == cfg.col_b.index || c2
                    == cfg.col_c.index)) implies #[trigger] g3.advice_at(c2, r2) == g0.advice_at(
                c2,
                r2,
            ) by {
                assert(g3.advice_at(c2, r2) == g2.advice_at(c2, r2));
                assert(g2.advice_at(c2, r2) == g1.advice_at(c2, r2));
            }
            assert forall|s2: int, r2: int|
                !(s2 == cfg.selector.index && r2 == row) implies #[trigger] g3.selector_at(s2, r2)
                == old(ly).grid.selector_at(s2, r2) by {
                assert(g3.selector_at(s2, r2) == g0.selector_at(s2, r2));
                assert(g0.selector_at(s2, r2) == old(ly).grid.selector_at(s2, r2));
            }
            assert(g3.selector_at(cfg.selector.index as int, row as int) == g0.selector_at(
                cfg.selector.index as int,
                row as int,
            ));
            if copies_ok(old(ly).copies.pairs@, old(ly).grid) && copies_assigned(
                old(ly).copies.pairs@,
                old(ly).grid,
            ) {
                lemma_advice_write_preserves(g0, g1, cfg.col_a.index as int, row as int);
                lemma_copies_preserved(old(ly).copies.pairs@, g0, g1);
                if pairs1 == old(ly).copies.pairs@.push((prev_b, a_cell)) {
                    lemma_copies_ok_push(old(ly).copies.pairs@, (prev_b, a_cell), g1);
                    crate::copy::lemma_copies_assigned_push(
                        old(ly).copies.pairs@,
                        (prev_b, a_cell),
                        g1,
                    );
                }
                assert(copies_ok(pairs1, g1) && copies_assigned(pairs1, g1));
                lemma_advice_write_preserves(g1, g2, cfg.col_b.index as int, row as int);
                lemma_copies_preserved(pairs1, g1, g2);
                if pairs2 == pairs1.push((prev_c, b_cell)) {
                    lemma_copies_ok_push(pairs1, (prev_c, b_cell), g2);
                    crate::copy::lemma_copies_assigned_push(pairs1, (prev_c, b_cell), g2);
                }
                assert(copies_ok(pairs2, g2) && copies_assigned(pairs2, g2));
                lemma_advice_write_preserves(g2, g3, cfg.col_c.index as int, row as int);
                lemma_copies_preserved(pairs2, g2, g3);
                assert(ly.copies.pairs@ == pairs2);
            }
            assert(crate::copy::pair_recorded(pairs1, prev_b, a_cell));
            if pairs2 != pairs1 {
                assert(pairs2 == pairs1.push((prev_c, b_cell)));
            }
            crate::copy::lemma_pair_recorded_monotone(pairs1, pairs2, prev_b, a_cell);
            assert(crate::copy::pair_recorded(pairs2, prev_c, b_cell));
            assert(ly.copies.pairs@ == pairs2);
        }
        Ok(c_cell)
    }

    /// Binds an assigned cell to the public input at `row` of the instance
    /// column: the terminal equality constraint that exposes an output.
    pub fn expose_public(&self, ly: &mut Layouter, cell: Cell, row: usize) -> (r: Result<
        (),
        Error,
    >)
        requires
            old(ly).wf(),
            self.config.valid(old(ly).cs),
            old(ly).grid.instance_at(self.config.instance.index as int, row as int) is Some,
            old(ly).grid.cell_value(cell) is Some,
            old(ly).cs.equality_ok(cell.column),
        ensures
            r is Ok,
            final(ly).wf(),
            Layouter::same_shape(*old(ly), *final(ly)),
            r is Ok ==> ({
                let icell = Cell { column: self.config.instance, row };
                &&& final(ly).grid == old(ly).grid
                &&& final(ly).next_row == old(ly).next_row
                &&& final(ly).next_constant_row == old(ly).next_constant_row
                &&& (copies_ok(final(ly).copies.pairs@, final(ly).grid) <==> (copies_ok(
                    old(ly).copies.pairs@,
                    old(ly).grid,
                ) && pair_agrees(old(ly).grid, cell, icell)))
                &&& (copies_assigned(old(ly).copies.pairs@, old(ly).grid) && old(
                    ly,
                ).grid.cell_value(cell) is Some ==> copies_assigned(
                    final(ly).copies.pairs@,
                    final(ly).grid,
                ))
            }),
    {
        let cfg = self.config;
        let r = ly.constrain_instance(cell, cfg.instance, row)?;
        proof {
            let icell = Cell { column: cfg.instance, row };
            if ly.copies.pairs@ == old(ly).copies.pairs@.push((cell, icell)) {
                lemma_copies_ok_push(old(ly).copies.pairs@, (cell, icell), ly.grid);
            } else {
                assert(crate::copy::pair_recorded(old(ly).copies.pairs@, cell, icell));
                if copies_ok(old(ly).copies.pairs@, old(ly).grid) {
                    if old(ly).copies.pairs@.contains((cell, icell)) {
                        let i = choose|i: int|
                            0 <= i < old(ly).copies.pairs@.len() && old(ly).copies.pairs@[i] == (
                            cell,
                            icell,
                            );
                        assert(pair_agrees(old(ly).grid, cell, icell));
                    } else {
                        let i = choose|i: int|
                            0 <= i < old(ly).copies.pairs@.len() && old(ly).copies.pairs@[i] == (
                            icell,
                            cell,
                            );
                        assert(pair_agrees(old(ly).grid, icell, cell));
                    }
                }
            }
        }
        Ok(r)
    }
}

/// Evaluating the constructed gate expression agrees with
/// `fib_gate_eval`; unfolded bottom-up, one operator at a time.
proof fn lemma_fib_gate_eval(cfg: FibonacciConfig, g: Grid, r: int, e: Expression)
    requires
        g.wf(),
        cfg.col_a.kind == ColumnKind::Advice,
        cfg.col_b.kind == ColumnKind::Advice,
        cfg.col_c.kind == ColumnKind::Advice,
        e == Expression::Product(
            Box::new(Expression::SelectorQuery(cfg.selector)),
            Box::new(
                Expression::Difference(
                    Box::new(
                        Expression::Sum(
                            Box::new(Expression::Query(cfg.col_a, Rotation { offset: 0 })),
                            Box::new(Expression::Query(cfg.col_b, Rotation { offset: 0 })),
                        ),
                    ),
                    Box::new(Expression::Query(cfg.col_c, Rotation { offset: 0 })),
                ),
            ),
        ),
    ensures
        g.eval(e, r) == fib_gate_eval(cfg, g, r),
{
    let qa = Expression::Query(cfg.col_a, Rotation { offset: 0 });
    let qb = Expression::Query(cfg.col_b, Rotation { offset: 0 });
    let qc = Expression::Query(cfg.col_c, Rotation { offset: 0 });
    let se = Expression::SelectorQuery(cfg.selector);
    let sum = Expression::Sum(Box::new(qa), Box::new(qb));
    let dif = Expression::Difference(Box::new(sum), Box::new(qc));
    crate::grid::lemma_query_in_range(g, cfg.col_a, r);
    crate::grid::lemma_query_in_range(g, cfg.col_b, r);
    crate::grid::lemma_query_in_range(g, cfg.col_c, r);
    assert(g.eval(qa, r) == g.query_at(cfg.col_a, r));
    assert(g.eval(qb, r) == g.query_at(cfg.col_b, r));
    assert(g.eval(qc, r) == g.query_at(cfg.col_c, r));
    assert(g.eval(se, r) == Some(
        if g.selector_at(cfg.selector.index as int, r) {
            1int
        } else {
            0int
        },
    ));
    assert(g.eval(sum, r) == match (g.eval(qa, r), g.eval(qb, r)) {
        (Some(x), Some(y)) => Some(fadd(x, y)),
        _ => None::<int>,
    });
    assert(g.eval(dif, r) == match (g.eval(sum, r), g.eval(qc, r)) {
        (Some(x), Some(y)) => Some(fsub(x, y)),
        _ => None::<int>,
    });
    if g.selector_at(cfg.selector.index as int, r) {
        match (g.query_at(cfg.col_a, r), g.query_at(cfg.col_b, r), g.query_at(cfg.col_c, r)) {
            (Some(x), Some(y), Some(z)) => {
                let d = fsub(fadd(x, y), z);
                assert(0 <= d < p()) by {
                    vstd::arithmetic::div_mod::lemma_mod_bound(fadd(x, y) - z, p());
                }
                if d == 0 {
                    assert(g.eval(e, r) == Some(0int));
                } else {
                    assert(g.eval(e, r) == Some(crate::field::fmul(1, d)));
                    lemma_one_mul(d);
                }
            },
            _ => {
                assert(g.eval(dif, r) is None);
                assert(g.eval(e, r) is None);
            },
        }
    } else {
        assert(g.eval(e, r) == Some(0int));
    }
}

/// Multiplying a canonical value by one is the identity.
proof fn lemma_one_mul(d: int)
    requires
        0 <= d < p(),
    ensures
        crate::field::fmul(1, d) == d,
{
    vstd::arithmetic::div_mod::lemma_small_mod(d as nat, p() as nat);
}

/// The example circuit: one first row, `n_steps` chained rows, and a
/// terminal binding of the last `c` to the third public input.
pub struct FibonacciCircuit {
    pub n_steps: usize,
}

impl FibonacciCircuit {
    /// Configures the recurrence chip on a fresh system.
    pub fn configure(meta: &mut ConstraintSystem) -> (cfg: FibonacciConfig)
        requires
            old(meta).wf(),
            old(meta).n_advice == 0,
            old(meta).n_instance == 0,
            old(meta).n_selectors == 0,
            old(meta).gates@.len() == 0,
            old(meta).lookups@.len() == 0,
        ensures
            final(meta).wf(),
            fib_configured(*final(meta), cfg),
            cfg.instance.index == 0,
            final(meta).n_instance == 1,
    {
        FibonacciChip::configure(meta)
    }

    /// Populates a fresh grid with the recurrence seeded by the first two
    /// public inputs and binds the last term to the third.
    ///
    /// Recurrence correctness: the populated grid satisfies the registered
    /// system exactly when the third public input equals the recurrence
    /// value after `n_steps + 2` terms.
    pub fn synthesize(&self, config: FibonacciConfig, ly: &mut Layouter) -> (r: Result<(), Error>)
        requires
            old(ly).wf(),
            fib_configured(old(ly).cs, config),
            old(ly).next_row == 0,
            forall|c2: int, r2: int| #[trigger] old(ly).grid.advice_at(c2, r2) is None,
            forall|s2: int, r2: int| !(#[trigger] old(ly).grid.selector_at(s2, r2)),
            old(ly).copies.pairs@.len() == 0,
            old(ly).grid.instance_at(config.instance.index as int, 0) is Some,
            old(ly).grid.instance_at(config.instance.index as int, 1) is Some,
            old(ly).grid.instance_at(config.instance.index as int, 2) is Some,
            self.n_steps + 1 <= old(ly).grid.n_rows,
        ensures
            r is Ok,
            final(ly).wf(),
            Layouter::same_shape(*old(ly), *final(ly)),
            r is Ok ==> ({
                let i0 = old(ly).grid.instance_at(config.instance.index as int, 0)->Some_0;
                let i1 = old(ly).grid.instance_at(config.instance.index as int, 1)->Some_0;
                crate::checker::satisfies(*final(ly)) <==> old(ly).grid.instance_at(
                    config.instance.index as int,
                    2,
                ) == Some(fib_val(i0, i1, (self.n_steps + 2) as nat))
            }),
    {
        let chip = FibonacciChip::construct(config);
        let ghost i0 = old(ly).grid.instance_at(config.instance.index as int, 0)->Some_0;
        let ghost i1 = old(ly).grid.instance_at(config.instance.index as int, 1)->Some_0;
        let n = self.n_steps;
        let cells = chip.assign_first_row(ly)?;
        let mut prev_b = cells.1;
        let mut prev_c = cells.2;
        proof {
            assert(copies_ok(old(ly).copies.pairs@, old(ly).grid));
            assert(copies_assigned(old(ly).copies.pairs@, old(ly).grid));
            assert(fib_val(i0, i1, 2) == fadd(i0, i1)) by {
                reveal_with_fuel(fib_val, 3);
            }
        }
        let mut done: usize = 1;
        while done < n + 1
            invariant
                ly.wf(),
                Layouter::same_shape(*old(ly), *ly),
                ly.cs == old(ly).cs,
                fib_configured(ly.cs, config),
                chip.config == config,
                1 <= done <= n + 1,
                n + 1 <= ly.grid.n_rows,
                ly.next_row == done,
                ly.grid.cell_value(prev_b) == Some(fib_val(i0, i1, done as nat)),
                ly.grid.cell_value(prev_c) == Some(fib_val(i0, i1, (done + 1) as nat)),
                ly.cs.equality_ok(prev_b.column),
                ly.cs.equality_ok(prev_c.column),
                prev_b.column.kind == ColumnKind::Advice,
                prev_c.column.kind == ColumnKind::Advice,
                prev_b.row < done,
                prev_c.row < done,
                i0 == old(ly).grid.instance_at(config.instance.index as int, 0)->Some_0,
                i1 == old(ly).grid.instance_at(config.instance.index as int, 1)->Some_0,
                old(ly).grid.instance_at(config.instance.index as int, 0) is Some,
                old(ly).grid.instance_at(config.instance.index as int, 1) is Some,
                old(ly).grid.instance_at(config.instance.index as int, 2) is Some,
                forall|rr: int|
                    0 <= rr < done ==> #[trigger] ly.grid.advice_at(config.col_a.index as int, rr)
                        == Some(fib_val(i0, i1, rr as nat)),
                forall|rr: int|
                    0 <= rr < done ==> #[trigger] ly.grid.advice_at(config.col_b.index as int, rr)
                        == Some(fib_val(i0, i1, (rr + 1) as nat)),
                forall|rr: int|
                    0 <= rr < done ==> #[trigger] ly.grid.advice_at(config.col_c.index as int, rr)
                        == Some(fib_val(i0, i1, (rr + 2) as nat)),
                forall|c2: int, r2: int|
                    !(0 <= r2 < done && (c2 == config.col_a.index || c2 == config.col_b.index || c2
                        == config.col_c.index)) ==> #[trigger] ly.grid.advice_at(c2, r2) is None,
                forall|s2: int, r2: int|
                    #[trigger] ly.grid.selector_at(s2, r2) <==> (s2 == config.selector.index && 0
                        <= r2 < done),
                copies_ok(ly.copies.pairs@, ly.grid),
                copies_assigned(ly.copies.pairs@, ly.grid),
            decreases n + 1 - done,
        {
            let ghost pre = *ly;
            let c_cell = chip.assign_row(ly, prev_b, prev_c)?;
            proof {
                assert(pre.grid.cell_value(prev_b) == Some(fib_val(i0, i1, done as nat)));
                assert(pre.grid.cell_value(prev_c) == Some(fib_val(i0, i1, (done + 1) as nat)));
                assert(fib_val(i0, i1, (done + 2) as nat) == fadd(
                    fib_val(i0, i1, done as nat),
                    fib_val(i0, i1, (done + 1) as nat),
                ));
                assert forall|rr: int|
                    0 <= rr < done + 1 implies #[trigger] ly.grid.advice_at(
                    config.col_a.index as int,
                    rr,
                ) == Some(fib_val(i0, i1, rr as nat)) by {
                    if rr < done {
                        assert(ly.grid.advice_at(config.col_a.index as int, rr) == pre.grid.advice_at(
                            config.col_a.index as int,
                            rr,
                        ));
                    }
                }
                assert forall|rr: int|
                    0 <= rr < done + 1 implies #[trigger] ly.grid.advice_at(
                    config.col_b.index as int,
                    rr,
                ) == Some(fib_val(i0, i1, (rr + 1) as nat)) by {
                    if rr < done {
                        assert(ly.grid.advice_at(config.col_b.index as int, rr) == pre.grid.advice_at(
                            config.col_b.index as int,
                            rr,
                        ));
                    }
                }
                assert forall|rr: int|
                    0 <= rr < done + 1 implies #[trigger] ly.grid.advice_at(
                    config.col_c.index as int,
                    rr,
                ) == Some(fib_val(i0, i1, (rr + 2) as nat)) by {
                    if rr < done {
                        assert(ly.grid.advice_at(config.col_c.index as int, rr) == pre.grid.advice_at(
                            config.col_c.index as int,
                            rr,
                        ));
                    }
                }
                assert forall|c2: int, r2: int|
                    !(0 <= r2 < done + 1 && (c2 == config.col_a.index || c2 == config.col_b.index
                        || c2 == config.col_c.index)) implies #[trigger] ly.grid.advice_at(c2, r2)
                    is None by {
                    assert(ly.grid.advice_at(c2, r2) == pre.grid.advice_at(c2, r2));
                }
                assert forall|s2: int, r2: int| #[trigger]
                    ly.grid.selector_at(s2, r2) <==> (s2 == config.selector.index && 0 <= r2 < done
                        + 1) by {
                    if !(s2 == config.selector.index && r2 == done) {
                        assert(ly.grid.selector_at(s2, r2) == pre.grid.selector_at(s2, r2));
                    }
                }
            }
            proof {
                assert(ly.grid.cell_value(prev_c) == pre.grid.cell_value(prev_c));
                assert(c_cell == (Cell { column: config.col_c, row: done }));
                assert(ly.grid.cell_value(c_cell) == ly.grid.advice_at(
                    config.col_c.index as int,
                    done as int,
                ));
            }
            prev_b = prev_c;
            prev_c = c_cell;
            done = done + 1;
        }
        let ghost before_expose = *ly;
        chip.expose_public(ly, prev_c, 2)?;
        proof {
            let g = ly.grid;
            let cs = ly.cs;
            let icell = Cell { column: config.instance, row: 2 };
            let out = old(ly).grid.instance_at(config.instance.index as int, 2);
            assert(g == before_expose.grid);
            assert(before_expose.grid.cell_value(prev_c) == Some(
                fib_val(i0, i1, (n + 2) as nat),
            ));
            assert(g.cell_value(icell) == out);
            assert(crate::checker::gates_ok(cs, g)) by {
                assert forall|gi: int, ci: int, rr: int|
                    0 <= gi < cs.gates@.len() && 0 <= ci < (cs.gates@[gi].constraints)@.len() && 0
                        <= rr < g.n_rows implies #[trigger] crate::checker::gate_constraint_ok(
                    cs,
                    g,
                    gi,
                    ci,
                    rr,
                ) by {
                    assert(g.eval((cs.gates@[0].constraints)@[0], rr) == fib_gate_eval(
                        config,
                        g,
                        rr,
                    ));
                    if g.selector_at(config.selector.index as int, rr) {
                        assert(0 <= rr < n + 1);
                        let x = fib_val(i0, i1, rr as nat);
                        let y = fib_val(i0, i1, (rr + 1) as nat);
                        let z = fib_val(i0, i1, (rr + 2) as nat);
                        assert(z == fadd(x, y));
                        assert(fsub(fadd(x, y), z) == 0) by {
                            vstd::arithmetic::div_mod::lemma_small_mod(0, p() as nat);
                        }
                    }
                }
            }
            assert(crate::checker::lookups_ok(cs, g)) by {
                assert(cs.lookups@.len() == 0);
            }
            if copies_ok(ly.copies.pairs@, g) {
                assert(pair_agrees(before_expose.grid, prev_c, icell));
                assert(out == Some(fib_val(i0, i1, (n + 2) as nat)));
            }
            if out == Some(fib_val(i0, i1, (n + 2) as nat)) {
                assert(pair_agrees(before_expose.grid, prev_c, icell));
            }
        }
        Ok(())
    }
}

} // verus!
