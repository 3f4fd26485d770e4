//! The direct polynomial range check: for a small bound `range`, a gate of the form
//! `selector * value * (1 - value) * (2 - value) * ... * (range-1 - value)`
//! vanishes exactly when the value lies in `0..range`. The constraint
//! degree grows with the bound, which is why this form suits small bounds
//! only; larger bounds use the lookup variant.

use crate::columns::{Cell, Column, ColumnKind, Rotation, Selector};
use crate::errors::Error;
use crate::expression::Expression;
use crate::field::{fmul, fsub, lemma_no_zero_divisors, p, Fp};
use crate::grid::Grid;
use crate::layouter::Layouter;
use crate::system::ConstraintSystem;
use vstd::prelude::*;

verus! {

/// The range-check product `v * (1 - v) * ... * (range-1 - v)` over the
/// field, built up factor by factor.
pub open spec fn range_check_poly(v: int, range: nat) -> int
    decreases range,
{
    if range <= 1 {
        v
    } else {
        fmul(range_check_poly(v, (range - 1) as nat), fsub((range - 1) as int, v))
    }
}

/// The range-check product vanishes exactly on `0..range`: it is zero when
/// `v < range` and nonzero on every other field element.
pub proof fn lemma_range_check_poly(v: int, range: nat)
    requires
        0 <= v < p(),
        1 <= range <= p(),
    ensures
        0 <= range_check_poly(v, range) < p() || range_check_poly(v, range) == v,
        range_check_poly(v, range) == 0 <==> v < range,
    decreases range,
{
    if range <= 1 {
    } else {
        let k = (range - 1) as int;
        lemma_range_check_poly(v, (range - 1) as nat);
        let prev = range_check_poly(v, (range - 1) as nat);
        let f = fsub(k, v);
        assert(0 <= prev < p());
        assert(f == 0 <==> v == k) by {
            if v == k {
                vstd::arithmetic::div_mod::lemma_small_mod(0, p() as nat);
            } else if v < k {
                vstd::arithmetic::div_mod::lemma_small_mod((k - v) as nat, p() as nat);
            } else {
                vstd::arithmetic::div_mod::lemma_mod_add_multiples_vanish(k - v, p());
                vstd::arithmetic::div_mod::lemma_small_mod((p() + k - v) as nat, p() as nat);
            }
        }
        vstd::arithmetic::div_mod::lemma_mod_bound(k - v, p());
        vstd::arithmetic::div_mod::lemma_mod_bound(prev * f, p());
        if prev == 0 {
            assert(fmul(0, f) == 0) by {
                assert(0 * f == 0) by (nonlinear_arith);
                vstd::arithmetic::div_mod::lemma_small_mod(0, p() as nat);
            }
        } else if f == 0 {
            assert(fmul(prev, 0) == 0) by {
                assert(prev * 0 == 0) by (nonlinear_arith);
                vstd::arithmetic::div_mod::lemma_small_mod(0, p() as nat);
            }
        } else {
            if fmul(prev, f) == 0 {
                lemma_no_zero_divisors(prev, f);
            }
        }
    }
}

/// The system holds exactly the direct range gate over `cfg`, and nothing
/// else.
pub open spec fn rc1_configured(cs: ConstraintSystem, cfg: RangeCheckConfig) -> bool {
    &&& cfg.valid(cs)
    &&& cs.gates@.len() == 1
    &&& (cs.gates@[0].constraints)@.len() == 1
    &&& cs.lookups@.len() == 0
    &&& forall|g: Grid, rr: int|
        g.wf() ==> #[trigger] g.eval((cs.gates@[0].constraints)@[0], rr) == cfg.gate_eval(g, rr)
}

/// The column, selector and bound of the direct range check.
#[derive(Clone, Copy, Debug, PartialEq, Eq, Structural)]
pub struct RangeCheckConfig {
    pub value: Column,
    pub q_range_check: Selector,
    pub range: usize,
}

impl RangeCheckConfig {
    /// The handles are declared in the system.
    pub open spec fn valid(self, cs: ConstraintSystem) -> bool {
        &&& self.value.kind == ColumnKind::Advice && self.value.index < cs.n_advice
        &&& self.q_range_check.index < cs.n_selectors
        &&& 1 <= self.range <= FIELD_MODULUS
    }

    /// What the partial product over the first `i` factors evaluates to at
    /// a row: the range-check product of the queried value, or nothing if
    /// the cell is unassigned.
    pub open spec fn partial_eval(g: Grid, value: Column, rr: int, i: nat) -> Option<int> {
        match g.query_at(value, rr) {
            Some(v) => Some(range_check_poly(v, i)),
            None => None,
        }
    }

    /// What the registered constraint evaluates to at a row: zero where the
    /// selector is off, else the range-check product of the value there.
    pub open spec fn gate_eval(self, g: Grid, rr: int) -> Option<int> {
        if !g.selector_at(self.q_range_check.index as int, rr) {
            Some(0int)
        } else {
            Self::partial_eval(g, self.value, rr, self.range as nat)
        }
    }

    /// Declares the selector and registers the product gate for the given
    /// bound over `value`. The registered constraint evaluates, wherever
    /// the selector is enabled, to the range-check product of the value at
    /// that row.
    pub fn configure(meta: &mut ConstraintSystem, value: Column, range: usize) -> (cfg:
        RangeCheckConfig)
        requires
            old(meta).wf(),
            old(meta).n_selectors < 0x40,
            value.kind == ColumnKind::Advice && value.index < old(meta).n_advice,
            1 <= range <= FIELD_MODULUS,
        ensures
            final(meta).wf(),
            cfg.valid(*final(meta)),
            cfg.value == value,
            cfg.range == range,
            final(meta).n_selectors == old(meta).n_selectors + 1,
            final(meta).n_advice == old(meta).n_advice,
            final(meta).n_fixed == old(meta).n_fixed,
            final(meta).n_instance == old(meta).n_instance,
            final(meta).lookups == old(meta).lookups,
            final(meta).equality_enabled == old(meta).equality_enabled,
            final(meta).constant_column == old(meta).constant_column,
            final(meta).gates@.len() == old(meta).gates@.len() + 1,
            forall|i: int|
                0 <= i < old(meta).gates@.len() ==> #[trigger] final(meta).gates@[i] == old(
                    meta,
                ).gates@[i],
            ({
                let e = (final(meta).gates@.last().constraints)@[0];
                &&& (final(meta).gates@.last().constraints)@.len() == 1
                &&& forall|g: Grid, rr: int|
                    g.wf() ==> #[trigger] g.eval(e, rr) == cfg.gate_eval(g, rr)
            }),
            old(meta).gates@.len() == 0 && old(meta).lookups@.len() == 0 ==> rc1_configured(
                *final(meta),
                cfg,
            ),
    {
        let q_range_check = meta.selector();
        let value_q = Expression::query(value, Rotation::cur());
        let mut expr = value_q.clone();
        proof {
            assert forall|g: Grid, rr: int| g.wf() implies #[trigger] g.eval(expr, rr)
                == Self::partial_eval(g, value, rr, 1) by {}
        }
        let mut i: usize = 1;
        while i < range
            invariant
                expr.wf(),
                value_q.wf(),
                value_q == (Expression::Query(value, Rotation { offset: 0 })),
                value.kind == ColumnKind::Advice,
                1 <= i <= range <= FIELD_MODULUS,
                forall|g: Grid, rr: int|
                    g.wf() ==> #[trigger] g.eval(expr, rr) == Self::partial_eval(
                        g,
                        value,
                        rr,
                        i as nat,
                    ),
            decreases range - i,
        {
            proof {
                reveal_with_fuel(Expression::wf, 4);
            }
            let fc = Fp::new(i as u64);
            let factor = Expression::constant(fc).sub(value_q.clone());
            let prev = expr;
            expr = prev.mul(factor);
            proof {
                assert(fc.val() == i) by {
                    vstd::arithmetic::div_mod::lemma_small_mod(i as nat, p() as nat);
                }
                assert forall|g: Grid, rr: int| g.wf() implies #[trigger] g.eval(expr, rr)
                    == Self::partial_eval(g, value, rr, (i + 1) as nat) by {
                    let fe = Expression::Difference(
                        Box::new(Expression::Constant(fc)),
                        Box::new(value_q),
                    );
                    assert(g.eval(value_q, rr) == g.query_at(value, rr));
                    assert(g.eval(Expression::Constant(fc), rr) == Some(fc.val()));
                    match g.query_at(value, rr) {
                        Some(v) => {
                            crate::grid::lemma_query_in_range(g, value, rr);
                            assert(g.eval(fe, rr) == Some(fsub(i as int, v)));
                            let x = range_check_poly(v, i as nat);
                            let f = fsub(i as int, v);
                            assert(g.eval(prev, rr) == Some(x));
                            lemma_range_check_poly(v, i as nat);
                            vstd::arithmetic::div_mod::lemma_mod_bound(i - v, p());
                            if x == 0 {
                                assert(fmul(0, f) == 0) by {
                                    assert(0 * f == 0) by (nonlinear_arith);
                                    vstd::arithmetic::div_mod::lemma_small_mod(0, p() as nat);
                                }
                            }
                            if f == 0 {
                                assert(fmul(x, 0) == 0) by {
                                    assert(x * 0 == 0) by (nonlinear_arith);
                                    vstd::arithmetic::div_mod::lemma_small_mod(0, p() as nat);
                                }
                            }
                            assert(g.eval(expr, rr) == Some(fmul(x, f)));
                        },
                        None => {
                            assert(g.eval(prev, rr) is None);
                            assert(g.eval(fe, rr) is None);
                            assert(g.eval(expr, rr) is None);
                        },
                    }
                }
            }
            i = i + 1;
        }
        let constraint = Expression::query_selector(q_range_check).mul(expr);
        let ghost cfg0 = RangeCheckConfig { value, q_range_check, range };
        proof {
            reveal_with_fuel(Expression::wf, 3);
            let ghost body = expr;
            assert forall|g: Grid, rr: int| g.wf() implies #[trigger] g.eval(constraint, rr)
                == cfg0.gate_eval(g, rr) by {
                let se = Expression::SelectorQuery(q_range_check);
                if !g.selector_at(q_range_check.index as int, rr) {
                    assert(g.eval(se, rr) == Some(0int));
                    assert(g.eval(constraint, rr) == Some(0int));
                } else {
                    assert(g.eval(se, rr) == Some(1int));
                    assert(g.eval(body, rr) == Self::partial_eval(g, value, rr, range as nat));
                    match g.query_at(value, rr) {
                        Some(v) => {
                            crate::grid::lemma_query_in_range(g, value, rr);
                            lemma_range_check_poly(v, range as nat);
                            let d = range_check_poly(v, range as nat);
                            if d == 0 {
                                assert(g.eval(constraint, rr) == Some(0int));
                            } else {
                                assert(g.eval(constraint, rr) == Some(fmul(1, d)));
                                assert(fmul(1, d) == d) by {
                                    vstd::arithmetic::div_mod::lemma_small_mod(
                                        d as nat,
                                        p() as nat,
                                    );
                                }
                            }
                        },
                        None => {
                            assert(g.eval(body, rr) is None);
                            assert(g.eval(constraint, rr) is None);
                        },
                    }
                }
            }
        }
        let mut constraints: Vec<Expression> = Vec::new();
        constraints.push(constraint);
        meta.create_gate("range check", q_range_check, constraints);
        RangeCheckConfig { value, q_range_check, range }
    }

    /// Assigns the value to be range-checked into a fresh region and
    /// enables the check's selector there.
    pub fn assign(&self, ly: &mut Layouter, value: Fp) -> (r: Result<Cell, Error>)
        requires
            old(ly).wf(),
            self.valid(old(ly).cs),
            value.wf(),
            old(ly).next_row < old(ly).grid.n_rows,
            forall|c2: int, r2: int|
                r2 >= old(ly).next_row ==> #[trigger] old(ly).grid.advice_at(c2, r2) is None,
        ensures
            r is Ok,
            final(ly).wf(),
            Layouter::same_shape(*old(ly), *final(ly)),
            final(ly).next_row == old(ly).next_row + 1,
            r matches Ok(cell) ==> ({
                &&& cell == Cell { column: self.value, row: old(ly).next_row }
                &&& final(ly).grid.cell_value(cell) == Some(value.val())
                &&& final(ly).grid.selector_at(
                    self.q_range_check.index as int,
                    old(ly).next_row as int,
                )
                &&& forall|s2: int, r2: int|
                    !(s2 == self.q_range_check.index && r2 == old(ly).next_row)
                        ==> #[trigger] final(ly).grid.selector_at(s2, r2) == old(
                        ly,
                    ).grid.selector_at(s2, r2)
            }),
            forall|c2: int, r2: int|
                r2 >= final(ly).next_row ==> #[trigger] final(ly).grid.advice_at(c2, r2) is None,
            final(ly).grid.fixed == old(ly).grid.fixed,
            final(ly).copies == old(ly).copies,
            final(ly).next_constant_row == old(ly).next_constant_row,
    {
        let row = ly.assign_region("range check", 1)?;
        ly.enable_selector(self.q_range_check, row)?;
        let ghost g0 = ly.grid;
        proof {
            assert(ly.grid.advice_at(self.value.index as int, row as int) == old(
                ly,
            ).grid.advice_at(self.value.index as int, row as int));
        }
        let cell = ly.assign_advice(self.value, row, value)?;
        proof {
            assert forall|c2: int, r2: int| r2 >= ly.next_row implies #[trigger] ly.grid.advice_at(
                c2,
                r2,
            ) is None by {
                assert(ly.grid.advice_at(c2, r2) == old(ly).grid.advice_at(c2, r2));
            }
            assert forall|s2: int, r2: int|
                !(s2 == self.q_range_check.index && r2 == row) implies #[trigger] ly
                .grid.selector_at(s2, r2) == old(ly).grid.selector_at(s2, r2) by {
                assert(ly.grid.selector_at(s2, r2) == g0.selector_at(s2, r2));
                assert(g0.selector_at(s2, r2) == old(ly).grid.selector_at(s2, r2));
            }
            assert(ly.grid.selector_at(self.q_range_check.index as int, row as int)
                == g0.selector_at(self.q_range_check.index as int, row as int));
        }
        Ok(cell)
    }
}

pub use crate::field::FIELD_MODULUS;

/// The example circuit: one direct range check over a fresh grid.
pub struct RangeCheck1Circuit {
    pub value: Fp,
}

impl RangeCheck1Circuit {
    /// Assigns the value on a fresh grid.
    ///
    /// Direct range-check correctness: the populated grid satisfies the
    /// registered system exactly when the value lies below the bound.
    pub fn synthesize(&self, config: RangeCheckConfig, ly: &mut Layouter) -> (r: Result<(), Error>)
        requires
            old(ly).wf(),
            rc1_configured(old(ly).cs, config),
            self.value.wf(),
            old(ly).next_row == 0,
            old(ly).next_row < old(ly).grid.n_rows,
            forall|c2: int, r2: int| #[trigger] old(ly).grid.advice_at(c2, r2) is None,
            forall|s2: int, r2: int| !(#[trigger] old(ly).grid.selector_at(s2, r2)),
            old(ly).copies.pairs@.len() == 0,
        ensures
            r is Ok,
            final(ly).wf(),
            Layouter::same_shape(*old(ly), *final(ly)),
            r is Ok ==> (crate::checker::satisfies(*final(ly)) <==> self.value.val()
                < config.range),
    {
        config.assign(ly, self.value)?;
        proof {
            let gf = ly.grid;
            let cs = ly.cs;
            let v = self.value.val();
            let qrc = config.q_range_check.index as int;
            assert forall|s2: int, r2: int|
                #[trigger] gf.selector_at(s2, r2) <==> (s2 == qrc && r2 == 0) by {
                if !(s2 == qrc && r2 == 0) {
                    assert(gf.selector_at(s2, r2) == old(ly).grid.selector_at(s2, r2));
                }
            }
            assert(gf.advice_at(config.value.index as int, 0) == Some(v));
            lemma_range_check_poly(v, config.range as nat);
            assert forall|rr: int|
                0 <= rr < gf.n_rows && rr != 0 implies #[trigger] gf.eval(
                (cs.gates@[0].constraints)@[0],
                rr,
            ) == Some(0int) by {
                assert(gf.eval((cs.gates@[0].constraints)@[0], rr) == config.gate_eval(gf, rr));
                assert(!gf.selector_at(qrc, rr));
            }
            assert(gf.eval((cs.gates@[0].constraints)@[0], 0) == Some(
                range_check_poly(v, config.range as nat),
            )) by {
                assert(gf.eval((cs.gates@[0].constraints)@[0], 0) == config.gate_eval(gf, 0));
                assert(gf.selector_at(qrc, 0));
                assert(gf.query_at(config.value, 0) == Some(v));
            }
            if v < config.range {
                assert(crate::checker::gates_ok(cs, gf)) by {
                    assert forall|gi: int, ci: int, rr: int|
                        0 <= gi < cs.gates@.len() && 0 <= ci < (cs.gates@[gi].constraints)@.len()
                            && 0 <= rr < gf.n_rows implies
                        #[trigger] crate::checker::gate_constraint_ok(cs, gf, gi, ci, rr) by {
                        if rr != 0 {
                            assert(gf.eval((cs.gates@[0].constraints)@[0], rr) == Some(0int));
                        }
                    }
                }
            } else {
                assert(!crate::checker::gate_constraint_ok(cs, gf, 0, 0, 0));
                assert(!crate::checker::gates_ok(cs, gf));
            }
            assert(crate::checker::lookups_ok(cs, gf));
            assert(ly.copies.pairs@.len() == 0);
            assert(crate::copy::copies_ok(ly.copies.pairs@, gf));
        }
        Ok(())
    }
}

} // verus!
