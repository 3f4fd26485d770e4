//! A gadget composed on top of the zero test: for inputs `a`, `b`, `c` it
//! exposes an output equal to `c` when `a == b` and to `a - b` otherwise,
//! using the zero-test indicator of `a - b` to select between the two
//! gates `s * indicator * (output - c)` and
//! `s * (1 - indicator) * (output - (a - b))`.

use crate::columns::{Column, ColumnKind, Rotation, Selector};
use crate::errors::Error;
use crate::expression::Expression;
use crate::field::{fmul, fsub, p, Fp};
use crate::grid::Grid;
use crate::is_zero_gadget::{IsZeroChip, IsZeroConfig};
use crate::layouter::Layouter;
use crate::system::ConstraintSystem;
use vstd::prelude::*;

verus! {

/// The columns, selector and embedded zero-test of the composed gadget.
pub struct ComposeConfig {
    pub a: Column,
    pub b: Column,
    pub c: Column,
    pub output: Column,
    pub selector: Selector,
    pub a_equals_b: IsZeroConfig,
}

impl ComposeConfig {
    /// The handles are declared in the system and pairwise distinct.
    pub open spec fn valid(self, cs: ConstraintSystem) -> bool {
        &&& self.a.kind == ColumnKind::Advice && self.a.index < cs.n_advice
        &&& self.b.kind == ColumnKind::Advice && self.b.index < cs.n_advice
        &&& self.c.kind == ColumnKind::Advice && self.c.index < cs.n_advice
        &&& self.output.kind == ColumnKind::Advice && self.output.index < cs.n_advice
        &&& self.a_equals_b.value_inv.kind == ColumnKind::Advice
        &&& self.a_equals_b.value_inv.index < cs.n_advice
        &&& self.a.index != self.b.index
        &&& self.a.index != self.c.index
        &&& self.a.index != self.output.index
        &&& self.b.index != self.c.index
        &&& self.b.index != self.output.index
        &&& self.c.index != self.output.index
        &&& self.a_equals_b.value_inv.index != self.a.index
        &&& self.a_equals_b.value_inv.index != self.b.index
        &&& self.a_equals_b.value_inv.index != self.c.index
        &&& self.a_equals_b.value_inv.index != self.output.index
        &&& self.selector.index < cs.n_selectors
    }
}

/// The tested expression of the embedded zero test: `a - b`.
pub open spec fn isz_value_expr(cfg: ComposeConfig) -> Expression {
    Expression::Difference(
        Box::new(Expression::Query(cfg.a, crate::columns::Rotation { offset: 0 })),
        Box::new(Expression::Query(cfg.b, crate::columns::Rotation { offset: 0 })),
    )
}

/// The zero-test constraint: `s * (a - b) * is_zero_expr`.
pub open spec fn compose_isz_gate_expr(cfg: ComposeConfig) -> Expression {
    Expression::Product(
        Box::new(Expression::SelectorQuery(cfg.selector)),
        Box::new(
            Expression::Product(
                Box::new(isz_value_expr(cfg)),
                Box::new(cfg.a_equals_b.is_zero_expr),
            ),
        ),
    )
}

/// The first selection constraint: `s * is_zero_expr * (output - c)`.
pub open spec fn compose_sel_c_expr(cfg: ComposeConfig) -> Expression {
    Expression::Product(
        Box::new(Expression::SelectorQuery(cfg.selector)),
        Box::new(
            Expression::Product(
                Box::new(cfg.a_equals_b.is_zero_expr),
                Box::new(
                    Expression::Difference(
                        Box::new(
                            Expression::Query(cfg.output, crate::columns::Rotation { offset: 0 }),
                        ),
                        Box::new(
                            Expression::Query(cfg.c, crate::columns::Rotation { offset: 0 }),
                        ),
                    ),
                ),
            ),
        ),
    )
}

/// The second selection constraint:
/// `s * (1 - is_zero_expr) * (output - (a - b))`.
pub open spec fn compose_sel_diff_expr(cfg: ComposeConfig) -> Expression {
    Expression::Product(
        Box::new(Expression::SelectorQuery(cfg.selector)),
        Box::new(
            Expression::Product(
                Box::new(
                    Expression::Difference(
                        Box::new(Expression::Constant(Fp { v: 1 })),
                        Box::new(cfg.a_equals_b.is_zero_expr),
                    ),
                ),
                Box::new(
                    Expression::Difference(
                        Box::new(
                            Expression::Query(cfg.output, crate::columns::Rotation { offset: 0 }),
                        ),
                        Box::new(isz_value_expr(cfg)),
                    ),
                ),
            ),
        ),
    )
}

/// The system holds exactly the zero-test gate and the two selection
/// constraints over `cfg`, and nothing else.
pub open spec fn compose_configured(cs: ConstraintSystem, cfg: ComposeConfig) -> bool {
    &&& cfg.valid(cs)
    &&& cfg.a_equals_b.is_zero_expr == Expression::Difference(
        Box::new(Expression::Constant(Fp { v: 1 })),
        Box::new(
            Expression::Product(
                Box::new(isz_value_expr(cfg)),
                Box::new(
                    Expression::Query(
                        cfg.a_equals_b.value_inv,
                        crate::columns::Rotation { offset: 0 },
                    ),
                ),
            ),
        ),
    )
    &&& cs.gates@.len() == 2
    &&& (cs.gates@[0].constraints)@.len() == 1
    &&& (cs.gates@[0].constraints)@[0] == compose_isz_gate_expr(cfg)
    &&& (cs.gates@[1].constraints)@.len() == 2
    &&& (cs.gates@[1].constraints)@[0] == compose_sel_c_expr(cfg)
    &&& (cs.gates@[1].constraints)@[1] == compose_sel_diff_expr(cfg)
    &&& cs.lookups@.len() == 0
}

/// The composed chip.
pub struct ComposeChip {
    pub config: ComposeConfig,
}

impl ComposeChip {
    /// Wraps a configuration.
    pub fn construct(config: ComposeConfig) -> (chip: ComposeChip)
        ensures
            chip.config == config,
    {
        ComposeChip { config }
    }

    /// Declares the columns and selector, configures the embedded zero test
    /// on `a - b`, and registers the two selection gates.
    pub fn configure(meta: &mut ConstraintSystem) -> (cfg: ComposeConfig)
        requires
            old(meta).wf(),
            old(meta).n_advice + 5 <= 0x40,
            old(meta).n_selectors < 0x40,
            old(meta).gates@.len() == 0,
            old(meta).lookups@.len() == 0,
        ensures
            final(meta).wf(),
            cfg.valid(*final(meta)),
            compose_configured(*final(meta), cfg),
    {
        let selector = meta.selector();
        let a = meta.advice_column();
        let b = meta.advice_column();
        let c = meta.advice_column();
        let output = meta.advice_column();
        let is_zero_advice_column = meta.advice_column();

        let value = Expression::query(a, Rotation::cur()).sub(
            Expression::query(b, Rotation::cur()),
        );
        proof {
            assert(value.wf()) by {
                reveal_with_fuel(Expression::wf, 6);
            }
        }
        let a_equals_b = IsZeroChip::configure(meta, selector, value, is_zero_advice_column);

        let s = Expression::query_selector(selector);
        let a_q = Expression::query(a, Rotation::cur());
        let b_q = Expression::query(b, Rotation::cur());
        let c_q = Expression::query(c, Rotation::cur());
        let out_q = Expression::query(output, Rotation::cur());
        let one = Expression::constant(Fp::one());

        let first = s.clone().mul(a_equals_b.expr().mul(out_q.clone().sub(c_q)));
        let second = s.mul(
            (one.sub(a_equals_b.expr())).mul(out_q.sub(a_q.sub(b_q))),
        );
        proof {
            assert(first.wf()) by {
                reveal_with_fuel(Expression::wf, 8);
            }
            assert(second.wf()) by {
                reveal_with_fuel(Expression::wf, 8);
            }
        }
        let mut constraints: Vec<Expression> = Vec::new();
        constraints.push(first);
        constraints.push(second);
        meta.create_gate("select on equality", selector, constraints);
        ComposeConfig { a, b, c, output, selector, a_equals_b }
    }

    /// Assigns one row of the gadget: the inputs, the inverse witness for
    /// `a - b`, and the output, which equals `c` when `a == b` and `a - b`
    /// otherwise.
    pub fn assign(&self, ly: &mut Layouter, a: Fp, b: Fp, c: Fp) -> (r: Result<Cell, Error>)
        requires
            old(ly).wf(),
            self.config.valid(old(ly).cs),
            a.wf(),
            b.wf(),
            c.wf(),
            old(ly).next_row < old(ly).grid.n_rows,
            forall|c2: int, r2: int|
                r2 >= old(ly).next_row ==> #[trigger] old(ly).grid.advice_at(c2, r2) is None,
        ensures
            r is Ok,
            final(ly).wf(),
            Layouter::same_shape(*old(ly), *final(ly)),
            r matches Ok(out_cell) ==> ({
                let row = old(ly).next_row as int;
                &&& out_cell == Cell { column: self.config.output, row: old(ly).next_row }
                &&& final(ly).grid.advice_at(self.config.output.index as int, row) == Some(
                    if a.val() == b.val() {
                        c.val()
                    } else {
                        fsub(a.val(), b.val())
                    },
                )
                &&& final(ly).grid.advice_at(self.config.a.index as int, row) == Some(a.val())
                &&& final(ly).grid.advice_at(self.config.b.index as int, row) == Some(b.val())
                &&& final(ly).grid.advice_at(self.config.c.index as int, row) == Some(c.val())
                &&& final(ly).grid.advice_at(
                    self.config.a_equals_b.value_inv.index as int,
                    row,
                ) matches Some(w) && ({
                    &&& fsub(a.val(), b.val()) == 0 ==> w == 0
                    &&& fsub(a.val(), b.val()) != 0 ==> fmul(fsub(a.val(), b.val()), w) == 1
                })
                &&& final(ly).grid.selector_at(self.config.selector.index as int, row)
            }),
            (compose_configured(old(ly).cs, self.config) && old(ly).copies.pairs@.len() == 0
                && (forall|s2: int, r2: int| !(#[trigger] old(ly).grid.selector_at(s2, r2))))
                ==> crate::checker::satisfies(*final(ly)),
    {
        let cfg = &self.config;
        let is_zero_chip = IsZeroChip::construct(
            IsZeroConfig {
                value_inv: cfg.a_equals_b.value_inv,
                is_zero_expr: cfg.a_equals_b.expr(),
            },
        );
        let row = ly.assign_region("select on equality", 1)?;
        ly.enable_selector(cfg.selector, row)?;
        let ghost g_e = ly.grid;
        proof {
            assert forall|c2: int| (#[trigger] ly.grid.advice_at(c2, row as int)) is None by {
                assert(old(ly).grid.advice_at(c2, row as int) is None);
            }
        }
        let _ = ly.assign_advice(cfg.a, row, a)?;
        let _ = ly.assign_advice(cfg.b, row, b)?;
        let _ = ly.assign_advice(cfg.c, row, c)?;
        let ghost g_c = ly.grid;
        is_zero_chip.assign(ly, row, a.sub(b))?;
        let ghost g_i = ly.grid;
        let output = if a.v == b.v {
            c
        } else {
            a.sub(b)
        };
        let out_cell = ly.assign_advice(cfg.output, row, output)?;
        proof {
            if a.val() == b.val() {
            } else {
                assert(output.val() == fsub(a.val(), b.val()));
            }
            let gf = ly.grid;
            let rowi = row as int;
            assert(gf.advice_at(cfg.a.index as int, rowi) == g_i.advice_at(
                cfg.a.index as int,
                rowi,
            ));
            assert(g_i.advice_at(cfg.a.index as int, rowi) == g_c.advice_at(
                cfg.a.index as int,
                rowi,
            ));
            assert(gf.advice_at(cfg.b.index as int, rowi) == g_i.advice_at(
                cfg.b.index as int,
                rowi,
            ));
            assert(g_i.advice_at(cfg.b.index as int, rowi) == g_c.advice_at(
                cfg.b.index as int,
                rowi,
            ));
            assert(gf.advice_at(cfg.c.index as int, rowi) == g_i.advice_at(
                cfg.c.index as int,
                rowi,
            ));
            assert(g_i.advice_at(cfg.c.index as int, rowi) == g_c.advice_at(
                cfg.c.index as int,
                rowi,
            ));
            assert(gf.advice_at(cfg.a_equals_b.value_inv.index as int, rowi) == g_i.advice_at(
                cfg.a_equals_b.value_inv.index as int,
                rowi,
            ));
            if compose_configured(old(ly).cs, *cfg) && old(ly).copies.pairs@.len() == 0 && (
            forall|s2: int, r2: int| !(#[trigger] old(ly).grid.selector_at(s2, r2))) {
                let av = a.val();
                let bv = b.val();
                let cv = c.val();
                let ov = output.val();
                let w = gf.advice_at(cfg.a_equals_b.value_inv.index as int, rowi)->Some_0;
                assert(0 <= w < p()) by {
                    crate::grid::lemma_query_in_range(gf, cfg.a_equals_b.value_inv, rowi);
                }
                assert forall|s2: int, r2: int|
                    #[trigger] gf.selector_at(s2, r2) <==> (s2 == cfg.selector.index && r2
                        == rowi) by {
                    if !(s2 == cfg.selector.index && r2 == rowi) {
                        assert(gf.selector_at(s2, r2) == g_e.selector_at(s2, r2));
                        assert(g_e.selector_at(s2, r2) == old(ly).grid.selector_at(s2, r2));
                    } else {
                        assert(gf.selector_at(s2, r2) == g_e.selector_at(s2, r2));
                    }
                }
                assert(forall|r2: int|
                    #[trigger] gf.selector_at(cfg.selector.index as int, r2) <==> r2 == rowi);
                lemma_compose_gates_satisfied(*cfg, gf, rowi, av, bv, cv, w, ov);
                let cs = ly.cs;
                assert(crate::checker::gates_ok(cs, gf)) by {
                    assert forall|gi: int, ci: int, rr: int|
                        0 <= gi < cs.gates@.len() && 0 <= ci < (cs.gates@[gi].constraints)@.len()
                            && 0 <= rr < gf.n_rows implies
                        #[trigger] crate::checker::gate_constraint_ok(cs, gf, gi, ci, rr) by {
                        if gi == 0 {
                            assert(gf.eval(compose_isz_gate_expr(*cfg), rr) == Some(0int));
                        } else {
                            assert(gf.eval(compose_sel_c_expr(*cfg), rr) == Some(0int));
                            assert(gf.eval(compose_sel_diff_expr(*cfg), rr) == Some(0int));
                        }
                    }
                }
                assert(crate::checker::lookups_ok(cs, gf));
                assert(ly.copies.pairs@.len() == 0);
                assert(crate::copy::copies_ok(ly.copies.pairs@, gf));
            }
        }
        Ok(out_cell)
    }
}

pub use crate::columns::Cell;

/// On a grid whose one enabled row carries the gadget's witness — inputs,
/// the inverse-witness discipline for `a - b`, and the selected output —
/// all three registered constraints evaluate to zero at every row.
proof fn lemma_compose_gates_satisfied(
    cfg: ComposeConfig,
    g: Grid,
    row: int,
    av: int,
    bv: int,
    cv: int,
    w: int,
    ov: int,
)
    requires
        g.wf(),
        cfg.a.kind == ColumnKind::Advice,
        cfg.b.kind == ColumnKind::Advice,
        cfg.c.kind == ColumnKind::Advice,
        cfg.output.kind == ColumnKind::Advice,
        cfg.a_equals_b.value_inv.kind == ColumnKind::Advice,
        cfg.a_equals_b.is_zero_expr == Expression::Difference(
            Box::new(Expression::Constant(Fp { v: 1 })),
            Box::new(
                Expression::Product(
                    Box::new(isz_value_expr(cfg)),
                    Box::new(
                        Expression::Query(
                            cfg.a_equals_b.value_inv,
                            crate::columns::Rotation { offset: 0 },
                        ),
                    ),
                ),
            ),
        ),
        g.advice_at(cfg.a.index as int, row) == Some(av),
        g.advice_at(cfg.b.index as int, row) == Some(bv),
        g.advice_at(cfg.c.index as int, row) == Some(cv),
        g.advice_at(cfg.a_equals_b.value_inv.index as int, row) == Some(w),
        g.advice_at(cfg.output.index as int, row) == Some(ov),
        0 <= av < p(),
        0 <= bv < p(),
        0 <= cv < p(),
        0 <= w < p(),
        fsub(av, bv) == 0 ==> w == 0,
        fsub(av, bv) != 0 ==> fmul(fsub(av, bv), w) == 1,
        ov == (if av == bv {
            cv
        } else {
            fsub(av, bv)
        }),
        forall|r2: int| #[trigger] g.selector_at(cfg.selector.index as int, r2) <==> r2 == row,
    ensures
        forall|r2: int| #[trigger] g.eval(compose_isz_gate_expr(cfg), r2) == Some(0int),
        forall|r2: int| #[trigger] g.eval(compose_sel_c_expr(cfg), r2) == Some(0int),
        forall|r2: int| #[trigger] g.eval(compose_sel_diff_expr(cfg), r2) == Some(0int),
{
    let se = Expression::SelectorQuery(cfg.selector);
    let qa = Expression::Query(cfg.a, crate::columns::Rotation { offset: 0 });
    let qb = Expression::Query(cfg.b, crate::columns::Rotation { offset: 0 });
    let qc = Expression::Query(cfg.c, crate::columns::Rotation { offset: 0 });
    let qout = Expression::Query(cfg.output, crate::columns::Rotation { offset: 0 });
    let qinv = Expression::Query(
        cfg.a_equals_b.value_inv,
        crate::columns::Rotation { offset: 0 },
    );
    let ve = isz_value_expr(cfg);
    let ize = cfg.a_equals_b.is_zero_expr;
    let c1 = Expression::Constant(Fp { v: 1 });
    let ip = Expression::Product(Box::new(ve), Box::new(qinv));
    let d = fsub(av, bv);
    vstd::arithmetic::div_mod::lemma_mod_bound(av - bv, p());
    // the equality test and the indicator value at the witness row
    assert(d == 0 <==> av == bv) by {
        if av == bv {
            vstd::arithmetic::div_mod::lemma_small_mod(0, p() as nat);
        } else if av > bv {
            vstd::arithmetic::div_mod::lemma_small_mod((av - bv) as nat, p() as nat);
        } else {
            vstd::arithmetic::div_mod::lemma_mod_add_multiples_vanish(av - bv, p());
            vstd::arithmetic::div_mod::lemma_small_mod((p() + av - bv) as nat, p() as nat);
        }
    }
    let ind: int = if d == 0 {
        1int
    } else {
        0int
    };
    assert(fsub(1, 0) == 1 && fsub(1, 1) == 0) by {
        vstd::arithmetic::div_mod::lemma_small_mod(1, p() as nat);
        vstd::arithmetic::div_mod::lemma_small_mod(0, p() as nat);
    }
    assert forall|r2: int|
        #[trigger] g.eval(compose_isz_gate_expr(cfg), r2) == Some(0int) && g.eval(
            compose_sel_c_expr(cfg),
            r2,
        ) == Some(0int) && g.eval(compose_sel_diff_expr(cfg), r2) == Some(0int) by {
        if r2 != row {
            assert(g.eval(se, r2) == Some(0int));
            assert(g.eval(compose_isz_gate_expr(cfg), r2) == Some(0int));
            assert(g.eval(compose_sel_c_expr(cfg), r2) == Some(0int));
            assert(g.eval(compose_sel_diff_expr(cfg), r2) == Some(0int));
        } else {
            assert(g.eval(se, r2) == Some(1int));
            assert(g.eval(qa, r2) == Some(av));
            assert(g.eval(qb, r2) == Some(bv));
            assert(g.eval(qc, r2) == Some(cv));
            assert(g.eval(qout, r2) == Some(ov));
            assert(g.eval(qinv, r2) == Some(w));
            assert(g.eval(ve, r2) == Some(d));
            assert(g.eval(c1, r2) == Some(1int));
            // the inner product (a - b) * inv and the indicator
            if d == 0 {
                assert(g.eval(ip, r2) == Some(0int));
            } else {
                assert(w != 0) by {
                    if w == 0 {
                        assert(d * 0 == 0) by (nonlinear_arith);
                        vstd::arithmetic::div_mod::lemma_small_mod(0, p() as nat);
                    }
                }
                assert(g.eval(ip, r2) == Some(fmul(d, w)));
            }
            assert(g.eval(ize, r2) == Some(ind));
            // zero-test gate: one factor of (a - b) * indicator is zero
            let g0i = Expression::Product(Box::new(ve), Box::new(ize));
            if d == 0 {
                assert(g.eval(g0i, r2) == Some(0int));
            } else {
                assert(g.eval(g0i, r2) == Some(0int));
            }
            assert(g.eval(compose_isz_gate_expr(cfg), r2) == Some(0int));
            // first selection: indicator * (output - c)
            let d0 = Expression::Difference(Box::new(qout), Box::new(qc));
            assert(g.eval(d0, r2) == Some(fsub(ov, cv)));
            let g1i = Expression::Product(Box::new(ize), Box::new(d0));
            if av == bv {
                assert(fsub(ov, cv) == 0) by {
                    vstd::arithmetic::div_mod::lemma_small_mod(0, p() as nat);
                }
                assert(g.eval(g1i, r2) == Some(0int));
            } else {
                assert(g.eval(g1i, r2) == Some(0int));
            }
            assert(g.eval(compose_sel_c_expr(cfg), r2) == Some(0int));
            // second selection: (1 - indicator) * (output - (a - b))
            let om = Expression::Difference(Box::new(c1), Box::new(ize));
            assert(g.eval(om, r2) == Some(fsub(1, ind)));
            let d1 = Expression::Difference(Box::new(qout), Box::new(ve));
            assert(g.eval(d1, r2) == Some(fsub(ov, d)));
            let g2i = Expression::Product(Box::new(om), Box::new(d1));
            if av == bv {
                assert(g.eval(g2i, r2) == Some(0int));
            } else {
                assert(fsub(ov, d) == 0) by {
                    vstd::arithmetic::div_mod::lemma_small_mod(0, p() as nat);
                }
                assert(g.eval(g2i, r2) == Some(0int));
            }
            assert(g.eval(compose_sel_diff_expr(cfg), r2) == Some(0int));
        }
    }
    assert forall|r2: int| #[trigger] g.eval(compose_sel_c_expr(cfg), r2) == Some(0int) by {
        let probe = g.eval(compose_isz_gate_expr(cfg), r2);
    }
    assert forall|r2: int| #[trigger] g.eval(compose_sel_diff_expr(cfg), r2) == Some(0int) by {
        let probe = g.eval(compose_isz_gate_expr(cfg), r2);
    }
}

} // verus!
