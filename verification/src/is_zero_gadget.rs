//! The zero-test gadget: exposes `is_zero_expr = 1 - v * inv` where `inv`
//! is an auxiliary witness intended to be the multiplicative inverse of the
//! tested value, or 0 when the value is 0.
//!
//! The registered gate constrains `q_enable * v * is_zero_expr = 0`: if
//! `v != 0` the only admissible indicator is 0, which forces `inv` to be
//! the true inverse; if `v = 0` that identity holds for any `inv`, and only the
//! witness-generation discipline (`inv = 0`) makes the indicator 1. That
//! asymmetry is inherent to the algebraic trick and is preserved here.

use crate::columns::{Column, ColumnKind, Rotation, Selector};
use crate::errors::Error;
use crate::expression::Expression;
use crate::field::{fmul, fsub, p, Fp};
use crate::layouter::Layouter;
use crate::system::ConstraintSystem;
use vstd::prelude::*;

verus! {

/// The value of the zero indicator `1 - v * inv` on canonical
/// representatives.
pub open spec fn is_zero_indicator(v: int, inv: int) -> int {
    fsub(1, fmul(v, inv))
}

/// Zero-test totality: with the witness set to the inverse of `v` when
/// `v != 0` and to 0 when `v == 0`, the indicator is 1 exactly when `v` is
/// 0 and 0 otherwise.
pub proof fn lemma_is_zero_totality(v: int, inv: int)
    requires
        0 <= v < p(),
        0 <= inv < p(),
        v == 0 ==> inv == 0,
        v != 0 ==> fmul(v, inv) == 1,
    ensures
        is_zero_indicator(v, inv) == if v == 0 {
            1int
        } else {
            0int
        },
{
    if v == 0 {
        assert(v * inv == 0);
        assert(fmul(v, inv) == 0) by {
            vstd::arithmetic::div_mod::lemma_small_mod(0, p() as nat);
        }
        assert(fsub(1, 0) == 1) by {
            vstd::arithmetic::div_mod::lemma_small_mod(1, p() as nat);
        }
    } else {
        assert(fsub(1, 1) == 0) by {
            vstd::arithmetic::div_mod::lemma_small_mod(0, p() as nat);
        }
    }
}

/// The advice column holding the inverse witness, and the indicator
/// expression the gadget exposes to its callers.
pub struct IsZeroConfig {
    pub value_inv: Column,
    pub is_zero_expr: Expression,
}

impl IsZeroConfig {
    /// The exposed indicator expression.
    pub fn expr(&self) -> (e: Expression)
        ensures
            e == self.is_zero_expr,
    {
        self.is_zero_expr.clone()
    }
}

/// The zero-test chip.
pub struct IsZeroChip {
    pub config: IsZeroConfig,
}

impl IsZeroChip {
    /// Wraps a configuration.
    pub fn construct(config: IsZeroConfig) -> (chip: IsZeroChip)
        ensures
            chip.config == config,
    {
        IsZeroChip { config }
    }

    /// Registers a gate `q_enable * value * (1 - value * value_inv)` and
    /// returns the configuration carrying the indicator expression.
    pub fn configure(
        meta: &mut ConstraintSystem,
        q_enable: Selector,
        value: Expression,
        value_inv: Column,
    ) -> (cfg: IsZeroConfig)
        requires
            old(meta).wf(),
            value.wf(),
        ensures
            final(meta).wf(),
            cfg.value_inv == value_inv,
            cfg.is_zero_expr == Expression::Difference(
                Box::new(Expression::Constant(Fp { v: 1 })),
                Box::new(
                    Expression::Product(
                        Box::new(value),
                        Box::new(Expression::Query(value_inv, Rotation { offset: 0 })),
                    ),
                ),
            ),
            cfg.is_zero_expr.wf(),
            final(meta).gates@.len() == old(meta).gates@.len() + 1,
            forall|i: int|
                0 <= i < old(meta).gates@.len() ==> #[trigger] final(meta).gates@[i] == old(meta).gates@[i],
            (final(meta).gates@[old(meta).gates@.len() as int].constraints)@.len() == 1,
            (final(meta).gates@[old(meta).gates@.len() as int].constraints)@[0]
                == Expression::Product(
                Box::new(Expression::SelectorQuery(q_enable)),
                Box::new(Expression::Product(Box::new(value), Box::new(cfg.is_zero_expr))),
            ),
            final(meta).n_advice == old(meta).n_advice,
            final(meta).n_fixed == old(meta).n_fixed,
            final(meta).n_instance == old(meta).n_instance,
            final(meta).n_selectors == old(meta).n_selectors,
            final(meta).equality_enabled == old(meta).equality_enabled,
            final(meta).constant_column == old(meta).constant_column,
            final(meta).lookups == old(meta).lookups,
    {
        let inv_query = Expression::query(value_inv, Rotation::cur());
        let one = Expression::constant(Fp::one());
        let is_zero_expr = one.sub(value.clone().mul(inv_query));
        let constraint = Expression::query_selector(q_enable).mul(
            value.clone().mul(is_zero_expr.clone()),
        );
        proof {
            assert(is_zero_expr.wf()) by {
                reveal_with_fuel(Expression::wf, 6);
            }
            assert(constraint.wf()) by {
                reveal_with_fuel(Expression::wf, 6);
            }
        }
        let mut constraints: Vec<Expression> = Vec::new();
        constraints.push(constraint);
        meta.create_gate("is zero", q_enable, constraints);
        IsZeroConfig { value_inv, is_zero_expr }
    }

    /// Assigns the inverse witness for `value` into the inverse column at
    /// `row`: the true inverse for a nonzero value, 0 for zero.
    pub fn assign(&self, ly: &mut Layouter, row: usize, value: Fp) -> (r: Result<(), Error>)
        requires
            old(ly).wf(),
            value.wf(),
            self.config.value_inv.kind == ColumnKind::Advice,
            self.config.value_inv.index < old(ly).cs.n_advice,
            row < old(ly).grid.n_rows,
            old(ly).grid.advice_at(self.config.value_inv.index as int, row as int) is None,
        ensures
            r is Ok,
            final(ly).wf(),
            Layouter::same_shape(*old(ly), *final(ly)),
            ({
                let iv = final(ly).grid.advice_at(self.config.value_inv.index as int, row as int);
                &&& iv matches Some(w) && ({
                    &&& value.val() == 0 ==> w == 0
                    &&& value.val() != 0 ==> fmul(value.val(), w) == 1
                })
            }),
            forall|c2: int, r2: int|
                !(c2 == self.config.value_inv.index && r2 == row) ==> #[trigger] final(ly).grid.advice_at(c2, r2) == old(ly).grid.advice_at(c2, r2),
            final(ly).grid.fixed == old(ly).grid.fixed,
            final(ly).grid.selectors == old(ly).grid.selectors,
            final(ly).copies == old(ly).copies,
            final(ly).next_row == old(ly).next_row,
            final(ly).next_constant_row == old(ly).next_constant_row,
    {
        let inv = value.invert_or_zero();
        let _ = ly.assign_advice(self.config.value_inv, row, inv)?;
        Ok(())
    }
}

} // verus!
