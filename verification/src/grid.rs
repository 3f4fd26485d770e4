//! The grid: concrete values for every advice, fixed and selector cell at
//! every row, together with the public-input vectors, and the concrete
//! evaluation of expressions over it.
//!
//! The grid has a fixed row count decided before any assignment; no cell
//! outside this bound may be addressed. Advice and fixed cells start
//! unassigned; selectors default to 0. Evaluating a query of a cell that was
//! never assigned yields no value, which the checker reports as a violation —
//! except under a factor that is known to be zero (in particular a disabled
//! selector), which makes the whole product zero without looking further, so
//! that gates are never evaluated as failing where their selector is 0.

use crate::columns::{Column, ColumnKind};
use crate::expression::Expression;
use crate::field::{fadd, fmul, fneg, fsub, p, Fp};
use vstd::prelude::*;

verus! {

/// The value of an optional field element, for specifications.
pub open spec fn val_opt(o: Option<Fp>) -> Option<int> {
    match o {
        Some(f) => Some(f.val()),
        None => None,
    }
}

/// The witness matrix for one circuit instance.
///
/// Advice and fixed columns are stored flat, column-major: the cell in
/// column `c` at row `r` sits at index `c * n_rows + r`. Selectors are
/// stored the same way. Instance columns hold the public-input vectors,
/// which may be shorter than the grid.
pub struct Grid {
    pub n_rows: usize,
    pub n_advice: usize,
    pub n_fixed: usize,
    pub n_selectors: usize,
    pub advice: Vec<Option<Fp>>,
    pub fixed: Vec<Option<Fp>>,
    pub selectors: Vec<bool>,
    pub instance: Vec<Vec<Fp>>,
}

impl Grid {
    /// Well-formedness: the flat vectors have the declared dimensions, every
    /// assigned value is a reduced field element, and the dimensions are
    /// small enough that flat indices cannot overflow.
    pub open spec fn wf(self) -> bool {
        &&& self.n_rows <= 0x100_0000
        &&& self.n_advice <= 0x40
        &&& self.n_fixed <= 0x40
        &&& self.n_selectors <= 0x40
        &&& self.advice@.len() == self.n_advice * self.n_rows
        &&& self.fixed@.len() == self.n_fixed * self.n_rows
        &&& self.selectors@.len() == self.n_selectors * self.n_rows
        &&& forall|i: int|
            0 <= i < self.advice@.len() ==> (#[trigger] self.advice@[i] matches Some(f) ==> f.wf())
        &&& forall|i: int|
            0 <= i < self.fixed@.len() ==> (#[trigger] self.fixed@[i] matches Some(f) ==> f.wf())
        &&& forall|i: int|
            0 <= i < self.instance@.len() ==> (#[trigger] self.instance@[i])@.len() <= self.n_rows
        &&& forall|i: int, j: int|
            0 <= i < self.instance@.len() && 0 <= j < (self.instance@[i])@.len() ==> (#[trigger] (
            self.instance@[i])@[j]).wf()
    }

    /// The value of the advice cell in column `c` at row `r`, if assigned.
    pub open spec fn advice_at(self, c: int, r: int) -> Option<int> {
        if 0 <= c < self.n_advice && 0 <= r < self.n_rows {
            val_opt(self.advice@[c * self.n_rows + r])
        } else {
            None
        }
    }

    /// The value of the fixed cell in column `c` at row `r`, if assigned.
    pub open spec fn fixed_at(self, c: int, r: int) -> Option<int> {
        if 0 <= c < self.n_fixed && 0 <= r < self.n_rows {
            val_opt(self.fixed@[c * self.n_rows + r])
        } else {
            None
        }
    }

    /// The public input in instance column `c` at row `r`, if provided.
    pub open spec fn instance_at(self, c: int, r: int) -> Option<int> {
        if 0 <= c < self.instance@.len() && 0 <= r < (self.instance@[c])@.len() {
            Some((self.instance@[c])@[r].val())
        } else {
            None
        }
    }

    /// Whether selector `s` is enabled at row `r`.
    pub open spec fn selector_at(self, s: int, r: int) -> bool {
        &&& 0 <= s < self.n_selectors
        &&& 0 <= r < self.n_rows
        &&& self.selectors@[s * self.n_rows + r]
    }

    /// The value a query of `column` sees at absolute row `r`.
    pub open spec fn query_at(self, column: Column, r: int) -> Option<int> {
        match column.kind {
            ColumnKind::Advice => self.advice_at(column.index as int, r),
            ColumnKind::Fixed => self.fixed_at(column.index as int, r),
            ColumnKind::Instance => self.instance_at(column.index as int, r),
        }
    }

    /// The value of the cell `cell`, if assigned.
    pub open spec fn cell_value(self, cell: Cell) -> Option<int> {
        self.query_at(cell.column, cell.row as int)
    }

    /// Concrete evaluation of an expression at a row.
    ///
    /// A product with a factor that evaluates to zero is zero even if the
    /// other factor has no value; otherwise an operator has a value only if
    /// both operands do.
    pub open spec fn eval(self, e: Expression, row: int) -> Option<int>
        decreases e,
    {
        match e {
            Expression::Constant(f) => Some(f.val()),
            Expression::Query(c, rot) => self.query_at(c, row + rot.offset),
            Expression::SelectorQuery(s) => Some(
                if self.selector_at(s.index as int, row) {
                    1int
                } else {
                    0int
                },
            ),
            Expression::Sum(a, b) => match (self.eval(*a, row), self.eval(*b, row)) {
                (Some(x), Some(y)) => Some(fadd(x, y)),
                _ => None,
            },
            Expression::Difference(a, b) => match (self.eval(*a, row), self.eval(*b, row)) {
                (Some(x), Some(y)) => Some(fsub(x, y)),
                _ => None,
            },
            Expression::Product(a, b) => {
                let ea = self.eval(*a, row);
                let eb = self.eval(*b, row);
                if ea == Some(0int) || eb == Some(0int) {
                    Some(0int)
                } else {
                    match (ea, eb) {
                        (Some(x), Some(y)) => Some(fmul(x, y)),
                        _ => None,
                    }
                }
            },
            Expression::Negated(a) => match self.eval(*a, row) {
                Some(x) => Some(fneg(x)),
                _ => None,
            },
        }
    }
}

pub use crate::columns::Cell;

/// A vector of `n` unassigned cells.
fn make_unassigned(n: usize) -> (r: Vec<Option<Fp>>)
    ensures
        r@.len() == n,
        forall|i: int| 0 <= i < n ==> (#[trigger] r@[i]) is None,
{
    let mut v: Vec<Option<Fp>> = Vec::new();
    let mut i: usize = 0;
    while i < n
        invariant
            i <= n,
            v@.len() == i,
            forall|j: int| 0 <= j < i ==> (#[trigger] v@[j]) is None,
        decreases n - i,
    {
        v.push(None);
        i = i + 1;
    }
    v
}

/// A vector of `n` disabled selector cells.
fn make_disabled(n: usize) -> (r: Vec<bool>)
    ensures
        r@.len() == n,
        forall|i: int| 0 <= i < n ==> !(#[trigger] r@[i]),
{
    let mut v: Vec<bool> = Vec::new();
    let mut i: usize = 0;
    while i < n
        invariant
            i <= n,
            v@.len() == i,
            forall|j: int| 0 <= j < i ==> !(#[trigger] v@[j]),
        decreases n - i,
    {
        v.push(false);
        i = i + 1;
    }
    v
}

impl Grid {
    /// A fresh grid: every advice and fixed cell unassigned, every selector
    /// disabled, the given public-input vectors installed.
    pub fn new(
        n_rows: usize,
        n_advice: usize,
        n_fixed: usize,
        n_selectors: usize,
        instance: Vec<Vec<Fp>>,
    ) -> (g: Grid)
        requires
            n_rows <= 0x100_0000,
            n_advice <= 0x40,
            n_fixed <= 0x40,
            n_selectors <= 0x40,
            forall|i: int| 0 <= i < instance@.len() ==> (#[trigger] instance@[i])@.len() <= n_rows,
            forall|i: int, j: int|
                0 <= i < instance@.len() && 0 <= j < (instance@[i])@.len() ==> (#[trigger] (
                instance@[i])@[j]).wf(),
        ensures
            g.wf(),
            g.n_rows == n_rows,
            g.n_advice == n_advice,
            g.n_fixed == n_fixed,
            g.n_selectors == n_selectors,
            g.instance == instance,
            forall|c: int, r: int| #[trigger] g.advice_at(c, r) is None,
            forall|c: int, r: int| #[trigger] g.fixed_at(c, r) is None,
            forall|s: int, r: int| !(#[trigger] g.selector_at(s, r)),
    {
        proof {
            assert(n_advice * n_rows <= 0x40 * 0x100_0000) by (nonlinear_arith)
                requires
                    n_advice <= 0x40,
                    n_rows <= 0x100_0000,
            ;
            assert(n_fixed * n_rows <= 0x40 * 0x100_0000) by (nonlinear_arith)
                requires
                    n_fixed <= 0x40,
                    n_rows <= 0x100_0000,
            ;
            assert(n_selectors * n_rows <= 0x40 * 0x100_0000) by (nonlinear_arith)
                requires
                    n_selectors <= 0x40,
                    n_rows <= 0x100_0000,
            ;
        }
        let g = Grid {
            n_rows,
            n_advice,
            n_fixed,
            n_selectors,
            advice: make_unassigned(n_advice * n_rows),
            fixed: make_unassigned(n_fixed * n_rows),
            selectors: make_disabled(n_selectors * n_rows),
            instance,
        };
        proof {
            assert forall|c: int, r: int| #[trigger] g.advice_at(c, r) is None by {
                if 0 <= c < g.n_advice && 0 <= r < g.n_rows {
                    lemma_flat_index_in_bounds(c, r, g.n_advice as int, g.n_rows as int);
                }
            }
            assert forall|c: int, r: int| #[trigger] g.fixed_at(c, r) is None by {
                if 0 <= c < g.n_fixed && 0 <= r < g.n_rows {
                    lemma_flat_index_in_bounds(c, r, g.n_fixed as int, g.n_rows as int);
                }
            }
            assert forall|s: int, r: int| !(#[trigger] g.selector_at(s, r)) by {
                if 0 <= s < g.n_selectors && 0 <= r < g.n_rows {
                    lemma_flat_index_in_bounds(s, r, g.n_selectors as int, g.n_rows as int);
                }
            }
        }
        g
    }

    /// Reads the advice cell in column `c` at row `r`.
    pub fn get_advice(&self, c: usize, r: usize) -> (o: Option<Fp>)
        requires
            self.wf(),
            c < self.n_advice,
            r < self.n_rows,
        ensures
            val_opt(o) == self.advice_at(c as int, r as int),
            o matches Some(f) ==> f.wf(),
    {
        proof {
            lemma_flat_index_in_bounds(c as int, r as int, self.n_advice as int, self.n_rows as int);
            lemma_flat_small(c as int, r as int, self.n_advice as int, self.n_rows as int);
        }
        self.advice[c * self.n_rows + r]
    }

    /// Reads the fixed cell in column `c` at row `r`.
    pub fn get_fixed(&self, c: usize, r: usize) -> (o: Option<Fp>)
        requires
            self.wf(),
            c < self.n_fixed,
            r < self.n_rows,
        ensures
            val_opt(o) == self.fixed_at(c as int, r as int),
            o matches Some(f) ==> f.wf(),
    {
        proof {
            lemma_flat_index_in_bounds(c as int, r as int, self.n_fixed as int, self.n_rows as int);
            lemma_flat_small(c as int, r as int, self.n_fixed as int, self.n_rows as int);
        }
        self.fixed[c * self.n_rows + r]
    }

    /// Writes the advice cell in column `c` at row `r`; all other state is
    /// untouched.
    pub fn set_advice(&mut self, c: usize, r: usize, f: Fp)
        requires
            old(self).wf(),
            c < old(self).n_advice,
            r < old(self).n_rows,
            f.wf(),
        ensures
            final(self).wf(),
            final(self).n_rows == old(self).n_rows,
            final(self).n_advice == old(self).n_advice,
            final(self).n_fixed == old(self).n_fixed,
            final(self).n_selectors == old(self).n_selectors,
            final(self).fixed == old(self).fixed,
            final(self).selectors == old(self).selectors,
            final(self).instance == old(self).instance,
            final(self).advice_at(c as int, r as int) == Some(f.val()),
            forall|c2: int, r2: int|
                !(c2 == c && r2 == r) ==> #[trigger] final(self).advice_at(c2, r2) == old(self).advice_at(
                    c2,
                    r2,
                ),
    {
        proof {
            lemma_flat_index_in_bounds(c as int, r as int, self.n_advice as int, self.n_rows as int);
            lemma_flat_small(c as int, r as int, self.n_advice as int, self.n_rows as int);
        }
        let idx = c * self.n_rows + r;
        self.advice.set(idx, Some(f));
        proof {
            assert forall|c2: int, r2: int| !(c2 == c && r2 == r) implies #[trigger] self.advice_at(
                c2,
                r2,
            ) == old(self).advice_at(c2, r2) by {
                if 0 <= c2 < self.n_advice && 0 <= r2 < self.n_rows {
                    lemma_flat_index_in_bounds(c2, r2, self.n_advice as int, self.n_rows as int);
                    if c2 * self.n_rows + r2 == c * self.n_rows + r {
                        lemma_flat_index_injective(c2, r2, c as int, r as int, self.n_rows as int);
                    }
                }
            }
        }
    }

    /// Writes the fixed cell in column `c` at row `r`; all other state is
    /// untouched.
    pub fn set_fixed(&mut self, c: usize, r: usize, f: Fp)
        requires
            old(self).wf(),
            c < old(self).n_fixed,
            r < old(self).n_rows,
            f.wf(),
        ensures
            final(self).wf(),
            final(self).n_rows == old(self).n_rows,
            final(self).n_advice == old(self).n_advice,
            final(self).n_fixed == old(self).n_fixed,
            final(self).n_selectors == old(self).n_selectors,
            final(self).advice == old(self).advice,
            final(self).selectors == old(self).selectors,
            final(self).instance == old(self).instance,
            final(self).fixed_at(c as int, r as int) == Some(f.val()),
            forall|c2: int, r2: int|
                !(c2 == c && r2 == r) ==> #[trigger] final(self).fixed_at(c2, r2) == old(self).fixed_at(
                    c2,
                    r2,
                ),
    {
        proof {
            lemma_flat_index_in_bounds(c as int, r as int, self.n_fixed as int, self.n_rows as int);
            lemma_flat_small(c as int, r as int, self.n_fixed as int, self.n_rows as int);
        }
        let idx = c * self.n_rows + r;
        self.fixed.set(idx, Some(f));
        proof {
            assert forall|c2: int, r2: int| !(c2 == c && r2 == r) implies #[trigger] self.fixed_at(
                c2,
                r2,
            ) == old(self).fixed_at(c2, r2) by {
                if 0 <= c2 < self.n_fixed && 0 <= r2 < self.n_rows {
                    lemma_flat_index_in_bounds(c2, r2, self.n_fixed as int, self.n_rows as int);
                    if c2 * self.n_rows + r2 == c * self.n_rows + r {
                        lemma_flat_index_injective(c2, r2, c as int, r as int, self.n_rows as int);
                    }
                }
            }
        }
    }

    /// Enables selector `s` at row `r`; all other state is untouched.
    pub fn set_selector(&mut self, s: usize, r: usize)
        requires
            old(self).wf(),
            s < old(self).n_selectors,
            r < old(self).n_rows,
        ensures
            final(self).wf(),
            final(self).n_rows == old(self).n_rows,
            final(self).n_advice == old(self).n_advice,
            final(self).n_fixed == old(self).n_fixed,
            final(self).n_selectors == old(self).n_selectors,
            final(self).advice == old(self).advice,
            final(self).fixed == old(self).fixed,
            final(self).instance == old(self).instance,
            final(self).selector_at(s as int, r as int),
            forall|s2: int, r2: int|
                !(s2 == s && r2 == r) ==> #[trigger] final(self).selector_at(s2, r2) == old(
                    self,
                ).selector_at(s2, r2),
    {
        proof {
            lemma_flat_index_in_bounds(
                s as int,
                r as int,
                self.n_selectors as int,
                self.n_rows as int,
            );
            lemma_flat_small(s as int, r as int, self.n_selectors as int, self.n_rows as int);
        }
        let idx = s * self.n_rows + r;
        self.selectors.set(idx, true);
        proof {
            assert forall|s2: int, r2: int| !(s2 == s && r2 == r) implies #[trigger] self
                .selector_at(s2, r2) == old(self).selector_at(s2, r2) by {
                if 0 <= s2 < self.n_selectors && 0 <= r2 < self.n_rows {
                    lemma_flat_index_in_bounds(s2, r2, self.n_selectors as int, self.n_rows as int);
                    if s2 * self.n_rows + r2 == s * self.n_rows + r {
                        lemma_flat_index_injective(s2, r2, s as int, r as int, self.n_rows as int);
                    }
                }
            }
        }
    }

    /// Reads the public input in instance column `c` at row `r`, if provided.
    pub fn get_instance(&self, c: usize, r: usize) -> (o: Option<Fp>)
        requires
            self.wf(),
        ensures
            val_opt(o) == self.instance_at(c as int, r as int),
            o matches Some(f) ==> f.wf(),
    {
        if c < self.instance.len() {
            let col = &self.instance[c];
            if r < col.len() {
                Some(col[r])
            } else {
                None
            }
        } else {
            None
        }
    }

    /// Reads the value a query of `column` sees at the signed absolute row
    /// `r`.
    pub fn query_value(&self, column: Column, r: i64) -> (o: Option<Fp>)
        requires
            self.wf(),
        ensures
            val_opt(o) == self.query_at(column, r as int),
            o matches Some(f) ==> f.wf(),
    {
        if r < 0 || r >= self.n_rows as i64 {
            match column.kind {
                ColumnKind::Advice => return None,
                ColumnKind::Fixed => return None,
                ColumnKind::Instance => {
                    // an instance column may be shorter than the grid, but
                    // never longer, so a row outside the grid is unprovided
                    return None;
                },
            }
        }
        let row = r as usize;
        match column.kind {
            ColumnKind::Advice => {
                if column.index < self.n_advice {
                    self.get_advice(column.index, row)
                } else {
                    None
                }
            },
            ColumnKind::Fixed => {
                if column.index < self.n_fixed {
                    self.get_fixed(column.index, row)
                } else {
                    None
                }
            },
            ColumnKind::Instance => self.get_instance(column.index, row),
        }
    }

    /// Concrete evaluation of an expression at a row, mirroring `eval`.
    pub fn eval_expr(&self, e: &Expression, row: usize) -> (o: Option<Fp>)
        requires
            self.wf(),
            e.wf(),
            row < self.n_rows,
        ensures
            val_opt(o) == self.eval(*e, row as int),
            o matches Some(f) ==> f.wf(),
        decreases *e,
    {
        match e {
            Expression::Constant(f) => Some(*f),
            Expression::Query(c, rot) => self.query_value(*c, row as i64 + rot.offset as i64),
            Expression::SelectorQuery(s) => {
                if s.index < self.n_selectors {
                    proof {
                        lemma_flat_index_in_bounds(
                            s.index as int,
                            row as int,
                            self.n_selectors as int,
                            self.n_rows as int,
                        );
                        lemma_flat_small(
                            s.index as int,
                            row as int,
                            self.n_selectors as int,
                            self.n_rows as int,
                        );
                    }
                    if self.selectors[s.index * self.n_rows + row] {
                        Some(Fp::one())
                    } else {
                        Some(Fp::zero())
                    }
                } else {
                    Some(Fp::zero())
                }
            },
            Expression::Sum(a, b) => {
                let ea = self.eval_expr(&**a, row);
                let eb = self.eval_expr(&**b, row);
                match (ea, eb) {
                    (Some(x), Some(y)) => Some(x.add(y)),
                    _ => None,
                }
            },
            Expression::Difference(a, b) => {
                let ea = self.eval_expr(&**a, row);
                let eb = self.eval_expr(&**b, row);
                match (ea, eb) {
                    (Some(x), Some(y)) => Some(x.sub(y)),
                    _ => None,
                }
            },
            Expression::Product(a, b) => {
                let ea = self.eval_expr(&**a, row);
                let eb = self.eval_expr(&**b, row);
                let a_zero = match ea {
                    Some(f) => f.v == 0,
                    None => false,
                };
                let b_zero = match eb {
                    Some(f) => f.v == 0,
                    None => false,
                };
                if a_zero || b_zero {
                    Some(Fp::zero())
                } else {
                    match (ea, eb) {
                        (Some(x), Some(y)) => Some(x.mul(y)),
                        _ => None,
                    }
                }
            },
            Expression::Negated(a) => {
                let ea = self.eval_expr(&**a, row);
                match ea {
                    Some(x) => Some(x.neg()),
                    None => None,
                }
            },
        }
    }

    /// Whether selector `s` is enabled at row `r`.
    pub fn is_selector_enabled(&self, s: usize, r: usize) -> (b: bool)
        requires
            self.wf(),
        ensures
            b == self.selector_at(s as int, r as int),
    {
        if s < self.n_selectors && r < self.n_rows {
            proof {
                lemma_flat_index_in_bounds(
                    s as int,
                    r as int,
                    self.n_selectors as int,
                    self.n_rows as int,
                );
                lemma_flat_small(s as int, r as int, self.n_selectors as int, self.n_rows as int);
            }
            self.selectors[s * self.n_rows + r]
        } else {
            false
        }
    }

    /// Reads the value of the cell `cell`, if assigned.
    pub fn get_cell_value(&self, cell: Cell) -> (o: Option<Fp>)
        requires
            self.wf(),
        ensures
            val_opt(o) == self.cell_value(cell),
            o matches Some(f) ==> f.wf(),
    {
        if cell.row >= self.n_rows {
            proof {
                lemma_cell_value_out_of_rows(*self, cell);
            }
            None
        } else {
            self.query_value(cell.column, cell.row as i64)
        }
    }
}

/// Any value produced by evaluation over a well-formed grid is a canonical
/// field element.
pub proof fn lemma_eval_in_range(g: Grid, e: Expression, row: int)
    requires
        g.wf(),
        e.wf(),
    ensures
        g.eval(e, row) matches Some(v) ==> 0 <= v < p(),
    decreases e,
{
    match e {
        Expression::Constant(_) => {},
        Expression::Query(c, rot) => {
            lemma_query_in_range(g, c, row + rot.offset);
        },
        Expression::SelectorQuery(_) => {},
        Expression::Sum(a, b) => {
            lemma_eval_in_range(g, *a, row);
            lemma_eval_in_range(g, *b, row);
        },
        Expression::Difference(a, b) => {
            lemma_eval_in_range(g, *a, row);
            lemma_eval_in_range(g, *b, row);
        },
        Expression::Product(a, b) => {
            lemma_eval_in_range(g, *a, row);
            lemma_eval_in_range(g, *b, row);
        },
        Expression::Negated(a) => {
            lemma_eval_in_range(g, *a, row);
        },
    }
}

/// Any value a query sees over a well-formed grid is a canonical field
/// element.
pub proof fn lemma_query_in_range(g: Grid, c: Column, r: int)
    requires
        g.wf(),
    ensures
        g.query_at(c, r) matches Some(v) ==> 0 <= v < p(),
{
    match c.kind {
        ColumnKind::Advice => {
            if 0 <= c.index < g.n_advice && 0 <= r < g.n_rows {
                lemma_flat_index_in_bounds(c.index as int, r, g.n_advice as int, g.n_rows as int);
            }
        },
        ColumnKind::Fixed => {
            if 0 <= c.index < g.n_fixed && 0 <= r < g.n_rows {
                lemma_flat_index_in_bounds(c.index as int, r, g.n_fixed as int, g.n_rows as int);
            }
        },
        ColumnKind::Instance => {},
    }
}

/// A flat, column-major index stays within the flat vector.
pub proof fn lemma_flat_index_in_bounds(c: int, r: int, n_cols: int, n_rows: int)
    requires
        0 <= c < n_cols,
        0 <= r < n_rows,
    ensures
        0 <= c * n_rows + r < n_cols * n_rows,
{
    assert(c * n_rows + r < n_cols * n_rows) by (nonlinear_arith)
        requires
            0 <= c < n_cols,
            0 <= r < n_rows,
    ;
    assert(0 <= c * n_rows) by (nonlinear_arith)
        requires
            0 <= c,
            0 <= n_rows,
    ;
}

/// With the dimension bounds of a well-formed grid, a flat index fits
/// comfortably below any machine word size.
pub proof fn lemma_flat_small(c: int, r: int, n_cols: int, n_rows: int)
    requires
        0 <= c < n_cols,
        0 <= r < n_rows,
        n_cols <= 0x40,
        n_rows <= 0x100_0000,
    ensures
        0 <= c * n_rows + r < 0x4000_0000,
{
    assert(0 <= c * n_rows + r < 0x4000_0000) by (nonlinear_arith)
        requires
            0 <= c < n_cols,
            0 <= r < n_rows,
            n_cols <= 0x40,
            n_rows <= 0x100_0000,
    ;
}

/// Two distinct in-range (column, row) addresses have distinct flat indices.
pub proof fn lemma_flat_index_injective(c1: int, r1: int, c2: int, r2: int, n_rows: int)
    requires
        0 <= r1 < n_rows,
        0 <= r2 < n_rows,
        0 <= c1,
        0 <= c2,
        c1 * n_rows + r1 == c2 * n_rows + r2,
    ensures
        c1 == c2 && r1 == r2,
{
    assert(c1 == c2 && r1 == r2) by (nonlinear_arith)
        requires
            0 <= r1 < n_rows,
            0 <= r2 < n_rows,
            0 <= c1,
            0 <= c2,
            c1 * n_rows + r1 == c2 * n_rows + r2,
    ;
}

/// A cell whose row lies outside the grid has no value.
pub proof fn lemma_cell_value_out_of_rows(g: Grid, cell: Cell)
    requires
        g.wf(),
        cell.row >= g.n_rows,
    ensures
        g.cell_value(cell) is None,
{
    match cell.column.kind {
        ColumnKind::Advice => {},
        ColumnKind::Fixed => {},
        ColumnKind::Instance => {
            if (cell.column.index as int) < g.instance@.len() {
                assert((g.instance@[cell.column.index as int])@.len() <= g.n_rows);
            }
        },
    }
}

} // verus!
