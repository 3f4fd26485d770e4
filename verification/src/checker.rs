//! The witness checker: evaluates every registered gate constraint at every
//! row, every lookup argument at every enabled row, and every recorded copy
//! constraint, and reports *all* violations rather than only the first.
//!
//! The checker stands in for the proving backend's soundness check: the
//! report is empty exactly when the populated grid satisfies the registered
//! constraint system. Its contract is exact in both directions: the report
//! holds a violation if and only if that violation names a constraint that
//! really fails, and it never repeats one.

use crate::columns::{Cell, Column};
use crate::copy::copies_ok;
use crate::field::{Fp, FIELD_MODULUS};
use crate::grid::{lemma_query_in_range, Grid};
use crate::layouter::Layouter;
use crate::system::ConstraintSystem;
use vstd::prelude::*;

verus! {

/// One reported violation.
#[derive(Clone, Copy, Debug, PartialEq, Eq, Structural)]
pub enum Violation {
    /// The `constraint`-th expression of gate `gate` does not evaluate to
    /// zero at `row` (or touches an unassigned cell there).
    Constraint { gate: usize, constraint: usize, row: usize },
    /// The input of lookup argument `lookup` is enabled at `row` but its
    /// value is absent from the table (or has no value).
    Lookup { lookup: usize, row: usize },
    /// The recorded copy pair of `a` and `b` carries two different values.
    CopyMismatch { a: Cell, b: Cell, a_value: Fp, b_value: Fp },
}

/// Whether the `ci`-th constraint of gate `gi` holds at row `r`: it
/// evaluates to the additive identity.
pub open spec fn gate_constraint_ok(cs: ConstraintSystem, g: Grid, gi: int, ci: int, r: int) -> bool {
    g.eval((cs.gates@[gi].constraints)@[ci], r) == Some(0int)
}

/// Whether every constraint of every gate holds at every row.
pub open spec fn gates_ok(cs: ConstraintSystem, g: Grid) -> bool {
    forall|gi: int, ci: int, r: int|
        0 <= gi < cs.gates@.len() && 0 <= ci < (cs.gates@[gi].constraints)@.len() && 0 <= r
            < g.n_rows ==> #[trigger] gate_constraint_ok(cs, g, gi, ci, r)
}

/// Whether `v` appears somewhere in the fixed column `table`.
pub open spec fn table_contains(g: Grid, table: Column, v: int) -> bool {
    exists|tr: int| 0 <= tr < g.n_rows && #[trigger] g.fixed_at(table.index as int, tr) == Some(v)
}

/// Whether lookup argument `li` holds at row `r`: wherever its selector is
/// enabled, its input has a value and that value appears in the table.
pub open spec fn lookup_row_ok(cs: ConstraintSystem, g: Grid, li: int, r: int) -> bool {
    g.selector_at(cs.lookups@[li].selector.index as int, r) ==> match g.eval(
        cs.lookups@[li].input,
        r,
    ) {
        Some(v) => table_contains(g, cs.lookups@[li].table, v),
        None => false,
    }
}

/// Whether every lookup argument holds at every row.
pub open spec fn lookups_ok(cs: ConstraintSystem, g: Grid) -> bool {
    forall|li: int, r: int|
        0 <= li < cs.lookups@.len() && 0 <= r < g.n_rows ==> #[trigger] lookup_row_ok(cs, g, li, r)
}

/// Whether the populated grid satisfies the whole registered system: all
/// gates, all lookups, all copy constraints.
pub open spec fn satisfies(ly: Layouter) -> bool {
    &&& gates_ok(ly.cs, ly.grid)
    &&& lookups_ok(ly.cs, ly.grid)
    &&& copies_ok(ly.copies.pairs@, ly.grid)
}

/// Whether a violation names a constraint that really fails on this
/// layouter's grid.
pub open spec fn violation_valid(ly: Layouter, v: Violation) -> bool {
    match v {
        Violation::Constraint { gate, constraint, row } => {
            &&& gate < ly.cs.gates@.len()
            &&& constraint < (ly.cs.gates@[gate as int].constraints)@.len()
            &&& row < ly.grid.n_rows
            &&& !gate_constraint_ok(ly.cs, ly.grid, gate as int, constraint as int, row as int)
        },
        Violation::Lookup { lookup, row } => {
            &&& lookup < ly.cs.lookups@.len()
            &&& row < ly.grid.n_rows
            &&& !lookup_row_ok(ly.cs, ly.grid, lookup as int, row as int)
        },
        Violation::CopyMismatch { a, b, a_value, b_value } => {
            &&& ly.copies.pairs@.contains((a, b))
            &&& ly.grid.cell_value(a) == Some(a_value.val())
            &&& ly.grid.cell_value(b) == Some(b_value.val())
            &&& a_value.val() != b_value.val()
        },
    }
}

/// Whether `v` is a constraint violation of gate `gi`, constraint `ci`.
pub open spec fn gate_viol_of(v: Violation, gi: int, ci: int) -> bool {
    match v {
        Violation::Constraint { gate, constraint, row } => gate == gi && constraint == ci,
        _ => false,
    }
}

/// The row a gate or lookup violation names.
pub open spec fn viol_row(v: Violation) -> int {
    match v {
        Violation::Constraint { gate, constraint, row } => row as int,
        Violation::Lookup { lookup, row } => row as int,
        _ => -1,
    }
}

/// The violations of one gate constraint over all rows, in row order.
fn check_constraint_rows(ly: &Layouter, gi: usize, ci: usize) -> (vs: Vec<Violation>)
    requires
        ly.wf(),
        gi < ly.cs.gates@.len(),
        ci < (ly.cs.gates@[gi as int].constraints)@.len(),
    ensures
        forall|v: Violation| #![trigger vs@.contains(v)]
            vs@.contains(v) <==> (violation_valid(*ly, v) && gate_viol_of(v, gi as int, ci as int)),
        vs@.no_duplicates(),
{
    let mut vs: Vec<Violation> = Vec::new();
    let n_rows = ly.grid.n_rows;
    let gate = &ly.cs.gates[gi];
    let e = &gate.constraints[ci];
    let mut r: usize = 0;
    while r < n_rows
        invariant
            ly.wf(),
            gi < ly.cs.gates@.len(),
            ci < (ly.cs.gates@[gi as int].constraints)@.len(),
            e == &(ly.cs.gates@[gi as int].constraints)@[ci as int],
            n_rows == ly.grid.n_rows,
            r <= n_rows,
            forall|v: Violation| #![trigger vs@.contains(v)]
                vs@.contains(v) <==> (violation_valid(*ly, v) && gate_viol_of(v, gi as int, ci as int)
                    && viol_row(v) < r),
            forall|i: int|
                0 <= i < vs@.len() ==> gate_viol_of(#[trigger] vs@[i], gi as int, ci as int)
                    && viol_row(vs@[i]) < r,
            vs@.no_duplicates(),
        decreases n_rows - r,
    {
        let ghost vs0 = vs@;
        let val = ly.grid.eval_expr(e, r);
        let failed = match val {
            Some(f) => f.v != 0,
            None => true,
        };
        let ghost cur = Violation::Constraint { gate: gi, constraint: ci, row: r };
        if failed {
            proof {
                assert(!vs@.contains(cur));
                assert(violation_valid(*ly, cur));
            }
            vs.push(Violation::Constraint { gate: gi, constraint: ci, row: r });
        }
        proof {
            if !failed {
                assert(gate_constraint_ok(ly.cs, ly.grid, gi as int, ci as int, r as int));
            }
            assert forall|v: Violation| (violation_valid(*ly, v) && gate_viol_of(
                v,
                gi as int,
                ci as int,
            ) && viol_row(v) < r + 1) implies vs@.contains(v) by {
                if viol_row(v) == r {
                    assert(v == cur);
                    assert(vs@ == vs0.push(cur));
                    assert(vs@[vs0.len() as int] == cur);
                } else {
                    assert(vs0.contains(v));
                    let i = choose|i: int| 0 <= i < vs0.len() && vs0[i] == v;
                    assert(vs@[i] == v);
                }
            }
            assert forall|v: Violation| vs@.contains(v) implies (violation_valid(*ly, v)
                && gate_viol_of(v, gi as int, ci as int) && viol_row(v) < r + 1) by {
                let i = choose|i: int| 0 <= i < vs@.len() && vs@[i] == v;
                if i < vs0.len() {
                    assert(vs0[i] == v);
                    assert(vs0.contains(v));
                }
            }
        }
        r = r + 1;
    }
    vs
}

/// Whether `v` is a lookup violation of lookup argument `li`.
pub open spec fn lookup_viol_of(v: Violation, li: int) -> bool {
    match v {
        Violation::Lookup { lookup, row } => lookup == li,
        _ => false,
    }
}

/// The presence index of one table column: for each field element, whether
/// it appears in the column. Built once per table and reused for every
/// lookup row.
fn build_presence(g: &Grid, table: Column) -> (pr: Vec<bool>)
    requires
        g.wf(),
    ensures
        pr@.len() == FIELD_MODULUS,
        forall|v: int| 0 <= v < FIELD_MODULUS ==> (pr@[v] <==> table_contains(*g, table, v)),
{
    let mut pr: Vec<bool> = Vec::new();
    let mut i: usize = 0;
    while i < FIELD_MODULUS as usize
        invariant
            i <= FIELD_MODULUS,
            pr@.len() == i,
            forall|v: int| 0 <= v < i ==> !pr@[v],
        decreases FIELD_MODULUS - i,
    {
        pr.push(false);
        i = i + 1;
    }
    let n_rows = g.n_rows;
    let mut tr: usize = 0;
    while tr < n_rows
        invariant
            g.wf(),
            n_rows == g.n_rows,
            tr <= n_rows,
            pr@.len() == FIELD_MODULUS,
            forall|v: int|
                0 <= v < FIELD_MODULUS ==> (pr@[v] <==> exists|t: int|
                    0 <= t < tr && #[trigger] g.fixed_at(table.index as int, t) == Some(v)),
        decreases n_rows - tr,
    {
        let ghost pr0 = pr@;
        if table.index < g.n_fixed {
            match g.get_fixed(table.index, tr) {
                Some(f) => {
                    pr.set(f.v as usize, true);
                },
                None => {},
            }
        }
        proof {
            assert forall|v: int| 0 <= v < FIELD_MODULUS implies (pr@[v] <==> exists|t: int|
                0 <= t < tr + 1 && #[trigger] g.fixed_at(table.index as int, t) == Some(v)) by {
                if g.fixed_at(table.index as int, tr as int) == Some(v) {
                    assert(pr@[v]);
                } else {
                    assert(pr@[v] == pr0[v]);
                    if pr@[v] {
                        let t = choose|t: int|
                            0 <= t < tr && #[trigger] g.fixed_at(table.index as int, t) == Some(v);
                        assert(0 <= t < tr + 1 && g.fixed_at(table.index as int, t) == Some(v));
                    } else {
                        if exists|t: int|
                            0 <= t < tr + 1 && #[trigger] g.fixed_at(table.index as int, t) == Some(
                            v,
                        ) {
                            let t = choose|t: int|
                                0 <= t < tr + 1 && #[trigger] g.fixed_at(table.index as int, t)
                                    == Some(v);
                            assert(0 <= t < tr && g.fixed_at(table.index as int, t) == Some(v));
                        }
                    }
                }
            }
        }
        tr = tr + 1;
    }
    pr
}

/// The violations of one lookup argument over all rows, in row order.
fn check_lookup_rows(ly: &Layouter, li: usize) -> (vs: Vec<Violation>)
    requires
        ly.wf(),
        li < ly.cs.lookups@.len(),
    ensures
        forall|v: Violation| #![trigger vs@.contains(v)]
            vs@.contains(v) <==> (violation_valid(*ly, v) && lookup_viol_of(v, li as int)),
        vs@.no_duplicates(),
{
    let mut vs: Vec<Violation> = Vec::new();
    let n_rows = ly.grid.n_rows;
    let la = &ly.cs.lookups[li];
    let presence = build_presence(&ly.grid, la.table);
    let mut r: usize = 0;
    while r < n_rows
        invariant
            ly.wf(),
            li < ly.cs.lookups@.len(),
            la == &ly.cs.lookups@[li as int],
            n_rows == ly.grid.n_rows,
            r <= n_rows,
            presence@.len() == FIELD_MODULUS,
            forall|v: int|
                0 <= v < FIELD_MODULUS ==> (presence@[v] <==> table_contains(
                    ly.grid,
                    ly.cs.lookups@[li as int].table,
                    v,
                )),
            forall|v: Violation| #![trigger vs@.contains(v)]
                vs@.contains(v) <==> (violation_valid(*ly, v) && lookup_viol_of(v, li as int)
                    && viol_row(v) < r),
            forall|i: int|
                0 <= i < vs@.len() ==> lookup_viol_of(#[trigger] vs@[i], li as int) && viol_row(
                    vs@[i],
                ) < r,
            vs@.no_duplicates(),
        decreases n_rows - r,
    {
        let ghost vs0 = vs@;
        let enabled = ly.grid.is_selector_enabled(la.selector.index, r);
        let mut failed = false;
        if enabled {
            match ly.grid.eval_expr(&la.input, r) {
                Some(f) => {
                    proof {
                        crate::grid::lemma_eval_in_range(
                            ly.grid,
                            ly.cs.lookups@[li as int].input,
                            r as int,
                        );
                    }
                    failed = !presence[f.v as usize];
                },
                None => {
                    failed = true;
                },
            }
        }
        let ghost cur = Violation::Lookup { lookup: li, row: r };
        if failed {
            proof {
                assert(!vs@.contains(cur));
                assert(violation_valid(*ly, cur));
            }
            vs.push(Violation::Lookup { lookup: li, row: r });
        }
        proof {
            if !failed {
                assert(lookup_row_ok(ly.cs, ly.grid, li as int, r as int));
            }
            assert forall|v: Violation| (violation_valid(*ly, v) && lookup_viol_of(v, li as int)
                && viol_row(v) < r + 1) implies vs@.contains(v) by {
                if viol_row(v) == r {
                    assert(v == cur);
                    assert(vs@ == vs0.push(cur));
                    assert(vs@[vs0.len() as int] == cur);
                } else {
                    assert(vs0.contains(v));
                    let i = choose|i: int| 0 <= i < vs0.len() && vs0[i] == v;
                    assert(vs@[i] == v);
                }
            }
            assert forall|v: Violation| vs@.contains(v) implies (violation_valid(*ly, v)
                && lookup_viol_of(v, li as int) && viol_row(v) < r + 1) by {
                let i = choose|i: int| 0 <= i < vs@.len() && vs@[i] == v;
                if i < vs0.len() {
                    assert(vs0[i] == v);
                    assert(vs0.contains(v));
                }
            }
        }
        r = r + 1;
    }
    vs
}

/// The cell pair a copy violation names.
pub open spec fn viol_pair(v: Violation) -> (Cell, Cell) {
    match v {
        Violation::CopyMismatch { a, b, a_value, b_value } => (a, b),
        _ => ((Cell { column: Column { kind: crate::columns::ColumnKind::Advice, index: 0 }, row: 0 }),
            (Cell { column: Column { kind: crate::columns::ColumnKind::Advice, index: 0 }, row: 0 })),
    }
}

/// The violation the `j`-th recorded pair gives rise to, if any: both cells
/// assigned and disagreeing.
pub open spec fn pair_violation(ly: Layouter, j: int) -> Option<Violation> {
    let a = ly.copies.pairs@[j].0;
    let b = ly.copies.pairs@[j].1;
    match (ly.grid.cell_value(a), ly.grid.cell_value(b)) {
        (Some(x), Some(y)) => if x != y {
            Some(
                Violation::CopyMismatch {
                    a,
                    b,
                    a_value: Fp { v: x as u64 },
                    b_value: Fp { v: y as u64 },
                },
            )
        } else {
            None
        },
        _ => None,
    }
}

/// The violations of the recorded copy constraints, in recording order.
fn check_copy_pairs(ly: &Layouter) -> (vs: Vec<Violation>)
    requires
        ly.wf(),
    ensures
        forall|v: Violation| #![trigger vs@.contains(v)]
            vs@.contains(v) <==> (violation_valid(*ly, v) && v is CopyMismatch),
        vs@.no_duplicates(),
{
    let mut vs: Vec<Violation> = Vec::new();
    let n = ly.copies.pairs.len();
    let mut i: usize = 0;
    while i < n
        invariant
            ly.wf(),
            n == ly.copies.pairs@.len(),
            i <= n,
            forall|j: int|
                0 <= j < i ==> (#[trigger] pair_violation(*ly, j) matches Some(w) ==> vs@.contains(
                    w,
                )),
            forall|k: int|
                0 <= k < vs@.len() ==> violation_valid(*ly, #[trigger] vs@[k]) && vs@[k]
                    is CopyMismatch && ly.copies.pairs@.take(i as int).contains(viol_pair(vs@[k])),
            vs@.no_duplicates(),
        decreases n - i,
    {
        let ghost vs0 = vs@;
        let q = ly.copies.pairs[i];
        let va = ly.grid.get_cell_value(q.0);
        let vb = ly.grid.get_cell_value(q.1);
        let mut pushed = false;
        match (va, vb) {
            (Some(x), Some(y)) => {
                if x.v != y.v {
                    let viol = Violation::CopyMismatch { a: q.0, b: q.1, a_value: x, b_value: y };
                    proof {
                        assert(ly.copies.pairs@[i as int] == q);
                        assert(ly.copies.pairs@.contains(q));
                        assert(violation_valid(*ly, viol));
                        if vs@.contains(viol) {
                            let k = choose|k: int| 0 <= k < vs@.len() && vs@[k] == viol;
                            let t = ly.copies.pairs@.take(i as int);
                            assert(t.contains(viol_pair(viol)));
                            let j = choose|j: int| 0 <= j < t.len() && t[j] == viol_pair(viol);
                            assert(ly.copies.pairs@[j] == (q.0, q.1));
                            assert(ly.copies.pairs@[i as int] == (q.0, q.1));
                        }
                        assert(!vs@.contains(viol));
                    }
                    vs.push(viol);
                    pushed = true;
                }
            },
            _ => {},
        }
        proof {
            let t1 = ly.copies.pairs@.take(i + 1);
            assert(t1[i as int] == ly.copies.pairs@[i as int]);
            assert forall|j: int| 0 <= j < i + 1 implies (#[trigger] pair_violation(*ly, j)
                matches Some(w) ==> vs@.contains(w)) by {
                match pair_violation(*ly, j) {
                    Some(w) => {
                        if j < i {
                            assert(vs0.contains(w));
                            let k = choose|k: int| 0 <= k < vs0.len() && vs0[k] == w;
                            assert(vs@[k] == w);
                        } else {
                            assert(ly.copies.pairs@[i as int] == q);
                            assert(w == Violation::CopyMismatch {
                                a: q.0,
                                b: q.1,
                                a_value: Fp { v: (ly.grid.cell_value(q.0)->Some_0) as u64 },
                                b_value: Fp { v: (ly.grid.cell_value(q.1)->Some_0) as u64 },
                            });
                            assert(pushed);
                            assert(vs@[vs@.len() - 1] == w);
                        }
                    },
                    None => {},
                }
            }
            assert forall|k: int| 0 <= k < vs@.len() implies violation_valid(*ly, #[trigger] vs@[k])
                && vs@[k] is CopyMismatch && ly.copies.pairs@.take(i + 1).contains(
                viol_pair(vs@[k]),
            ) by {
                if k < vs0.len() {
                    assert(vs@[k] == vs0[k]);
                    let t0 = ly.copies.pairs@.take(i as int);
                    assert(t0.contains(viol_pair(vs0[k])));
                    let j = choose|j: int| 0 <= j < t0.len() && t0[j] == viol_pair(vs0[k]);
                    assert(t1[j] == t0[j]);
                    assert(t1.contains(viol_pair(vs@[k])));
                } else {
                    assert(pushed);
                    assert(viol_pair(vs@[k]) == (q.0, q.1));
                    assert(t1[i as int] == (q.0, q.1));
                    assert(t1.contains(viol_pair(vs@[k])));
                }
            }
        }
        i = i + 1;
    }
    proof {
        assert forall|v: Violation| (violation_valid(*ly, v) && v is CopyMismatch) implies vs@
            .contains(v) by {
            match v {
                Violation::CopyMismatch { a, b, a_value, b_value } => {
                    assert(ly.copies.pairs@.contains((a, b)));
                    let j = choose|j: int|
                        0 <= j < ly.copies.pairs@.len() && ly.copies.pairs@[j] == (a, b);
                    assert(ly.grid.cell_value(a) == Some(a_value.val()));
                    assert(ly.grid.cell_value(b) == Some(b_value.val()));
                    assert(a_value == Fp { v: a_value.val() as u64 });
                    assert(pair_violation(*ly, j) == Some(v));
                },
                _ => {},
            }
        }
        assert forall|v: Violation| vs@.contains(v) implies (violation_valid(*ly, v)
            && v is CopyMismatch) by {
            let k = choose|k: int| 0 <= k < vs@.len() && vs@[k] == v;
        }
    }
    vs
}

/// Appends `sub` to `vs`, given that no element of `sub` is already
/// present: afterwards `vs` holds exactly the elements of both, still
/// without repetition.
fn append_all(vs: &mut Vec<Violation>, sub: Vec<Violation>)
    requires
        old(vs)@.no_duplicates(),
        sub@.no_duplicates(),
        forall|v: Violation| #![trigger sub@.contains(v)] !(old(vs)@.contains(v) && sub@.contains(
            v,
        )),
    ensures
        final(vs)@.no_duplicates(),
        forall|v: Violation| #![trigger final(vs)@.contains(v)]
            final(vs)@.contains(v) <==> (old(vs)@.contains(v) || sub@.contains(v)),
{
    let ghost orig = vs@;
    let n = sub.len();
    let mut j: usize = 0;
    while j < n
        invariant
            n == sub@.len(),
            j <= n,
            sub@.no_duplicates(),
            forall|v: Violation| #![trigger sub@.contains(v)] !(orig.contains(v) && sub@.contains(
                v,
            )),
            forall|v: Violation| #![trigger vs@.contains(v)]
                vs@.contains(v) <==> (orig.contains(v) || sub@.take(j as int).contains(v)),
            vs@.no_duplicates(),
        decreases n - j,
    {
        let ghost vs0 = vs@;
        let ghost t0 = sub@.take(j as int);
        let x = sub[j];
        proof {
            assert(sub@[j as int] == x);
            assert(sub@.contains(x));
            if vs@.contains(x) {
                assert(orig.contains(x) || t0.contains(x));
                if t0.contains(x) {
                    let m = choose|m: int| 0 <= m < t0.len() && t0[m] == x;
                    assert(sub@[m] == x);
                    assert(m < j);
                    assert(sub@[m] != sub@[j as int]);
                } else {
                    assert(orig.contains(x) && sub@.contains(x));
                }
            }
            assert(!vs@.contains(x));
        }
        vs.push(x);
        proof {
            let t1 = sub@.take(j + 1);
            assert(t1[j as int] == x);
            assert forall|v: Violation|
                vs@.contains(v) <==> (orig.contains(v) || t1.contains(v)) by {
                if vs@.contains(v) {
                    let k = choose|k: int| 0 <= k < vs@.len() && vs@[k] == v;
                    if k < vs0.len() {
                        assert(vs0[k] == v);
                        assert(vs0.contains(v));
                        if t0.contains(v) {
                            let m = choose|m: int| 0 <= m < t0.len() && t0[m] == v;
                            assert(t1[m] == v);
                            assert(t1.contains(v));
                        }
                    } else {
                        assert(v == x);
                        assert(t1.contains(v));
                    }
                }
                if orig.contains(v) {
                    assert(vs0.contains(v));
                    let k = choose|k: int| 0 <= k < vs0.len() && vs0[k] == v;
                    assert(vs@[k] == v);
                    assert(vs@.contains(v));
                }
                if t1.contains(v) {
                    let m = choose|m: int| 0 <= m < t1.len() && t1[m] == v;
                    if m < j {
                        assert(t0[m] == v);
                        assert(t0.contains(v));
                        assert(vs0.contains(v));
                        let k = choose|k: int| 0 <= k < vs0.len() && vs0[k] == v;
                        assert(vs@[k] == v);
                    } else {
                        assert(v == x);
                        assert(vs@[vs0.len() as int] == x);
                    }
                    assert(vs@.contains(v));
                }
            }
        }
        j = j + 1;
    }
    proof {
        assert(sub@.take(n as int) == sub@);
        assert(orig == old(vs)@);
    }
}

/// Whether `v` is a gate violation strictly before gate `gi`, constraint
/// `ci`, in registration order.
pub open spec fn gate_lt(v: Violation, gi: int, ci: int) -> bool {
    match v {
        Violation::Constraint { gate, constraint, row } => gate < gi || (gate == gi && constraint
            < ci),
        _ => false,
    }
}

/// Whether `v` is a lookup violation of a lookup argument before `li`.
pub open spec fn lookup_lt(v: Violation, li: int) -> bool {
    match v {
        Violation::Lookup { lookup, row } => lookup < li,
        _ => false,
    }
}

/// Checks the populated grid against the registered constraint system.
///
/// Evaluates every gate constraint at every row, every lookup argument at
/// every row where its selector is enabled, and every recorded copy pair,
/// and returns the complete list of violations: the list holds a violation
/// exactly once for each gate constraint, lookup row and copy pair that
/// fails, and is empty exactly when the grid satisfies the system.
pub fn check(ly: &Layouter) -> (vs: Vec<Violation>)
    requires
        ly.wf(),
    ensures
        forall|v: Violation| vs@.contains(v) <==> violation_valid(*ly, v),
        vs@.no_duplicates(),
        vs@.len() == 0 <==> satisfies(*ly),
{
    let mut vs: Vec<Violation> = Vec::new();
    let n_gates = ly.cs.gates.len();
    let mut gi: usize = 0;
    while gi < n_gates
        invariant
            ly.wf(),
            n_gates == ly.cs.gates@.len(),
            gi <= n_gates,
            forall|v: Violation| #![trigger vs@.contains(v)]
                vs@.contains(v) <==> (violation_valid(*ly, v) && gate_lt(v, gi as int, 0)),
            vs@.no_duplicates(),
        decreases n_gates - gi,
    {
        let n_cons = ly.cs.gates[gi].constraints.len();
        let mut ci: usize = 0;
        while ci < n_cons
            invariant
                ly.wf(),
                gi < ly.cs.gates@.len(),
                n_cons == (ly.cs.gates@[gi as int].constraints)@.len(),
                ci <= n_cons,
                forall|v: Violation| #![trigger vs@.contains(v)]
                    vs@.contains(v) <==> (violation_valid(*ly, v) && gate_lt(
                        v,
                        gi as int,
                        ci as int,
                    )),
                vs@.no_duplicates(),
            decreases n_cons - ci,
        {
            let sub = check_constraint_rows(ly, gi, ci);
            let ghost base = vs@;
            proof {
                assert forall|v: Violation| !(vs@.contains(v) && sub@.contains(v)) by {
                    let c1 = vs@.contains(v);
                    let c2 = sub@.contains(v);
                }
            }
            append_all(&mut vs, sub);
            proof {
                assert forall|v: Violation|
                    vs@.contains(v) <==> (violation_valid(*ly, v) && gate_lt(
                        v,
                        gi as int,
                        ci + 1,
                    )) by {
                    let c1 = vs@.contains(v);
                    let c2 = base.contains(v);
                    let c3 = sub@.contains(v);
                    assert(c1 == (c2 || c3));
                }
            }
            ci = ci + 1;
        }
        proof {
            assert forall|v: Violation|
                vs@.contains(v) <==> (violation_valid(*ly, v) && gate_lt(v, gi + 1, 0)) by {
                let c1 = vs@.contains(v);
                if violation_valid(*ly, v) && gate_lt(v, gi + 1, 0) {
                    assert(gate_lt(v, gi as int, n_cons as int));
                }
            }
        }
        gi = gi + 1;
    }
    let n_lookups = ly.cs.lookups.len();
    proof {
        assert forall|v: Violation|
            vs@.contains(v) <==> (violation_valid(*ly, v) && (v is Constraint || lookup_lt(v, 0)))
            by {
            let c1 = vs@.contains(v);
            if violation_valid(*ly, v) && v is Constraint {
                assert(gate_lt(v, n_gates as int, 0));
            }
        }
    }
    let mut li: usize = 0;
    while li < n_lookups
        invariant
            ly.wf(),
            n_gates == ly.cs.gates@.len(),
            n_lookups == ly.cs.lookups@.len(),
            li <= n_lookups,
            forall|v: Violation| #![trigger vs@.contains(v)]
                vs@.contains(v) <==> (violation_valid(*ly, v) && (v is Constraint || lookup_lt(
                    v,
                    li as int,
                ))),
            vs@.no_duplicates(),
        decreases n_lookups - li,
    {
        let sub = check_lookup_rows(ly, li);
        let ghost base = vs@;
        proof {
            assert forall|v: Violation| !(vs@.contains(v) && sub@.contains(v)) by {
                let c1 = vs@.contains(v);
                let c2 = sub@.contains(v);
            }
        }
        append_all(&mut vs, sub);
        proof {
            assert forall|v: Violation|
                vs@.contains(v) <==> (violation_valid(*ly, v) && (v is Constraint || lookup_lt(
                    v,
                    li + 1,
                ))) by {
                let c1 = vs@.contains(v);
                let c2 = base.contains(v);
                let c3 = sub@.contains(v);
                assert(c1 == (c2 || c3));
            }
        }
        li = li + 1;
    }
    let sub = check_copy_pairs(ly);
    let ghost base = vs@;
    proof {
        assert forall|v: Violation| !(vs@.contains(v) && sub@.contains(v)) by {
            let c1 = vs@.contains(v);
            let c2 = sub@.contains(v);
        }
    }
    append_all(&mut vs, sub);
    proof {
        assert forall|v: Violation| vs@.contains(v) <==> violation_valid(*ly, v) by {
            let c1 = vs@.contains(v);
            let c2 = base.contains(v);
            let c3 = sub@.contains(v);
            assert(c1 == (c2 || c3));
            if violation_valid(*ly, v) {
                match v {
                    Violation::Constraint { gate, constraint, row } => {
                        assert(gate_lt(v, n_gates as int, 0));
                        assert(base.contains(v));
                    },
                    Violation::Lookup { lookup, row } => {
                        assert(lookup_lt(v, n_lookups as int));
                        assert(base.contains(v));
                    },
                    Violation::CopyMismatch { a, b, a_value, b_value } => {
                        assert(sub@.contains(v));
                    },
                }
            }
        }
        if vs@.len() == 0 {
            assert forall|gi2: int, ci2: int, r2: int|
                0 <= gi2 < ly.cs.gates@.len() && 0 <= ci2 < (ly.cs.gates@[gi2].constraints)@.len()
                    && 0 <= r2 < ly.grid.n_rows implies #[trigger] gate_constraint_ok(
                ly.cs,
                ly.grid,
                gi2,
                ci2,
                r2,
            ) by {
                if !gate_constraint_ok(ly.cs, ly.grid, gi2, ci2, r2) {
                    assert(gi2 < n_gates);
                    assert((ly.cs.gates@[gi2].constraints).len() == (
                    ly.cs.gates@[gi2].constraints)@.len());
                    let w = Violation::Constraint {
                        gate: gi2 as usize,
                        constraint: ci2 as usize,
                        row: r2 as usize,
                    };
                    assert(violation_valid(*ly, w));
                    assert(vs@.contains(w));
                }
            }
            assert forall|li2: int, r2: int|
                0 <= li2 < ly.cs.lookups@.len() && 0 <= r2 < ly.grid.n_rows implies
                #[trigger] lookup_row_ok(ly.cs, ly.grid, li2, r2) by {
                if !lookup_row_ok(ly.cs, ly.grid, li2, r2) {
                    assert(li2 < n_lookups);
                    let w = Violation::Lookup { lookup: li2 as usize, row: r2 as usize };
                    assert(violation_valid(*ly, w));
                    assert(vs@.contains(w));
                }
            }
            assert forall|i2: int|
                0 <= i2 < ly.copies.pairs@.len() implies crate::copy::pair_agrees(
                ly.grid,
                (#[trigger] ly.copies.pairs@[i2]).0,
                ly.copies.pairs@[i2].1,
            ) by {
                let a = ly.copies.pairs@[i2].0;
                let b = ly.copies.pairs@[i2].1;
                if !crate::copy::pair_agrees(ly.grid, a, b) {
                    let x = ly.grid.cell_value(a)->Some_0;
                    let y = ly.grid.cell_value(b)->Some_0;
                    crate::grid::lemma_query_in_range(ly.grid, a.column, a.row as int);
                    crate::grid::lemma_query_in_range(ly.grid, b.column, b.row as int);
                    let w = Violation::CopyMismatch {
                        a,
                        b,
                        a_value: Fp { v: x as u64 },
                        b_value: Fp { v: y as u64 },
                    };
                    assert(ly.copies.pairs@[i2] == (a, b));
                    assert(ly.copies.pairs@.contains((a, b)));
                    assert(violation_valid(*ly, w));
                    assert(vs@.contains(w));
                }
            }
            assert(satisfies(*ly));
        }
        if satisfies(*ly) && vs@.len() > 0 {
            let v0 = vs@[0];
            assert(vs@.contains(v0));
            assert(violation_valid(*ly, v0));
            match v0 {
                Violation::Constraint { gate, constraint, row } => {
                    assert(gate_constraint_ok(
                        ly.cs,
                        ly.grid,
                        gate as int,
                        constraint as int,
                        row as int,
                    ));
                },
                Violation::Lookup { lookup, row } => {
                    assert(lookup_row_ok(ly.cs, ly.grid, lookup as int, row as int));
                },
                Violation::CopyMismatch { a, b, a_value, b_value } => {
                    let j = choose|j: int|
                        0 <= j < ly.copies.pairs@.len() && ly.copies.pairs@[j] == (a, b);
                    assert(crate::copy::pair_agrees(ly.grid, a, b));
                },
            }
        }
    }
    vs
}

/// Copy-constraint soundness: when the grid satisfies every gate and
/// lookup and every recorded copy pair but one agrees, while that one
/// pair's two cells are both assigned with differing values, any report
/// meeting the checker's contract consists of exactly one violation, the
/// copy mismatch naming both cells and both values — regardless of which
/// component recorded the pair.
pub proof fn lemma_copy_constraint_soundness(ly: Layouter, vs: Seq<Violation>, i: int)
    requires
        ly.wf(),
        forall|v: Violation| #![trigger vs.contains(v)] vs.contains(v) <==> violation_valid(ly, v),
        vs.no_duplicates(),
        0 <= i < ly.copies.pairs@.len(),
        ly.grid.cell_value(ly.copies.pairs@[i].0) is Some,
        ly.grid.cell_value(ly.copies.pairs@[i].1) is Some,
        ly.grid.cell_value(ly.copies.pairs@[i].0) != ly.grid.cell_value(ly.copies.pairs@[i].1),
        gates_ok(ly.cs, ly.grid),
        lookups_ok(ly.cs, ly.grid),
        forall|j: int|
            0 <= j < ly.copies.pairs@.len() && j != i ==> crate::copy::pair_agrees(
                ly.grid,
                (#[trigger] ly.copies.pairs@[j]).0,
                ly.copies.pairs@[j].1,
            ),
    ensures
        vs.len() == 1,
        vs[0] == (Violation::CopyMismatch {
            a: ly.copies.pairs@[i].0,
            b: ly.copies.pairs@[i].1,
            a_value: Fp { v: (ly.grid.cell_value(ly.copies.pairs@[i].0)->Some_0) as u64 },
            b_value: Fp { v: (ly.grid.cell_value(ly.copies.pairs@[i].1)->Some_0) as u64 },
        }),
{
    let a = ly.copies.pairs@[i].0;
    let b = ly.copies.pairs@[i].1;
    let x = ly.grid.cell_value(a)->Some_0;
    let y = ly.grid.cell_value(b)->Some_0;
    lemma_query_in_range(ly.grid, a.column, a.row as int);
    lemma_query_in_range(ly.grid, b.column, b.row as int);
    let w = Violation::CopyMismatch {
        a,
        b,
        a_value: Fp { v: x as u64 },
        b_value: Fp { v: y as u64 },
    };
    assert(ly.copies.pairs@.contains((a, b)));
    assert(violation_valid(ly, w));
    assert(vs.contains(w));
    assert forall|v: Violation| vs.contains(v) implies v == w by {
        assert(violation_valid(ly, v));
        match v {
            Violation::Constraint { gate, constraint, row } => {
                assert(gate_constraint_ok(ly.cs, ly.grid, gate as int, constraint as int, row as int));
            },
            Violation::Lookup { lookup, row } => {
                assert(lookup_row_ok(ly.cs, ly.grid, lookup as int, row as int));
            },
            Violation::CopyMismatch { a: a2, b: b2, a_value, b_value } => {
                let j = choose|j: int|
                    0 <= j < ly.copies.pairs@.len() && ly.copies.pairs@[j] == (a2, b2);
                if j != i {
                    assert(crate::copy::pair_agrees(ly.grid, a2, b2));
                }
            },
        }
    }
    let k0 = choose|k: int| 0 <= k < vs.len() && vs[k] == w;
    if vs.len() > 1 {
        if k0 == 0 {
            assert(vs.contains(vs[1]));
            assert(vs[1] == w);
        } else {
            assert(vs.contains(vs[0]));
            assert(vs[0] == w);
        }
    }
    assert(vs.contains(vs[0]));
}

} // verus!