//! The copy-constraint tracker: an append-only log of forced-equal cell
//! pairs.
//!
//! The recorded pairs partition the equality-enabled cells they touch into
//! equivalence classes; in any valid witness all assigned members of a class
//! carry the identical value. The checker enforces this edge by edge: every
//! recorded pair whose two cells are both assigned must agree, which forces
//! agreement across each whole class, since a value can never change once a
//! cell is assigned. Recording is idempotent: a pair that is already present
//! in either orientation is not recorded again.

use crate::grid::{Cell, Grid};
use vstd::prelude::*;

verus! {

/// Whether the two cells of one recorded pair agree: if both are assigned,
/// their values are identical. An unassigned member constrains nothing.
pub open spec fn pair_agrees(g: Grid, a: Cell, b: Cell) -> bool {
    match (g.cell_value(a), g.cell_value(b)) {
        (Some(x), Some(y)) => x == y,
        _ => true,
    }
}

/// Whether every recorded pair agrees on the grid.
pub open spec fn copies_ok(pairs: Seq<(Cell, Cell)>, g: Grid) -> bool {
    forall|i: int| 0 <= i < pairs.len() ==> pair_agrees(g, (#[trigger] pairs[i]).0, pairs[i].1)
}

/// Whether the pair of `a` and `b` is recorded, in either orientation.
pub open spec fn pair_recorded(pairs: Seq<(Cell, Cell)>, a: Cell, b: Cell) -> bool {
    pairs.contains((a, b)) || pairs.contains((b, a))
}

/// Appending a pair constrains exactly that pair in addition.
pub proof fn lemma_copies_ok_push(s: Seq<(Cell, Cell)>, q: (Cell, Cell), g: Grid)
    ensures
        copies_ok(s.push(q), g) <==> copies_ok(s, g) && pair_agrees(g, q.0, q.1),
{
    let t = s.push(q);
    assert(t[s.len() as int] == q);
    assert forall|i: int| 0 <= i < s.len() implies t[i] == s[i] by {}
    if copies_ok(s, g) && pair_agrees(g, q.0, q.1) {
        assert forall|i: int| 0 <= i < t.len() implies pair_agrees(
            g,
            (#[trigger] t[i]).0,
            t[i].1,
        ) by {
            if i < s.len() {
                assert(pair_agrees(g, s[i].0, s[i].1));
            }
        }
    }
}

/// Whether every recorded pair has both cells assigned.
pub open spec fn copies_assigned(pairs: Seq<(Cell, Cell)>, g: Grid) -> bool {
    forall|i: int|
        0 <= i < pairs.len() ==> g.cell_value((#[trigger] pairs[i]).0) is Some && g.cell_value(
            pairs[i].1,
        ) is Some
}

/// A write into a previously unassigned advice cell leaves the value of
/// every assigned cell as it was.
pub proof fn lemma_advice_write_preserves(g1: Grid, g2: Grid, c0: int, r0: int)
    requires
        g1.advice_at(c0, r0) is None,
        forall|c: int, r: int| !(c == c0 && r == r0) ==> #[trigger] g2.advice_at(c, r)
            == g1.advice_at(c, r),
        g2.fixed == g1.fixed,
        g2.instance == g1.instance,
        g2.n_rows == g1.n_rows,
        g2.n_advice == g1.n_advice,
        g2.n_fixed == g1.n_fixed,
    ensures
        forall|cell: Cell|
            g1.cell_value(cell) is Some ==> #[trigger] g2.cell_value(cell) == g1.cell_value(cell),
{
    assert forall|cell: Cell| g1.cell_value(cell) is Some implies #[trigger] g2.cell_value(cell)
        == g1.cell_value(cell) by {
        match cell.column.kind {
            crate::columns::ColumnKind::Advice => {
                assert(!(cell.column.index == c0 && cell.row == r0));
            },
            crate::columns::ColumnKind::Fixed => {},
            crate::columns::ColumnKind::Instance => {},
        }
    }
}

/// If every assigned cell keeps its value from `g1` to `g2`, agreement of
/// fully assigned copy pairs carries over.
pub proof fn lemma_copies_preserved(pairs: Seq<(Cell, Cell)>, g1: Grid, g2: Grid)
    requires
        copies_ok(pairs, g1),
        copies_assigned(pairs, g1),
        forall|cell: Cell|
            g1.cell_value(cell) is Some ==> #[trigger] g2.cell_value(cell) == g1.cell_value(cell),
    ensures
        copies_ok(pairs, g2),
        copies_assigned(pairs, g2),
{
    assert forall|i: int| 0 <= i < pairs.len() implies pair_agrees(
        g2,
        (#[trigger] pairs[i]).0,
        pairs[i].1,
    ) && g2.cell_value(pairs[i].0) is Some && g2.cell_value(pairs[i].1) is Some by {
        assert(pair_agrees(g1, pairs[i].0, pairs[i].1));
        assert(g2.cell_value(pairs[i].0) == g1.cell_value(pairs[i].0));
        assert(g2.cell_value(pairs[i].1) == g1.cell_value(pairs[i].1));
    }
}

/// Appending a pair whose cells are both assigned keeps every pair fully
/// assigned.
pub proof fn lemma_copies_assigned_push(s: Seq<(Cell, Cell)>, q: (Cell, Cell), g: Grid)
    requires
        copies_assigned(s, g),
        g.cell_value(q.0) is Some,
        g.cell_value(q.1) is Some,
    ensures
        copies_assigned(s.push(q), g),
{
    let t = s.push(q);
    assert(t[s.len() as int] == q);
    assert forall|i: int| 0 <= i < t.len() implies g.cell_value((#[trigger] t[i]).0) is Some
        && g.cell_value(t[i].1) is Some by {
        if i < s.len() {
            assert(g.cell_value(s[i].0) is Some && g.cell_value(s[i].1) is Some);
        }
    }
}

/// A write into a previously unassigned advice cell and a previously
/// unassigned fixed cell leaves the value of every assigned cell as it
/// was.
pub proof fn lemma_advice_fixed_write_preserves(
    g1: Grid,
    g2: Grid,
    c0: int,
    r0: int,
    cf: int,
    rf: int,
)
    requires
        g1.advice_at(c0, r0) is None,
        forall|c: int, r: int| !(c == c0 && r == r0) ==> #[trigger] g2.advice_at(c, r)
            == g1.advice_at(c, r),
        g1.fixed_at(cf, rf) is None,
        forall|c: int, r: int| !(c == cf && r == rf) ==> #[trigger] g2.fixed_at(c, r)
            == g1.fixed_at(c, r),
        g2.instance == g1.instance,
        g2.n_rows == g1.n_rows,
        g2.n_advice == g1.n_advice,
        g2.n_fixed == g1.n_fixed,
    ensures
        forall|cell: Cell|
            g1.cell_value(cell) is Some ==> #[trigger] g2.cell_value(cell) == g1.cell_value(cell),
{
    assert forall|cell: Cell| g1.cell_value(cell) is Some implies #[trigger] g2.cell_value(cell)
        == g1.cell_value(cell) by {
        match cell.column.kind {
            crate::columns::ColumnKind::Advice => {
                assert(!(cell.column.index == c0 && cell.row == r0));
            },
            crate::columns::ColumnKind::Fixed => {
                assert(!(cell.column.index == cf && cell.row == rf));
            },
            crate::columns::ColumnKind::Instance => {},
        }
    }
}

/// A recorded pair stays recorded when the log is unchanged or grows by
/// one pair at the end.
pub proof fn lemma_pair_recorded_monotone(
    before: Seq<(Cell, Cell)>,
    after: Seq<(Cell, Cell)>,
    x: Cell,
    y: Cell,
)
    requires
        pair_recorded(before, x, y),
        after == before || exists|q: (Cell, Cell)| after == #[trigger] before.push(q),
    ensures
        pair_recorded(after, x, y),
{
    if after != before {
        let q = choose|q: (Cell, Cell)| after == #[trigger] before.push(q);
        if before.contains((x, y)) {
            let i = choose|i: int| 0 <= i < before.len() && before[i] == (x, y);
            assert(after[i] == (x, y));
        } else {
            let i = choose|i: int| 0 <= i < before.len() && before[i] == (y, x);
            assert(after[i] == (y, x));
        }
    }
}

/// The tracker: the log of recorded pairs.
pub struct CopyTracker {
    pub pairs: Vec<(Cell, Cell)>,
}

impl CopyTracker {
    /// No pair is recorded twice.
    pub open spec fn distinct(self) -> bool {
        forall|i: int, j: int|
            0 <= i < j < self.pairs@.len() ==> #[trigger] self.pairs@[i] != #[trigger] self.pairs@[j]
    }

    /// An empty tracker.
    pub fn new() -> (t: CopyTracker)
        ensures
            t.pairs@.len() == 0,
            t.distinct(),
    {
        CopyTracker { pairs: Vec::new() }
    }

    /// Whether the pair of `a` and `b` is recorded, in either orientation.
    pub fn is_recorded(&self, a: Cell, b: Cell) -> (r: bool)
        ensures
            r == pair_recorded(self.pairs@, a, b),
    {
        let n = self.pairs.len();
        let mut i: usize = 0;
        while i < n
            invariant
                n == self.pairs@.len(),
                i <= n,
                forall|j: int|
                    0 <= j < i ==> #[trigger] self.pairs@[j] != (a, b) && self.pairs@[j] != (b, a),
            decreases n - i,
        {
            let q = self.pairs[i];
            if (q.0 == a && q.1 == b) || (q.0 == b && q.1 == a) {
                proof {
                    assert(self.pairs@[i as int] == (a, b) || self.pairs@[i as int] == (b, a));
                }
                return true;
            }
            i = i + 1;
        }
        proof {
            if self.pairs@.contains((a, b)) {
                let j = choose|j: int| 0 <= j < n && self.pairs@[j] == (a, b);
                assert(self.pairs@[j] != (a, b));
            }
            if self.pairs@.contains((b, a)) {
                let j = choose|j: int| 0 <= j < n && self.pairs@[j] == (b, a);
                assert(self.pairs@[j] != (b, a));
            }
        }
        false
    }

    /// Records that the cells `a` and `b` must carry equal values. A pair
    /// already recorded in either orientation is left as it is.
    pub fn record(&mut self, a: Cell, b: Cell)
        requires
            old(self).distinct(),
        ensures
            final(self).distinct(),
            pair_recorded(final(self).pairs@, a, b),
            pair_recorded(old(self).pairs@, a, b) ==> final(self).pairs@ == old(self).pairs@,
            !pair_recorded(old(self).pairs@, a, b) ==> final(self).pairs@ == old(
                self,
            ).pairs@.push((a, b)),
    {
        if !self.is_recorded(a, b) {
            let ghost s_old = self.pairs@;
            self.pairs.push((a, b));
            proof {
                assert(self.pairs@[s_old.len() as int] == (a, b));
                assert forall|i: int, j: int| 0 <= i < j < self.pairs@.len() implies #[trigger] self
                    .pairs@[i] != #[trigger] self.pairs@[j] by {
                    if j < s_old.len() {
                        assert(s_old[i] != s_old[j]);
                    } else {
                        assert(self.pairs@[j] == (a, b));
                        if self.pairs@[i] == (a, b) {
                            assert(s_old.contains((a, b)));
                        }
                    }
                }
            }
        }
    }
}

} // verus!
