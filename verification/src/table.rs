//! The lookup-table provider: a fixed column pre-populated with the
//! sequence `0..n_values`, loaded once per circuit instance and read-only
//! thereafter.

use crate::columns::{Column, ColumnKind};
use crate::errors::Error;
use crate::field::{Fp, FIELD_MODULUS};
use crate::layouter::Layouter;
use crate::system::ConstraintSystem;
use vstd::prelude::*;

verus! {

/// A fixed column holding the integers `0..n_values`.
#[derive(Clone, Copy, Debug, PartialEq, Eq, Structural)]
pub struct RangeTableConfig {
    pub value: Column,
    pub n_values: usize,
}

impl RangeTableConfig {
    /// The column is a declared fixed column and the table fits the field.
    pub open spec fn valid(self, cs: ConstraintSystem) -> bool {
        &&& self.value.kind == ColumnKind::Fixed
        &&& self.value.index < cs.n_fixed
        &&& self.n_values <= FIELD_MODULUS
    }

    /// Declares a fresh fixed column to hold the table.
    pub fn configure(meta: &mut ConstraintSystem, n_values: usize) -> (t: RangeTableConfig)
        requires
            old(meta).wf(),
            old(meta).n_fixed < 0x40,
            n_values <= FIELD_MODULUS,
        ensures
            final(meta).wf(),
            t.valid(*final(meta)),
            t.n_values == n_values,
            final(meta).gates == old(meta).gates,
            final(meta).lookups == old(meta).lookups,
            final(meta).n_advice == old(meta).n_advice,
            final(meta).n_selectors == old(meta).n_selectors,
            final(meta).n_instance == old(meta).n_instance,
            final(meta).n_fixed == old(meta).n_fixed + 1,
            final(meta).equality_enabled == old(meta).equality_enabled,
            final(meta).constant_column == old(meta).constant_column,
    {
        let value = meta.fixed_column();
        RangeTableConfig { value, n_values }
    }

    /// Populates the table column with `0..n_values`, one value per row.
    ///
    /// Fails with `ConfigurationError` exactly when the table was already
    /// loaded (its first cell is assigned); a second call on a loaded table
    /// is answered with that error and changes nothing.
    pub fn load(&self, ly: &mut Layouter) -> (r: Result<(), Error>)
        requires
            old(ly).wf(),
            self.valid(old(ly).cs),
            self.n_values <= old(ly).grid.n_rows,
            self.n_values >= 1,
            old(ly).grid.fixed_at(self.value.index as int, 0) is Some || forall|r2: int|
                0 < r2 ==> #[trigger] old(ly).grid.fixed_at(self.value.index as int, r2) is None,
        ensures
            final(ly).wf(),
            Layouter::same_shape(*old(ly), *final(ly)),
            final(ly).next_row == old(ly).next_row,
            final(ly).next_constant_row == old(ly).next_constant_row,
            final(ly).copies == old(ly).copies,
            r is Ok <==> old(ly).grid.fixed_at(self.value.index as int, 0) is None,
            r is Err ==> *final(ly) == *old(ly) && r == Err::<(), Error>(
                Error::ConfigurationError,
            ),
            r is Ok ==> ({
                &&& final(ly).grid.advice == old(ly).grid.advice
                &&& final(ly).grid.selectors == old(ly).grid.selectors
                &&& forall|r2: int|
                    0 <= r2 < self.n_values ==> #[trigger] final(ly).grid.fixed_at(
                        self.value.index as int,
                        r2,
                    ) == Some(r2)
                &&& forall|c2: int, r2: int|
                    !(c2 == self.value.index && 0 <= r2 < self.n_values) ==> #[trigger] final(ly).grid.fixed_at(c2, r2) == old(ly).grid.fixed_at(c2, r2)
                &&& forall|v: int|
                    crate::checker::table_contains(final(ly).grid, self.value, v) <==> 0 <= v
                        < self.n_values
            }),
    {
        match ly.grid.get_fixed(self.value.index, 0) {
            Some(_) => {
                return Err(Error::ConfigurationError);
            },
            None => {},
        }
        proof {
            assert(forall|r2: int|
                0 < r2 ==> #[trigger] old(ly).grid.fixed_at(self.value.index as int, r2) is None);
        }
        let n = self.n_values;
        let col = self.value.index;
        let mut i: usize = 0;
        while i < n
            invariant
                ly.wf(),
                Layouter::same_shape(*old(ly), *ly),
                ly.cs == old(ly).cs,
                ly.next_row == old(ly).next_row,
                ly.next_constant_row == old(ly).next_constant_row,
                ly.copies == old(ly).copies,
                ly.grid.advice == old(ly).grid.advice,
                ly.grid.selectors == old(ly).grid.selectors,
                col == self.value.index,
                n == self.n_values,
                i <= n,
                n <= ly.grid.n_rows,
                n <= FIELD_MODULUS,
                col < ly.grid.n_fixed,
                forall|r2: int|
                    0 <= r2 < i ==> #[trigger] ly.grid.fixed_at(col as int, r2) == Some(r2),
                forall|c2: int, r2: int|
                    !(c2 == col && 0 <= r2 < i) ==> #[trigger] ly.grid.fixed_at(c2, r2) == old(ly).grid.fixed_at(c2, r2),
            decreases n - i,
        {
            let ghost gpre = ly.grid;
            ly.grid.set_fixed(col, i, Fp { v: i as u64 });
            proof {
                assert forall|c2: int, r2: int| !(c2 == col && 0 <= r2 < i + 1) implies
                    #[trigger] ly.grid.fixed_at(c2, r2) == old(ly).grid.fixed_at(c2, r2) by {
                    assert(ly.grid.fixed_at(c2, r2) == gpre.fixed_at(c2, r2));
                }
                assert forall|r2: int| 0 <= r2 < i + 1 implies #[trigger] ly.grid.fixed_at(
                    col as int,
                    r2,
                ) == Some(r2) by {
                    if r2 < i {
                        assert(ly.grid.fixed_at(col as int, r2) == gpre.fixed_at(col as int, r2));
                    }
                }
            }
            i = i + 1;
        }
        proof {
            assert forall|v: int|
                crate::checker::table_contains(ly.grid, self.value, v) <==> (0 <= v < n) by {
                if crate::checker::table_contains(ly.grid, self.value, v) {
                    let tr = choose|tr: int|
                        0 <= tr < ly.grid.n_rows && #[trigger] ly.grid.fixed_at(
                            self.value.index as int,
                            tr,
                        ) == Some(v);
                    if tr < n {
                        assert(ly.grid.fixed_at(col as int, tr) == Some(tr));
                    } else {
                        assert(ly.grid.fixed_at(col as int, tr) == old(ly).grid.fixed_at(
                            col as int,
                            tr,
                        ));
                    }
                }
                if 0 <= v < n {
                    assert(ly.grid.fixed_at(col as int, v) == Some(v));
                }
            }
        }
        Ok(())
    }
}

} // verus!
