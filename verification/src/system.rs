//! The constraint registry: columns, selectors, named gates and lookup
//! arguments, accumulated once per circuit shape and immutable afterward.
//!
//! A gate is a named list of constraint expressions. By design every
//! constraint expression embeds its controlling selector as a multiplicative
//! factor, so that the expression is trivially zero at rows where the
//! selector is disabled; the registry does not gate constraints implicitly,
//! and the checker evaluates every constraint at every row.

use crate::columns::{Column, ColumnKind, Selector};
use crate::expression::Expression;
use vstd::prelude::*;

verus! {

/// A named, selector-gated list of polynomial constraints.
pub struct Gate {
    /// Diagnostic name.
    pub name: &'static str,
    /// The selector the constraints are gated by.
    pub selector: Selector,
    /// The constraint expressions; each must evaluate to zero at every row.
    pub constraints: Vec<Expression>,
}

/// A table-membership constraint: at every row where `selector` is enabled,
/// the value of `input` must appear somewhere in the fixed column `table`.
pub struct LookupArgument {
    pub selector: Selector,
    pub input: Expression,
    pub table: Column,
}

/// The accumulated description of one circuit shape.
pub struct ConstraintSystem {
    pub n_advice: usize,
    pub n_fixed: usize,
    pub n_instance: usize,
    pub n_selectors: usize,
    /// Columns on which copy constraints are allowed.
    pub equality_enabled: Vec<Column>,
    /// The fixed column that holds values bound by constant assignment.
    pub constant_column: Option<Column>,
    pub gates: Vec<Gate>,
    pub lookups: Vec<LookupArgument>,
}

impl ConstraintSystem {
    /// Well-formedness: column counts stay within the grid's capacity and
    /// every registered expression is well formed.
    pub open spec fn wf(self) -> bool {
        &&& self.n_advice <= 0x40
        &&& self.n_fixed <= 0x40
        &&& self.n_instance <= 0x40
        &&& self.n_selectors <= 0x40
        &&& forall|i: int, j: int|
            0 <= i < self.gates@.len() && 0 <= j < (self.gates@[i].constraints)@.len()
                ==> (#[trigger] (self.gates@[i].constraints)@[j]).wf()
        &&& forall|i: int| 0 <= i < self.lookups@.len() ==> (#[trigger] self.lookups@[i].input).wf()
        &&& self.constant_column matches Some(c) ==> c.kind == ColumnKind::Fixed && c.index
            < self.n_fixed
    }

    /// Whether copy constraints are allowed on `c`.
    pub open spec fn equality_ok(self, c: Column) -> bool {
        self.equality_enabled@.contains(c)
    }

    /// A fresh, empty system.
    pub fn new() -> (cs: ConstraintSystem)
        ensures
            cs.wf(),
            cs.n_advice == 0,
            cs.n_fixed == 0,
            cs.n_instance == 0,
            cs.n_selectors == 0,
            cs.equality_enabled@.len() == 0,
            cs.constant_column is None,
            cs.gates@.len() == 0,
            cs.lookups@.len() == 0,
    {
        ConstraintSystem {
            n_advice: 0,
            n_fixed: 0,
            n_instance: 0,
            n_selectors: 0,
            equality_enabled: Vec::new(),
            constant_column: None,
            gates: Vec::new(),
            lookups: Vec::new(),
        }
    }

    /// Declares a fresh advice column.
    pub fn advice_column(&mut self) -> (c: Column)
        requires
            old(self).wf(),
            old(self).n_advice < 0x40,
        ensures
            final(self).wf(),
            c.kind == ColumnKind::Advice && c.index == old(self).n_advice,
            final(self).n_advice == old(self).n_advice + 1,
            final(self).n_fixed == old(self).n_fixed,
            final(self).n_instance == old(self).n_instance,
            final(self).n_selectors == old(self).n_selectors,
            final(self).equality_enabled == old(self).equality_enabled,
            final(self).constant_column == old(self).constant_column,
            final(self).gates == old(self).gates,
            final(self).lookups == old(self).lookups,
    {
        let c = Column { kind: ColumnKind::Advice, index: self.n_advice };
        self.n_advice = self.n_advice + 1;
        c
    }

    /// Declares a fresh fixed column.
    pub fn fixed_column(&mut self) -> (c: Column)
        requires
            old(self).wf(),
            old(self).n_fixed < 0x40,
        ensures
            final(self).wf(),
            c.kind == ColumnKind::Fixed && c.index == old(self).n_fixed,
            final(self).n_fixed == old(self).n_fixed + 1,
            final(self).n_advice == old(self).n_advice,
            final(self).n_instance == old(self).n_instance,
            final(self).n_selectors == old(self).n_selectors,
            final(self).equality_enabled == old(self).equality_enabled,
            final(self).constant_column == old(self).constant_column,
            final(self).gates == old(self).gates,
            final(self).lookups == old(self).lookups,
    {
        let c = Column { kind: ColumnKind::Fixed, index: self.n_fixed };
        self.n_fixed = self.n_fixed + 1;
        c
    }

    /// Declares a fresh instance column.
    pub fn instance_column(&mut self) -> (c: Column)
        requires
            old(self).wf(),
            old(self).n_instance < 0x40,
        ensures
            final(self).wf(),
            c.kind == ColumnKind::Instance && c.index == old(self).n_instance,
            final(self).n_instance == old(self).n_instance + 1,
            final(self).n_advice == old(self).n_advice,
            final(self).n_fixed == old(self).n_fixed,
            final(self).n_selectors == old(self).n_selectors,
            final(self).equality_enabled == old(self).equality_enabled,
            final(self).constant_column == old(self).constant_column,
            final(self).gates == old(self).gates,
            final(self).lookups == old(self).lookups,
    {
        let c = Column { kind: ColumnKind::Instance, index: self.n_instance };
        self.n_instance = self.n_instance + 1;
        c
    }

    /// Declares a fresh selector.
    pub fn selector(&mut self) -> (s: Selector)
        requires
            old(self).wf(),
            old(self).n_selectors < 0x40,
        ensures
            final(self).wf(),
            s.index == old(self).n_selectors,
            final(self).n_selectors == old(self).n_selectors + 1,
            final(self).n_advice == old(self).n_advice,
            final(self).n_fixed == old(self).n_fixed,
            final(self).n_instance == old(self).n_instance,
            final(self).equality_enabled == old(self).equality_enabled,
            final(self).constant_column == old(self).constant_column,
            final(self).gates == old(self).gates,
            final(self).lookups == old(self).lookups,
    {
        let s = Selector { index: self.n_selectors };
        self.n_selectors = self.n_selectors + 1;
        s
    }

    /// Declares a fresh selector that may take part in lookup arguments.
    ///
    /// The distinction from `selector` matters only to a proving backend's
    /// selector compression; here both behave alike.
    pub fn complex_selector(&mut self) -> (s: Selector)
        requires
            old(self).wf(),
            old(self).n_selectors < 0x40,
        ensures
            final(self).wf(),
            s.index == old(self).n_selectors,
            final(self).n_selectors == old(self).n_selectors + 1,
            final(self).n_advice == old(self).n_advice,
            final(self).n_fixed == old(self).n_fixed,
            final(self).n_instance == old(self).n_instance,
            final(self).equality_enabled == old(self).equality_enabled,
            final(self).constant_column == old(self).constant_column,
            final(self).gates == old(self).gates,
            final(self).lookups == old(self).lookups,
    {
        self.selector()
    }

    /// Marks `c` as eligible for copy constraints.
    pub fn enable_equality(&mut self, c: Column)
        requires
            old(self).wf(),
        ensures
            final(self).wf(),
            final(self).equality_enabled@ == old(self).equality_enabled@.push(c),
            final(self).equality_ok(c),
            forall|c2: Column| old(self).equality_ok(c2) ==> final(self).equality_ok(c2),
            final(self).n_advice == old(self).n_advice,
            final(self).n_fixed == old(self).n_fixed,
            final(self).n_instance == old(self).n_instance,
            final(self).n_selectors == old(self).n_selectors,
            final(self).constant_column == old(self).constant_column,
            final(self).gates == old(self).gates,
            final(self).lookups == old(self).lookups,
    {
        self.equality_enabled.push(c);
        proof {
            let s_new = self.equality_enabled@;
            let s_old = old(self).equality_enabled@;
            assert(s_new[s_old.len() as int] == c);
            assert forall|c2: Column| old(self).equality_ok(c2) implies self.equality_ok(c2) by {
                let i = choose|i: int| 0 <= i < s_old.len() && s_old[i] == c2;
                assert(s_new[i] == c2);
            }
        }
    }

    /// Designates `c` as the column that holds constant assignments, and
    /// enables equality on it so that advice cells can be bound to its
    /// entries.
    pub fn enable_constant(&mut self, c: Column)
        requires
            old(self).wf(),
            c.kind == ColumnKind::Fixed,
            c.index < old(self).n_fixed,
        ensures
            final(self).wf(),
            final(self).constant_column == Some(c),
            final(self).equality_enabled@ == old(self).equality_enabled@.push(c),
            final(self).equality_ok(c),
            forall|c2: Column| old(self).equality_ok(c2) ==> final(self).equality_ok(c2),
            final(self).n_advice == old(self).n_advice,
            final(self).n_fixed == old(self).n_fixed,
            final(self).n_instance == old(self).n_instance,
            final(self).n_selectors == old(self).n_selectors,
            final(self).gates == old(self).gates,
            final(self).lookups == old(self).lookups,
    {
        self.constant_column = Some(c);
        self.enable_equality(c);
    }

    /// Registers a gate: a named list of constraint expressions gated by
    /// `selector`. Each expression must embed the selector as a
    /// multiplicative factor; the checker evaluates every constraint at
    /// every row.
    pub fn create_gate(&mut self, name: &'static str, selector: Selector, constraints: Vec<
        Expression,
    >)
        requires
            old(self).wf(),
            forall|j: int| 0 <= j < constraints@.len() ==> (#[trigger] constraints@[j]).wf(),
        ensures
            final(self).wf(),
            final(self).gates@ == old(self).gates@.push(
                Gate { name, selector, constraints },
            ),
            final(self).n_advice == old(self).n_advice,
            final(self).n_fixed == old(self).n_fixed,
            final(self).n_instance == old(self).n_instance,
            final(self).n_selectors == old(self).n_selectors,
            final(self).equality_enabled == old(self).equality_enabled,
            final(self).constant_column == old(self).constant_column,
            final(self).lookups == old(self).lookups,
    {
        self.gates.push(Gate { name, selector, constraints });
    }

    /// Registers a lookup argument: at every row where `selector` is
    /// enabled, the value of `input` must appear in the fixed column
    /// `table`.
    pub fn lookup(&mut self, selector: Selector, input: Expression, table: Column)
        requires
            old(self).wf(),
            input.wf(),
            table.kind == ColumnKind::Fixed,
        ensures
            final(self).wf(),
            final(self).lookups@ == old(self).lookups@.push(
                LookupArgument { selector, input, table },
            ),
            final(self).n_advice == old(self).n_advice,
            final(self).n_fixed == old(self).n_fixed,
            final(self).n_instance == old(self).n_instance,
            final(self).n_selectors == old(self).n_selectors,
            final(self).equality_enabled == old(self).equality_enabled,
            final(self).constant_column == old(self).constant_column,
            final(self).gates == old(self).gates,
    {
        self.lookups.push(LookupArgument { selector, input, table });
    }
}

} // verus!
