//! The expression algebra: symbolic polynomial expressions over cell queries
//! and selectors.
//!
//! An expression is a side-effect-free tree, so a gate built once can be
//! reused at every row through rotation-relative addressing. Concrete
//! evaluation lives with the grid (see `grid`): it substitutes a row-indexed
//! witness lookup for every query node and folds the operators with the
//! field's ring operations.

use crate::columns::{Column, Rotation, Selector};
use crate::field::Fp;
use vstd::prelude::*;

verus! {

/// A symbolic algebraic expression over cell queries and selectors.
#[derive(Debug)]
pub enum Expression {
    /// A constant field element.
    Constant(Fp),
    /// The value of a cell, addressed relative to the evaluation row.
    Query(Column, Rotation),
    /// The value of a selector at the evaluation row: 1 where enabled, 0
    /// elsewhere.
    SelectorQuery(Selector),
    /// A sum of two expressions.
    Sum(Box<Expression>, Box<Expression>),
    /// A difference of two expressions.
    Difference(Box<Expression>, Box<Expression>),
    /// A product of two expressions.
    Product(Box<Expression>, Box<Expression>),
    /// The negation of an expression.
    Negated(Box<Expression>),
}

impl Clone for Expression {
    /// A clone of an expression is the same tree.
    fn clone(&self) -> (r: Expression)
        ensures
            r == *self,
        decreases self,
    {
        match self {
            Expression::Constant(f) => Expression::Constant(*f),
            Expression::Query(c, rot) => Expression::Query(*c, *rot),
            Expression::SelectorQuery(s) => Expression::SelectorQuery(*s),
            Expression::Sum(a, b) => Expression::Sum(Box::new((**a).clone()), Box::new((**b).clone())),
            Expression::Difference(a, b) => Expression::Difference(
                Box::new((**a).clone()),
                Box::new((**b).clone()),
            ),
            Expression::Product(a, b) => Expression::Product(
                Box::new((**a).clone()),
                Box::new((**b).clone()),
            ),
            Expression::Negated(a) => Expression::Negated(Box::new((**a).clone())),
        }
    }
}

impl Expression {
    /// Every constant appearing in the expression is a reduced field element.
    pub open spec fn wf(self) -> bool
        decreases self,
    {
        match self {
            Expression::Constant(f) => f.wf(),
            Expression::Query(_, _) => true,
            Expression::SelectorQuery(_) => true,
            Expression::Sum(a, b) => a.wf() && b.wf(),
            Expression::Difference(a, b) => a.wf() && b.wf(),
            Expression::Product(a, b) => a.wf() && b.wf(),
            Expression::Negated(a) => a.wf(),
        }
    }

    /// A constant expression.
    pub fn constant(f: Fp) -> (r: Expression)
        ensures
            r == Expression::Constant(f),
    {
        Expression::Constant(f)
    }

    /// A query of the cell in `column`, `rotation` rows away from the
    /// evaluation row.
    pub fn query(column: Column, rotation: Rotation) -> (r: Expression)
        ensures
            r == Expression::Query(column, rotation),
    {
        Expression::Query(column, rotation)
    }

    /// A query of a selector at the evaluation row.
    pub fn query_selector(selector: Selector) -> (r: Expression)
        ensures
            r == Expression::SelectorQuery(selector),
    {
        Expression::SelectorQuery(selector)
    }

    /// The sum of two expressions.
    pub fn add(self, other: Expression) -> (r: Expression)
        ensures
            r == Expression::Sum(Box::new(self), Box::new(other)),
    {
        Expression::Sum(Box::new(self), Box::new(other))
    }

    /// The difference of two expressions.
    pub fn sub(self, other: Expression) -> (r: Expression)
        ensures
            r == Expression::Difference(Box::new(self), Box::new(other)),
    {
        Expression::Difference(Box::new(self), Box::new(other))
    }

    /// The product of two expressions.
    pub fn mul(self, other: Expression) -> (r: Expression)
        ensures
            r == Expression::Product(Box::new(self), Box::new(other)),
    {
        Expression::Product(Box::new(self), Box::new(other))
    }

    /// The negation of an expression.
    pub fn neg(self) -> (r: Expression)
        ensures
            r == Expression::Negated(Box::new(self)),
    {
        Expression::Negated(Box::new(self))
    }
}

} // verus!
