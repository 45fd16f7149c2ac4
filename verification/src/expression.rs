//! The polynomial expressions that gates are made of.

use vstd::prelude::*;
use crate::assignment::{Assignment, Grid};
use crate::columns::{rotate, rotated, Column, Rotation, Selector};
use crate::field::{add_mod, mul_mod, sub_mod, Field};
use crate::value::Value;

verus! {

/// A polynomial over the cells of the grid, kept as a tree until it is
/// evaluated at a row.
#[derive(Debug)]
pub enum Expr<F: Field> {
    /// A constant of the field.
    Constant(F),
    /// The cell of an advice column, `rotation` rows from the row of
    /// evaluation.
    AdviceQuery { column: Column, rotation: Rotation },
    /// One where the selector is on at the row of evaluation, zero where it
    /// is off.
    SelectorQuery { selector: Selector },
    /// The sum of two expressions.
    Add(Box<Expr<F>>, Box<Expr<F>>),
    /// The difference of two expressions.
    Sub(Box<Expr<F>>, Box<Expr<F>>),
    /// The product of two expressions.
    Mul(Box<Expr<F>>, Box<Expr<F>>),
}

/// How many different selectors an expression, or a gate, refers to.
#[derive(Clone, Copy, Debug, PartialEq, Eq, Structural)]
pub enum SelectorUse {
    /// None at all.
    Absent,
    /// This one, and no other.
    Single(Selector),
    /// More than one.
    Mixed,
}

impl SelectorUse {
    /// The selectors of two expressions taken together.
    pub open spec fn merged(self, other: SelectorUse) -> SelectorUse {
        match (self, other) {
            (SelectorUse::Absent, _) => other,
            (_, SelectorUse::Absent) => self,
            (SelectorUse::Single(a), SelectorUse::Single(b)) => if a == b {
                self
            } else {
                SelectorUse::Mixed
            },
            _ => SelectorUse::Mixed,
        }
    }

    /// Whether `self` says how many selectors satisfy `mentioned`.
    pub open spec fn describes(self, mentioned: spec_fn(Selector) -> bool) -> bool {
        match self {
            SelectorUse::Absent => forall|s: Selector| !#[trigger] mentioned(s),
            SelectorUse::Single(s) => mentioned(s) && forall|t: Selector| #[trigger]
                mentioned(t) ==> t == s,
            SelectorUse::Mixed => exists|a: Selector, b: Selector|
                a != b && #[trigger] mentioned(a) && #[trigger] mentioned(b),
        }
    }

    /// Where a whole mentions what either of two parts mentions, merging
    /// what was found in the parts says what the whole mentions.
    pub proof fn lemma_merged(
        whole: spec_fn(Selector) -> bool,
        left: spec_fn(Selector) -> bool,
        right: spec_fn(Selector) -> bool,
        a: SelectorUse,
        b: SelectorUse,
    )
        requires
            forall|s: Selector| #[trigger] whole(s) == (left(s) || right(s)),
            a.describes(left),
            b.describes(right),
        ensures
            a.merged(b).describes(whole),
    {
        match (a, b) {
            (SelectorUse::Single(x), SelectorUse::Single(y)) => {
                assert(whole(x) && whole(y));
            },
            (SelectorUse::Single(x), SelectorUse::Absent) => {
                assert(whole(x));
            },
            (SelectorUse::Absent, SelectorUse::Single(y)) => {
                assert(whole(y));
            },
            (SelectorUse::Mixed, _) => {
                let (p, q) = choose|p: Selector, q: Selector|
                    p != q && #[trigger] left(p) && #[trigger] left(q);
                assert(p != q && whole(p) && whole(q));
            },
            (_, SelectorUse::Mixed) => {
                let (p, q) = choose|p: Selector, q: Selector|
                    p != q && #[trigger] right(p) && #[trigger] right(q);
                assert(p != q && whole(p) && whole(q));
            },
            _ => {},
        }
    }

    /// Computes [`SelectorUse::merged`].
    pub fn merge(self, other: SelectorUse) -> (r: SelectorUse)
        ensures
            r == self.merged(other),
    {
        match self {
            SelectorUse::Absent => other,
            SelectorUse::Mixed => match other {
                SelectorUse::Absent => self,
                _ => SelectorUse::Mixed,
            },
            SelectorUse::Single(a) => match other {
                SelectorUse::Absent => self,
                SelectorUse::Single(b) => if a.index == b.index {
                    self
                } else {
                    SelectorUse::Mixed
                },
                SelectorUse::Mixed => SelectorUse::Mixed,
            },
        }
    }
}

impl<F: Field> Expr<F> {
    /// The residue of the expression at `row` of `grid`, or nothing where it
    /// reads a cell that is unassigned.
    pub open spec fn eval(self, grid: Grid, row: int) -> Option<nat>
        decreases self,
    {
        match self {
            Expr::Constant(c) => Some(c.residue()),
            Expr::AdviceQuery { column, rotation } => grid.cell(
                column,
                rotated(row, rotation.0 as int, grid.rows as int),
            ),
            Expr::SelectorQuery { selector } => Some(
                if grid.enabled.contains((selector, row)) {
                    1nat
                } else {
                    0nat
                },
            ),
            Expr::Add(l, r) => match (l.eval(grid, row), r.eval(grid, row)) {
                (Some(x), Some(y)) => Some(add_mod(x, y, F::modulus())),
                _ => None,
            },
            Expr::Sub(l, r) => match (l.eval(grid, row), r.eval(grid, row)) {
                (Some(x), Some(y)) => Some(sub_mod(x, y, F::modulus())),
                _ => None,
            },
            Expr::Mul(l, r) => match (l.eval(grid, row), r.eval(grid, row)) {
                (Some(x), Some(y)) => Some(mul_mod(x, y, F::modulus())),
                _ => None,
            },
        }
    }

    /// Whether the expression queries `selector` somewhere.
    pub open spec fn mentions(self, selector: Selector) -> bool
        decreases self,
    {
        match self {
            Expr::Constant(_) => false,
            Expr::AdviceQuery { .. } => false,
            Expr::SelectorQuery { selector: s } => s == selector,
            Expr::Add(l, r) => l.mentions(selector) || r.mentions(selector),
            Expr::Sub(l, r) => l.mentions(selector) || r.mentions(selector),
            Expr::Mul(l, r) => l.mentions(selector) || r.mentions(selector),
        }
    }

    /// Whether every column and selector that the expression queries is one
    /// of the first `advice_columns` columns or `selectors` selectors.
    pub open spec fn within(self, advice_columns: nat, selectors: nat) -> bool
        decreases self,
    {
        match self {
            Expr::Constant(_) => true,
            Expr::AdviceQuery { column, .. } => column.index < advice_columns,
            Expr::SelectorQuery { selector } => selector.index < selectors,
            Expr::Add(l, r) => l.within(advice_columns, selectors) && r.within(
                advice_columns,
                selectors,
            ),
            Expr::Sub(l, r) => l.within(advice_columns, selectors) && r.within(
                advice_columns,
                selectors,
            ),
            Expr::Mul(l, r) => l.within(advice_columns, selectors) && r.within(
                advice_columns,
                selectors,
            ),
        }
    }

    /// An expression that stays within some counts stays within larger ones.
    pub proof fn lemma_within_grows(
        self,
        advice_columns: nat,
        selectors: nat,
        more_columns: nat,
        more_selectors: nat,
    )
        requires
            self.within(advice_columns, selectors),
            advice_columns <= more_columns,
            selectors <= more_selectors,
        ensures
            self.within(more_columns, more_selectors),
        decreases self,
    {
        match self {
            Expr::Add(l, r) | Expr::Sub(l, r) | Expr::Mul(l, r) => {
                l.lemma_within_grows(advice_columns, selectors, more_columns, more_selectors);
                r.lemma_within_grows(advice_columns, selectors, more_columns, more_selectors);
            },
            _ => {},
        }
    }

    /// Whether the expression queries `selector` and no other selector.
    pub open spec fn mentions_only(self, selector: Selector) -> bool {
        &&& self.mentions(selector)
        &&& forall|other: Selector| #[trigger] self.mentions(other) ==> other == selector
    }

    /// Whether `found` says how many selectors the expression queries.
    pub open spec fn has_use(self, found: SelectorUse) -> bool {
        found.describes(|s: Selector| self.mentions(s))
    }

    /// The constant `value`.
    pub fn constant(value: F) -> (r: Self)
        ensures
            r == Expr::Constant(value),
    {
        Expr::Constant(value)
    }

    /// The expression `self + rhs`.
    pub fn add(self, rhs: Self) -> (r: Self)
        ensures
            r == Expr::Add(Box::new(self), Box::new(rhs)),
    {
        Expr::Add(Box::new(self), Box::new(rhs))
    }

    /// The expression `self - rhs`.
    pub fn sub(self, rhs: Self) -> (r: Self)
        ensures
            r == Expr::Sub(Box::new(self), Box::new(rhs)),
    {
        Expr::Sub(Box::new(self), Box::new(rhs))
    }

    /// The expression `self * rhs`.
    pub fn mul(self, rhs: Self) -> (r: Self)
        ensures
            r == Expr::Mul(Box::new(self), Box::new(rhs)),
    {
        Expr::Mul(Box::new(self), Box::new(rhs))
    }

    /// Evaluates the expression at `row` of a grid: unknown where it reads a
    /// cell that holds no value.
    pub fn evaluate(&self, assignment: &Assignment<F>, row: usize) -> (r: Value<F>)
        requires
            assignment.wf(),
        ensures
            r.residue() == self.eval(assignment@, row as int),
        decreases self,
    {
        match self {
            Expr::Constant(c) => Value::known(*c),
            Expr::AdviceQuery { column, rotation } => {
                let at = rotate(row, *rotation, assignment.rows());
                assignment.cell(*column, at)
            },
            Expr::SelectorQuery { selector } => {
                if assignment.selector_enabled(*selector, row) {
                    Value::known(F::one())
                } else {
                    Value::known(F::zero())
                }
            },
            Expr::Add(l, r) => {
                match (l.evaluate(assignment, row).into_option(), r.evaluate(assignment, row).into_option()) {
                    (Some(x), Some(y)) => Value::known(x.add(&y)),
                    _ => Value::unknown(),
                }
            },
            Expr::Sub(l, r) => {
                match (l.evaluate(assignment, row).into_option(), r.evaluate(assignment, row).into_option()) {
                    (Some(x), Some(y)) => Value::known(x.sub(&y)),
                    _ => Value::unknown(),
                }
            },
            Expr::Mul(l, r) => {
                match (l.evaluate(assignment, row).into_option(), r.evaluate(assignment, row).into_option()) {
                    (Some(x), Some(y)) => Value::known(x.mul(&y)),
                    _ => Value::unknown(),
                }
            },
        }
    }

    /// Whether every column and selector that the expression queries lies
    /// within the given counts.
    pub fn is_within(&self, advice_columns: usize, selectors: usize) -> (r: bool)
        ensures
            r == self.within(advice_columns as nat, selectors as nat),
        decreases self,
    {
        match self {
            Expr::Constant(_) => true,
            Expr::AdviceQuery { column, .. } => column.index < advice_columns,
            Expr::SelectorQuery { selector } => selector.index < selectors,
            Expr::Add(l, r) => l.is_within(advice_columns, selectors) && r.is_within(
                advice_columns,
                selectors,
            ),
            Expr::Sub(l, r) => l.is_within(advice_columns, selectors) && r.is_within(
                advice_columns,
                selectors,
            ),
            Expr::Mul(l, r) => l.is_within(advice_columns, selectors) && r.is_within(
                advice_columns,
                selectors,
            ),
        }
    }

    /// Finds out whether the expression queries no selector, one, or several.
    pub fn selector_use(&self) -> (found: SelectorUse)
        ensures
            self.has_use(found),
        decreases self,
    {
        match self {
            Expr::Constant(_) => SelectorUse::Absent,
            Expr::AdviceQuery { .. } => SelectorUse::Absent,
            Expr::SelectorQuery { selector } => SelectorUse::Single(*selector),
            Expr::Add(l, r) => {
                let a = l.selector_use();
                let b = r.selector_use();
                proof {
                    SelectorUse::lemma_merged(
                        |s: Selector| self.mentions(s),
                        |s: Selector| l.mentions(s),
                        |s: Selector| r.mentions(s),
                        a,
                        b,
                    );
                }
                a.merge(b)
            },
            Expr::Sub(l, r) => {
                let a = l.selector_use();
                let b = r.selector_use();
                proof {
                    SelectorUse::lemma_merged(
                        |s: Selector| self.mentions(s),
                        |s: Selector| l.mentions(s),
                        |s: Selector| r.mentions(s),
                        a,
                        b,
                    );
                }
                a.merge(b)
            },
            Expr::Mul(l, r) => {
                let a = l.selector_use();
                let b = r.selector_use();
                proof {
                    SelectorUse::lemma_merged(
                        |s: Selector| self.mentions(s),
                        |s: Selector| l.mentions(s),
                        |s: Selector| r.mentions(s),
                        a,
                        b,
                    );
                }
                a.merge(b)
            },
        }
    }
}

} // verus!
