//! Symbolic polynomial expressions over the cells of one row.

use crate::field::{fmod, modulus, Felt};
use vstd::arithmetic::div_mod::lemma_small_mod;
use vstd::prelude::*;

verus! {

/// The cells of one row: which selectors are enabled, and what each advice
/// column holds.
#[derive(Debug)]
pub struct Row {
    pub selectors: Vec<bool>,
    pub advice: Vec<Felt>,
}

impl Row {
    pub open spec fn wf(self) -> bool {
        forall|c: int| 0 <= c < self.advice@.len() ==> #[trigger] self.advice@[c].wf()
    }

    /// The selectors enabled on the row.
    pub open spec fn sel_set(self) -> Set<usize> {
        Set::new(|s: usize| s < self.selectors@.len() && self.selectors@[s as int])
    }

    /// The advice cells of the row, by column.
    pub open spec fn adv_map(self) -> Map<usize, int> {
        Map::new(|c: usize| c < self.advice@.len(), |c: usize| self.advice@[c as int].value())
    }
}

/// A polynomial over the cells of the current row: constants, selectors
/// (enabled or not on the row), advice columns, and their sums, products
/// and negations.
#[derive(Debug)]
pub enum Expr {
    Constant(Felt),
    Selector(usize),
    Advice(usize),
    Negated(Box<Expr>),
    Sum(Box<Expr>, Box<Expr>),
    Product(Box<Expr>, Box<Expr>),
}

impl Expr {
    /// The value of the expression on a row whose enabled selectors are
    /// `sel` and whose advice cells hold `adv` (a missing cell reads as zero).
    pub open spec fn eval(self, sel: Set<usize>, adv: Map<usize, int>) -> int
        decreases self,
    {
        match self {
            Expr::Constant(c) => fmod(c.value()),
            Expr::Selector(s) => if sel.contains(s) { 1 } else { 0 },
            Expr::Advice(c) => if adv.contains_key(c) { fmod(adv[c]) } else { 0 },
            Expr::Negated(a) => fmod(-a.eval(sel, adv)),
            Expr::Sum(a, b) => fmod(a.eval(sel, adv) + b.eval(sel, adv)),
            Expr::Product(a, b) => fmod(a.eval(sel, adv) * b.eval(sel, adv)),
        }
    }

    /// Every constant is a canonical field element.
    pub open spec fn wf(self) -> bool
        decreases self,
    {
        match self {
            Expr::Constant(c) => c.wf(),
            Expr::Selector(_) => true,
            Expr::Advice(_) => true,
            Expr::Negated(a) => a.wf(),
            Expr::Sum(a, b) => a.wf() && b.wf(),
            Expr::Product(a, b) => a.wf() && b.wf(),
        }
    }

    /// The value of the expression on a concrete row.
    pub fn evaluate(&self, row: &Row) -> (r: Felt)
        requires
            self.wf(),
            row.wf(),
        ensures
            r.wf(),
            r.value() == self.eval(row.sel_set(), row.adv_map()),
        decreases self,
    {
        match self {
            Expr::Constant(c) => {
                proof {
                    lemma_small_mod(c.value() as nat, modulus() as nat);
                }
                *c
            },
            Expr::Selector(s) => {
                if *s < row.selectors.len() && row.selectors[*s] {
                    Felt::one()
                } else {
                    Felt::zero()
                }
            },
            Expr::Advice(c) => {
                if *c < row.advice.len() {
                    let x = row.advice[*c];
                    proof {
                        assert(row.advice@[*c as int].wf());
                        lemma_small_mod(x.value() as nat, modulus() as nat);
                    }
                    x
                } else {
                    Felt::zero()
                }
            },
            Expr::Negated(a) => a.evaluate(row).neg(),
            Expr::Sum(a, b) => a.evaluate(row).add(&b.evaluate(row)),
            Expr::Product(a, b) => a.evaluate(row).mul(&b.evaluate(row)),
        }
    }

    /// The advice columns that the expression reads.
    pub open spec fn columns(self) -> Set<usize>
        decreases self,
    {
        match self {
            Expr::Constant(_) => Set::empty(),
            Expr::Selector(_) => Set::empty(),
            Expr::Advice(c) => set![c],
            Expr::Negated(a) => a.columns(),
            Expr::Sum(a, b) => a.columns().union(b.columns()),
            Expr::Product(a, b) => a.columns().union(b.columns()),
        }
    }

    /// A copy of the expression.
    pub fn duplicate(&self) -> (r: Expr)
        ensures
            r == *self,
        decreases self,
    {
        match self {
            Expr::Constant(c) => Expr::Constant(*c),
            Expr::Selector(s) => Expr::Selector(*s),
            Expr::Advice(c) => Expr::Advice(*c),
            Expr::Negated(a) => Expr::Negated(Box::new(a.duplicate())),
            Expr::Sum(a, b) => Expr::Sum(Box::new(a.duplicate()), Box::new(b.duplicate())),
            Expr::Product(a, b) => Expr::Product(
                Box::new(a.duplicate()),
                Box::new(b.duplicate()),
            ),
        }
    }
}

/// Writing a cell that the expression does not read leaves its value as it is.
pub proof fn lemma_eval_ignores_other_columns(
    e: Expr,
    sel: Set<usize>,
    adv: Map<usize, int>,
    c: usize,
    x: int,
)
    requires
        !e.columns().contains(c),
    ensures
        e.eval(sel, adv.insert(c, x)) == e.eval(sel, adv),
    decreases e,
{
    match e {
        Expr::Negated(a) => {
            lemma_eval_ignores_other_columns(*a, sel, adv, c, x);
        },
        Expr::Sum(a, b) => {
            lemma_eval_ignores_other_columns(*a, sel, adv, c, x);
            lemma_eval_ignores_other_columns(*b, sel, adv, c, x);
        },
        Expr::Product(a, b) => {
            lemma_eval_ignores_other_columns(*a, sel, adv, c, x);
            lemma_eval_ignores_other_columns(*b, sel, adv, c, x);
        },
        _ => {},
    }
}

} // verus!
