//! The IsZero gadget: its configuration, the identity that it declares, and the
//! witness that it assigns.

use crate::circuit::{AssignError, ConstraintSystem, Gate, Region, Witness};
use crate::expr::Expr;
use crate::field::{fmod, modulus, Felt};
use vstd::arithmetic::div_mod::{
    lemma_add_mod_noop_right, lemma_mod_add_multiples_vanish, lemma_mod_bound,
    lemma_mul_mod_noop, lemma_small_mod, lemma_sub_mod_noop_right,
};
use vstd::prelude::*;
use vstd::string::*;

verus! {

/// The indicator `1 - v * h` that the gadget exposes.
pub open spec fn indicator_value(v: int, h: int) -> int {
    fmod(1 - v * h)
}

/// The declared identity `e * v * (1 - v * h)`, which must vanish.
pub open spec fn gate_value(e: int, v: int, h: int) -> int {
    fmod(e * v * (1 - v * h))
}

/// `h` is the helper that the assigner computes for `v`: the inverse of a
/// non-zero value, zero for zero.
pub open spec fn is_helper_for(v: int, h: int) -> bool {
    if v == 0 {
        h == 0
    } else {
        fmod(v * h) == 1
    }
}

/// The indicator expression `1 - value * helper`, with the helper read from
/// advice column `col` of the current row.
pub open spec fn is_indicator_expr(e: Expr, value: Expr, col: usize) -> bool {
    match e {
        Expr::Sum(a, b) => {
            &&& (match *a {
                Expr::Constant(c) => c.value() == 1,
                _ => false,
            })
            &&& *b == Expr::Negated(
                Box::new(Expr::Product(Box::new(value), Box::new(Expr::Advice(col)))),
            )
        },
        _ => false,
    }
}

/// For a canonical `w`, `1 - w` vanishes in the field only where `w` is one.
proof fn lemma_one_minus_vanishes(w: int)
    requires
        0 <= w < modulus(),
    ensures
        fmod(1 - w) == 0 <==> w == 1,
{
    let m = modulus();
    if w == 0 {
        lemma_small_mod(1, m as nat);
        assert(fmod(1 - w) == 1);
    } else if w == 1 {
        assert(fmod(1 - w) == 0);
    } else {
        lemma_mod_add_multiples_vanish(1 - w, m);
        lemma_small_mod((m + 1 - w) as nat, m as nat);
        assert((m + (1 - w)) % m == m + 1 - w);
        assert(fmod(1 - w) == m + 1 - w);
    }
}

/// The polynomial `q * value * indicator` that the configurator
/// declares, with its indicator reading helper column `col`.
pub open spec fn is_gate_poly(g: Expr, q: Expr, value: Expr, col: usize) -> bool {
    match g {
        Expr::Product(a, ind) => {
            &&& *a == Expr::Product(Box::new(q), Box::new(value))
            &&& is_indicator_expr(*ind, value, col)
        },
        _ => false,
    }
}

/// The indicator expression evaluates to `1 - value * helper`.
pub proof fn lemma_indicator_eval(e: Expr, value: Expr, col: usize, sel: Set<usize>, adv: Map<
    usize,
    int,
>)
    requires
        is_indicator_expr(e, value, col),
    ensures
        e.eval(sel, adv) == indicator_value(value.eval(sel, adv), Expr::Advice(col).eval(sel, adv)),
{
    let m = modulus();
    let vh = value.eval(sel, adv) * Expr::Advice(col).eval(sel, adv);
    if let Expr::Sum(a, b) = e {
        if let Expr::Negated(p) = *b {
            assert(p.eval(sel, adv) == fmod(vh));
        }
        assert(b.eval(sel, adv) == fmod(-fmod(vh)));
        lemma_small_mod(1, m as nat);
        assert(a.eval(sel, adv) == 1);
        assert(e.eval(sel, adv) == fmod(1 + fmod(-fmod(vh))));
        lemma_add_mod_noop_right(1, -fmod(vh), m);
        assert(e.eval(sel, adv) == fmod(1 - fmod(vh)));
        lemma_sub_mod_noop_right(1, vh, m);
    }
}

/// `h` is what the assigner writes for `value`: unknown stays unknown, a
/// known value gets its helper.
pub open spec fn is_helper_witness(value: Witness, h: Witness) -> bool {
    match (value, h) {
        (Witness::Unknown, Witness::Unknown) => true,
        (Witness::Known(v), Witness::Known(w)) => w.wf() && is_helper_for(v.value(), w.value()),
        _ => false,
    }
}

/// The helper witness for `value`: its inverse, zero when it is zero, and
/// unknown when it is unknown.
pub fn helper_value(value: Witness) -> (r: Witness)
    requires
        value.wf(),
    ensures
        is_helper_witness(value, r),
{
    match value {
        Witness::Unknown => Witness::Unknown,
        Witness::Known(v) => match v.invert() {
            Some(w) => Witness::Known(w),
            None => Witness::Known(Felt::zero()),
        },
    }
}

/// The indicator `1 - value * helper` on concrete values.
pub fn indicator(value: &Felt, helper: &Felt) -> (r: Felt)
    requires
        value.wf(),
        helper.wf(),
    ensures
        r.wf(),
        r.value() == indicator_value(value.value(), helper.value()),
{
    let p = value.mul(helper);
    let r = Felt::one().sub(&p);
    proof {
        lemma_sub_mod_noop_right(1, value.value() * helper.value(), modulus());
    }
    r
}

/// Whether a row with enable value `enable` satisfies the gadget's identity.
/// It does exactly when the row is disabled, the value is zero, or the
/// helper is the value's inverse; any other helper is rejected.
pub fn row_satisfied(enable: &Felt, value: &Felt, helper: &Felt) -> (r: bool)
    requires
        enable.wf(),
        value.wf(),
        helper.wf(),
    ensures
        r == (gate_value(enable.value(), value.value(), helper.value()) == 0),
        r == (enable.value() == 0 || value.value() == 0 || fmod(value.value() * helper.value())
            == 1),
{
    let ind = indicator(value, helper);
    let ev = enable.mul(value);
    let g = ev.mul(&ind);
    proof {
        let (e, v, h) = (enable.value(), value.value(), helper.value());
        lemma_mul_mod_noop(e * v, 1 - v * h, modulus());
        lemma_sub_mod_noop_right(1, v * h, modulus());
        lemma_mod_bound(v * h, modulus());
        lemma_one_minus_vanishes(fmod(v * h));
        if e == 0 || v == 0 {
            assert(e * v == 0) by (nonlinear_arith)
                requires
                    e == 0 || v == 0,
            ;
            lemma_small_mod(0, modulus() as nat);
            assert(ev.value() == 0);
            assert(g.value() == fmod(0 * ind.value()));
            assert(0 * ind.value() == 0);
        }
        if ind.value() == 0 {
            assert(g.value() == fmod(ev.value() * 0));
            lemma_small_mod(0, modulus() as nat);
        }
    }
    g.is_zero()
}

/// The cells of one row that the gadget's identity reads.
#[derive(Clone, Copy, Debug, PartialEq, Eq)]
pub struct RowAssignment {
    pub enabled: bool,
    pub value: Felt,
    pub helper: Felt,
}

impl RowAssignment {
    pub open spec fn wf(self) -> bool {
        self.value.wf() && self.helper.wf()
    }

    /// The gadget's identity holds on the row.
    pub open spec fn satisfied(self) -> bool {
        gate_value(if self.enabled { 1 } else { 0 }, self.value.value(), self.helper.value()) == 0
    }

    /// The row is disabled, its value is zero, or its helper is the value's
    /// inverse.
    pub open spec fn accepted(self) -> bool {
        !self.enabled || self.value.value() == 0 || fmod(self.value.value() * self.helper.value())
            == 1
    }
}

/// Checks the gadget's identity on every row, in order; fails with the index
/// of the first row on which it does not hold. A row passes exactly when it
/// is disabled, its value is zero, or its helper is the value's inverse.
pub fn verify_rows(rows: &Vec<RowAssignment>) -> (r: Result<(), usize>)
    requires
        forall|i: int| 0 <= i < rows@.len() ==> #[trigger] rows@[i].wf(),
    ensures
        r is Ok <==> forall|i: int| 0 <= i < rows@.len() ==> #[trigger] rows@[i].satisfied(),
        r is Ok <==> forall|i: int| 0 <= i < rows@.len() ==> #[trigger] rows@[i].accepted(),
        r matches Err(i) ==> {
            &&& i < rows@.len()
            &&& !rows@[i as int].satisfied()
            &&& !rows@[i as int].accepted()
            &&& forall|j: int| 0 <= j < i ==> #[trigger] rows@[j].satisfied()
        },
{
    let mut i: usize = 0;
    while i < rows.len()
        invariant
            i <= rows@.len(),
            forall|j: int| 0 <= j < rows@.len() ==> #[trigger] rows@[j].wf(),
            forall|j: int| 0 <= j < i ==> #[trigger] rows@[j].satisfied(),
            forall|j: int| 0 <= j < i ==> #[trigger] rows@[j].accepted(),
        decreases rows@.len() - i,
    {
        let row = &rows[i];
        assert(rows@[i as int].wf());
        if row.enabled {
            let one = Felt::one();
            if !row_satisfied(&one, &row.value, &row.helper) {
                assert(!rows@[i as int].satisfied() && !rows@[i as int].accepted());
                return Err(i);
            }
        } else {
            proof {
                let (v, h) = (row.value.value(), row.helper.value());
                assert(0 * v * (1 - v * h) == 0);
                lemma_small_mod(0, modulus() as nat);
            }
        }
        assert(rows@[i as int].satisfied() && rows@[i as int].accepted());
        i = i + 1;
    }
    Ok(())
}

/// The gadget's configuration: the helper column and the indicator
/// expression `1 - value * helper`.
#[derive(Debug)]
pub struct IsZeroConfig {
    pub value_inv: usize,
    pub is_zero_expr: Expr,
}

impl IsZeroConfig {
    /// The indicator expression: 1 on a row whose value is zero, 0 elsewhere.
    pub fn expr(&self) -> (r: Expr)
        ensures
            r == self.is_zero_expr,
    {
        self.is_zero_expr.duplicate()
    }
}

/// The gadget bound to one configuration.
pub struct IsZeroChip {
    config: IsZeroConfig,
}

impl IsZeroChip {
    /// The configuration that the gadget was built with.
    pub closed spec fn spec_config(&self) -> IsZeroConfig {
        self.config
    }

    pub fn construct(config: IsZeroConfig) -> (r: IsZeroChip)
        ensures
            r.spec_config() == config,
    {
        IsZeroChip { config }
    }

    /// Adds a gate `q_enable * value * (1 - value * helper) = 0`,
    /// named "is_zero", with the helper read from column `value_inv`, and
    /// returns the configuration that holds the indicator `1 - value * helper`.
    pub fn configure(meta: &mut ConstraintSystem, q_enable: Expr, value: Expr, value_inv: usize) -> (r:
        IsZeroConfig)
        ensures
            r.value_inv == value_inv,
            is_indicator_expr(r.is_zero_expr, value, value_inv),
            final(meta).gates@.len() == old(meta).gates@.len() + 1,
            old(meta).wf() && q_enable.wf() && value.wf() ==> final(meta).wf(),
            final(meta).gates@.drop_last() == old(meta).gates@,
            final(meta).gates@.last().name@ == "is_zero"@,
            is_gate_poly(final(meta).gates@.last().polys@[0], q_enable, value, value_inv),
            final(meta).gates@.last().polys@ == seq![
                Expr::Product(
                    Box::new(Expr::Product(Box::new(q_enable), Box::new(value))),
                    Box::new(r.is_zero_expr),
                ),
            ],
            forall|sel: Set<usize>, adv: Map<usize, int>| #[trigger]
                r.is_zero_expr.eval(sel, adv) == indicator_value(
                    value.eval(sel, adv),
                    Expr::Advice(value_inv).eval(sel, adv),
                ),
    {
        let helper = Expr::Advice(value_inv);
        let one = Felt::one();
        let is_zero_expr = Expr::Sum(
            Box::new(Expr::Constant(one)),
            Box::new(
                Expr::Negated(Box::new(Expr::Product(Box::new(value.duplicate()), Box::new(helper)))),
            ),
        );
        let poly = Expr::Product(
            Box::new(Expr::Product(Box::new(q_enable), Box::new(value))),
            Box::new(is_zero_expr.duplicate()),
        );
        let mut polys: Vec<Expr> = Vec::new();
        polys.push(poly);
        let ghost before = meta.gates@;
        meta.gates.push(Gate { name: String::from_str("is_zero"), polys });
        proof {
            if old(meta).wf() && q_enable.wf() && value.wf() {
                let neg = Expr::Negated(
                    Box::new(Expr::Product(Box::new(value), Box::new(Expr::Advice(value_inv)))),
                );
                assert(neg.wf()) by {
                    reveal_with_fuel(Expr::wf, 3);
                }
                assert(is_zero_expr.wf()) by {
                    reveal_with_fuel(Expr::wf, 4);
                }
                assert(meta.gates@.last().polys@[0].wf()) by {
                    reveal_with_fuel(Expr::wf, 2);
                }
                assert forall|g: int, p: int|
                    0 <= g < meta.gates@.len() && 0 <= p < meta.gates@[g].polys@.len()
                        implies #[trigger] meta.gates@[g].polys@[p].wf() by {
                    if g < before.len() {
                        assert(meta.gates@[g] == before[g]);
                        assert(before == old(meta).gates@);
                    } else {
                        assert(meta.gates@[g] == meta.gates@.last());
                    }
                }
            }
        }
        assert forall|sel: Set<usize>, adv: Map<usize, int>| #[trigger]
            is_zero_expr.eval(sel, adv) == indicator_value(
                value.eval(sel, adv),
                Expr::Advice(value_inv).eval(sel, adv),
            ) by {
            lemma_indicator_eval(is_zero_expr, value, value_inv, sel, adv);
        }
        IsZeroConfig { value_inv, is_zero_expr }
    }

    /// Writes the helper for `value` (its inverse, zero for zero, unknown
    /// when unknown) into the helper column at row `offset`.
    pub fn assign(&self, region: &mut Region, offset: usize, value: Witness) -> (r: Result<
        (),
        AssignError,
    >)
        requires
            value.wf(),
        ensures
            final(region).usable_rows == old(region).usable_rows,
            r is Err <==> offset >= old(region).usable_rows,
            r matches Err(e) ==> e == AssignError::NotEnoughRowsAvailable && final(region).cells@
                == old(region).cells@,
            r is Ok ==> {
                &&& final(region).cells@.len() == old(region).cells@.len() + 1
                &&& final(region).cells@.drop_last() == old(region).cells@
                &&& final(region).cells@.last().column == self.spec_config().value_inv
                &&& final(region).cells@.last().row == offset
                &&& is_helper_witness(value, final(region).cells@.last().value)
            },
    {
        let h = helper_value(value);
        let r = region.assign_advice(self.config.value_inv, offset, h);
        proof {
            if r is Ok {
                assert(final(region).cells@.drop_last() =~= old(region).cells@);
            }
        }
        r
    }
}

} // verus!
