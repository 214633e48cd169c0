//! General facts about the gadget's identity and indicator.

use crate::chip::{
    gate_value, indicator_value, is_gate_poly, is_helper_for, lemma_indicator_eval,
};
use crate::expr::{lemma_eval_ignores_other_columns, Expr};
use crate::field::{fmod, modulus};
use vstd::arithmetic::div_mod::{
    lemma_mul_mod_noop, lemma_small_mod, lemma_sub_mod_noop_right,
};
use vstd::prelude::*;

verus! {

/// A zero value satisfies the identity with any helper, and its indicator
/// is one.
pub proof fn lemma_zero_value_accepted(e: int, h: int)
    ensures
        indicator_value(0, h) == 1,
        gate_value(e, 0, h) == 0,
{
    lemma_small_mod(1, modulus() as nat);
    lemma_small_mod(0, modulus() as nat);
    assert(e * 0 * (1 - 0 * h) == 0);
}

/// A non-zero value with its inverse as helper satisfies the identity, and
/// its indicator is zero.
pub proof fn lemma_inverse_helper_accepted(e: int, v: int, h: int)
    requires
        v != 0,
        fmod(v * h) == 1,
    ensures
        indicator_value(v, h) == 0,
        gate_value(e, v, h) == 0,
{
    let m = modulus();
    lemma_sub_mod_noop_right(1, v * h, m);
    lemma_small_mod(0, m as nat);
    lemma_mul_mod_noop(e * v, 1 - v * h, m);
    assert(fmod(e * v) * 0 == 0);
}

/// On every row that the assigner fills, and on every zero row whatever its
/// helper, the indicator is 0 or 1, and it is 1 exactly where the value is zero.
pub proof fn lemma_indicator_is_boolean(v: int, h: int)
    requires
        v == 0 || is_helper_for(v, h),
    ensures
        indicator_value(v, h) == 0 || indicator_value(v, h) == 1,
        indicator_value(v, h) == 1 <==> v == 0,
{
    if v == 0 {
        lemma_zero_value_accepted(1, h);
    } else {
        lemma_inverse_helper_accepted(1, v, h);
    }
}

/// A gate polynomial evaluates to the identity `q * value * (1 - value * helper)`.
pub proof fn lemma_gate_eval(g: Expr, q: Expr, value: Expr, col: usize, sel: Set<usize>, adv: Map<
    usize,
    int,
>)
    requires
        is_gate_poly(g, q, value, col),
    ensures
        g.eval(sel, adv) == gate_value(
            q.eval(sel, adv),
            value.eval(sel, adv),
            Expr::Advice(col).eval(sel, adv),
        ),
{
    let m = modulus();
    let (qv, vv, hv) = (q.eval(sel, adv), value.eval(sel, adv), Expr::Advice(col).eval(sel, adv));
    if let Expr::Product(a, ind) = g {
        lemma_indicator_eval(*ind, value, col, sel, adv);
        assert(a.eval(sel, adv) == fmod(qv * vv));
        lemma_mul_mod_noop(qv * vv, 1 - vv * hv, m);
    }
}

/// A declared polynomial vanishes on every row whose value is zero, whatever
/// its helper, and on every row whose helper is the value's inverse.
pub proof fn lemma_gate_vanishes_on_valid_rows(
    g: Expr,
    q: Expr,
    value: Expr,
    col: usize,
    sel: Set<usize>,
    adv: Map<usize, int>,
)
    requires
        is_gate_poly(g, q, value, col),
        value.eval(sel, adv) == 0 || fmod(value.eval(sel, adv) * Expr::Advice(col).eval(sel, adv))
            == 1,
    ensures
        g.eval(sel, adv) == 0,
{
    lemma_gate_eval(g, q, value, col, sel, adv);
    let (qv, vv, hv) = (q.eval(sel, adv), value.eval(sel, adv), Expr::Advice(col).eval(sel, adv));
    if vv == 0 {
        lemma_zero_value_accepted(qv, hv);
    } else {
        lemma_inverse_helper_accepted(qv, vv, hv);
    }
}

/// Two gadgets configured with different helper columns declare independent
/// identities: writing one gadget's helper column never changes the other
/// gadget's identity.
pub proof fn lemma_configurations_independent(
    g1: Expr,
    q1: Expr,
    v1: Expr,
    c1: usize,
    g2: Expr,
    q2: Expr,
    v2: Expr,
    c2: usize,
    sel: Set<usize>,
    adv: Map<usize, int>,
    x: int,
)
    requires
        is_gate_poly(g1, q1, v1, c1),
        is_gate_poly(g2, q2, v2, c2),
        c1 != c2,
        !q1.columns().contains(c2),
        !v1.columns().contains(c2),
        !q2.columns().contains(c1),
        !v2.columns().contains(c1),
    ensures
        g1.eval(sel, adv.insert(c2, x)) == g1.eval(sel, adv),
        g2.eval(sel, adv.insert(c1, x)) == g2.eval(sel, adv),
{
    reveal_with_fuel(Expr::columns, 5);
    lemma_eval_ignores_other_columns(g1, sel, adv, c2, x);
    lemma_eval_ignores_other_columns(g2, sel, adv, c1, x);
}

} // verus!
