use halo2_examples::chip::{
    helper_value, indicator, row_satisfied, verify_rows, IsZeroChip, RowAssignment,
};
use halo2_examples::circuit::{AssignError, ConstraintSystem, Region, VerifyFailure, Witness};
use halo2_examples::expr::{Expr, Row};
use halo2_examples::field::Felt;

const VALUE_COL: usize = 0;
const HELPER_COL: usize = 1;

fn minus_one() -> Felt {
    Felt::one().neg()
}

fn known(w: Witness) -> Felt {
    match w {
        Witness::Known(x) => x,
        Witness::Unknown => panic!("helper is unknown"),
    }
}

/// Configures the gadget on a fresh constraint system, assigns a helper for
/// each value on consecutive rows, and returns the rows the identity reads.
fn assigned_rows(values: &[Felt]) -> Vec<RowAssignment> {
    let mut meta = ConstraintSystem::new();
    let config = IsZeroChip::configure(
        &mut meta,
        Expr::Selector(0),
        Expr::Advice(VALUE_COL),
        HELPER_COL,
    );
    let chip = IsZeroChip::construct(config);
    let mut region = Region::new(16);
    for (i, v) in values.iter().enumerate() {
        chip.assign(&mut region, i, Witness::Known(*v)).unwrap();
    }
    values
        .iter()
        .zip(region.cells.iter())
        .map(|(v, c)| RowAssignment { enabled: true, value: *v, helper: known(c.value) })
        .collect()
}

fn forced_rows(values: &[Felt], helper: Felt) -> Vec<RowAssignment> {
    values.iter().map(|v| RowAssignment { enabled: true, value: *v, helper }).collect()
}

/// A constraint system holding the gadget's gate, enabled by selector 0.
fn gadget_system() -> (ConstraintSystem, IsZeroChip) {
    let mut meta = ConstraintSystem::new();
    let config =
        IsZeroChip::configure(&mut meta, Expr::Selector(0), Expr::Advice(VALUE_COL), HELPER_COL);
    (meta, IsZeroChip::construct(config))
}

fn circuit_rows(rows: &[RowAssignment]) -> Vec<Row> {
    rows.iter()
        .map(|r| Row { selectors: vec![r.enabled], advice: vec![r.value, r.helper] })
        .collect()
}

#[test]
fn test_is_zero_with_various_values() {
    let test_values = vec![
        Felt::zero(),
        Felt::one(),
        Felt::from_u64(42),
        minus_one(),
        Felt::from_u64(100),
    ];
    let (meta, chip) = gadget_system();
    let mut region = Region::new(16);
    for (i, v) in test_values.iter().enumerate() {
        region.assign_advice(VALUE_COL, i, Witness::Known(*v)).unwrap();
        chip.assign(&mut region, i, Witness::Known(*v)).unwrap();
    }
    let rows: Vec<Row> = (0..test_values.len())
        .map(|i| Row {
            selectors: vec![true],
            advice: vec![known(region.cells[2 * i].value), known(region.cells[2 * i + 1].value)],
        })
        .collect();
    assert_eq!(meta.verify(&rows), Ok(()));
    println!("All test values passed!");
}

#[test]
fn declared_gate_rejects_zero_helpers() {
    let values = vec![
        Felt::zero(),
        Felt::from_u64(42),
        Felt::one(),
        minus_one(),
        Felt::from_u64(100),
    ];
    let (meta, _) = gadget_system();
    let rows = circuit_rows(&forced_rows(&values, Felt::zero()));
    assert_eq!(meta.verify(&rows), Err(VerifyFailure { gate: 0, poly: 0, row: 1 }));
}

#[test]
fn declared_gate_single_rows() {
    let (meta, _) = gadget_system();
    let five = Felt::from_u64(5);
    let zero_zero = circuit_rows(&forced_rows(&[Felt::zero()], Felt::zero()));
    assert_eq!(meta.verify(&zero_zero), Ok(()));
    let five_zero = circuit_rows(&forced_rows(&[five], Felt::zero()));
    assert_eq!(meta.verify(&five_zero), Err(VerifyFailure { gate: 0, poly: 0, row: 0 }));
    let five_inv = circuit_rows(&forced_rows(&[five], five.invert().unwrap()));
    assert_eq!(meta.verify(&five_inv), Ok(()));
}

#[test]
fn gate_evaluates_to_identity() {
    let (meta, _) = gadget_system();
    // 3 * (1 - 3 * 2) = -15
    let row = Row { selectors: vec![true], advice: vec![Felt::from_u64(3), Felt::from_u64(2)] };
    let expected = Felt::from_u64(15).neg();
    assert_eq!(meta.gates[0].polys[0].evaluate(&row), expected);
    let off = Row { selectors: vec![false], advice: vec![Felt::from_u64(3), Felt::from_u64(2)] };
    assert_eq!(meta.gates[0].polys[0].evaluate(&off), Felt::zero());
}

#[test]
fn two_gadgets_do_not_interfere() {
    let mut meta = ConstraintSystem::new();
    IsZeroChip::configure(&mut meta, Expr::Selector(0), Expr::Advice(0), 1);
    IsZeroChip::configure(&mut meta, Expr::Selector(0), Expr::Advice(2), 3);
    let five = Felt::from_u64(5);
    let inv = five.invert().unwrap();
    let good = Row { selectors: vec![true], advice: vec![five, inv, Felt::zero(), Felt::from_u64(9)] };
    assert_eq!(meta.check_row(&good), None);
    let bad = Row { selectors: vec![true], advice: vec![five, inv, five, Felt::zero()] };
    assert_eq!(meta.check_row(&bad), Some((1, 0)));
    let bad_first = Row { selectors: vec![true], advice: vec![five, Felt::zero(), five, inv] };
    assert_eq!(meta.check_row(&bad_first), Some((0, 0)));
}

#[test]
fn zero_helpers_for_nonzero_values_fail() {
    let values = vec![
        Felt::zero(),
        Felt::from_u64(42),
        Felt::one(),
        minus_one(),
        Felt::from_u64(100),
    ];
    let rows = forced_rows(&values, Felt::zero());
    assert_eq!(verify_rows(&rows), Err(1));
}

#[test]
fn zero_value_with_zero_helper_passes() {
    let rows = forced_rows(&[Felt::zero()], Felt::zero());
    assert_eq!(verify_rows(&rows), Ok(()));
}

#[test]
fn five_with_zero_helper_fails() {
    let rows = forced_rows(&[Felt::from_u64(5)], Felt::zero());
    assert_eq!(verify_rows(&rows), Err(0));
}

#[test]
fn five_with_its_inverse_passes_and_indicator_is_zero() {
    let five = Felt::from_u64(5);
    let inv = five.invert().unwrap();
    let rows = forced_rows(&[five], inv);
    assert_eq!(verify_rows(&rows), Ok(()));
    assert_eq!(indicator(&five, &inv), Felt::zero());
}

#[test]
fn cheating_helper_is_rejected() {
    let one = Felt::one();
    let v = Felt::from_u64(7);
    for h in [Felt::zero(), Felt::one(), Felt::from_u64(7), minus_one()] {
        assert!(!row_satisfied(&one, &v, &h));
    }
}

#[test]
fn disabled_row_accepts_any_helper() {
    let rows = vec![RowAssignment { enabled: false, value: Felt::from_u64(5), helper: Felt::zero() }];
    assert_eq!(verify_rows(&rows), Ok(()));
}

#[test]
fn zero_value_indicator_is_one_for_any_helper() {
    let one = Felt::one();
    for h in [Felt::zero(), Felt::one(), Felt::from_u64(9), minus_one()] {
        assert_eq!(indicator(&Felt::zero(), &h), Felt::one());
        assert!(row_satisfied(&one, &Felt::zero(), &h));
    }
}

#[test]
fn indicator_is_boolean_on_assigned_rows() {
    let values = vec![Felt::zero(), Felt::from_u64(3), minus_one(), Felt::from_u64(1000)];
    let rows = assigned_rows(&values);
    for r in &rows {
        let ind = indicator(&r.value, &r.helper);
        if r.value.is_zero() {
            assert_eq!(ind, Felt::one());
        } else {
            assert_eq!(ind, Felt::zero());
        }
    }
}

#[test]
fn two_configurations_declare_two_gates() {
    let mut meta = ConstraintSystem::new();
    let a = IsZeroChip::configure(&mut meta, Expr::Selector(0), Expr::Advice(0), 1);
    let b = IsZeroChip::configure(&mut meta, Expr::Selector(1), Expr::Advice(2), 3);
    assert_eq!(meta.gates.len(), 2);
    assert_eq!(meta.gates[0].name, "is_zero");
    assert_eq!(meta.gates[1].name, "is_zero");
    assert_eq!(a.value_inv, 1);
    assert_eq!(b.value_inv, 3);
    assert_eq!(meta.gates[0].polys.len(), 1);
    assert_eq!(meta.gates[1].polys.len(), 1);
}

#[test]
fn config_expr_is_one_minus_value_times_helper() {
    let mut meta = ConstraintSystem::new();
    let config = IsZeroChip::configure(&mut meta, Expr::Selector(0), Expr::Advice(0), 1);
    match config.expr() {
        Expr::Sum(a, b) => {
            assert!(matches!(*a, Expr::Constant(c) if c == Felt::one()));
            match *b {
                Expr::Negated(p) => match *p {
                    Expr::Product(v, h) => {
                        assert!(matches!(*v, Expr::Advice(0)));
                        assert!(matches!(*h, Expr::Advice(1)));
                    }
                    _ => panic!("expected a product"),
                },
                _ => panic!("expected a negation"),
            }
        }
        _ => panic!("expected a sum"),
    }
}

#[test]
fn assign_outside_region_fails() {
    let mut meta = ConstraintSystem::new();
    let config = IsZeroChip::configure(&mut meta, Expr::Selector(0), Expr::Advice(0), 1);
    let chip = IsZeroChip::construct(config);
    let mut region = Region::new(4);
    assert_eq!(
        chip.assign(&mut region, 4, Witness::Known(Felt::one())),
        Err(AssignError::NotEnoughRowsAvailable)
    );
    assert_eq!(region.cells.len(), 0);
    assert_eq!(chip.assign(&mut region, 3, Witness::Known(Felt::one())), Ok(()));
    assert_eq!(region.cells[0].column, 1);
    assert_eq!(region.cells[0].row, 3);
}

#[test]
fn unknown_value_gives_unknown_helper() {
    assert_eq!(helper_value(Witness::Unknown), Witness::Unknown);
    assert_eq!(helper_value(Witness::Known(Felt::zero())), Witness::Known(Felt::zero()));
}

#[test]
fn helper_is_inverse() {
    let v = Felt::from_u64(42);
    let h = known(helper_value(Witness::Known(v)));
    assert_eq!(v.mul(&h), Felt::one());
}

#[test]
fn field_arithmetic_exact_values() {
    let mut five = [0u8; 32];
    five[0] = 5;
    assert_eq!(Felt::from_u64(5).repr, five);
    assert_eq!(Felt::zero().repr, [0u8; 32]);
    assert_eq!(Felt::from_u64(6).mul(&Felt::from_u64(7)), Felt::from_u64(42));
    assert_eq!(Felt::from_u64(50).sub(&Felt::from_u64(8)), Felt::from_u64(42));
    assert_eq!(minus_one().mul(&minus_one()), Felt::one());
    // p - 1, little-endian.
    let mut p_minus_one = [0u8; 32];
    let words: [u64; 4] = [0x992d30ed00000000, 0x224698fc094cf91b, 0, 0x4000000000000000];
    for (i, w) in words.iter().enumerate() {
        p_minus_one[8 * i..8 * i + 8].copy_from_slice(&w.to_le_bytes());
    }
    assert_eq!(minus_one().repr, p_minus_one);
    assert!(Felt::zero().invert().is_none());
    assert!(Felt::zero().is_zero());
    assert!(!Felt::one().is_zero());
}
