//! End-to-end runs of the example circuits: configure the constraint
//! system, populate the grid through the layouter, and hold the result to
//! the witness checker.

use plonkish::checker::{check, Violation};
use plonkish::columns::Cell;
use plonkish::field::Fp;
use plonkish::fibonacci::FibonacciCircuit;
use plonkish::is_zero::ComposeChip;
use plonkish::layouter::Layouter;
use plonkish::numeric::{FieldChip, NumericCircuit};
use plonkish::range_check_direct::{RangeCheck1Circuit, RangeCheckConfig};
use plonkish::range_check_lookup::RangeCheck2Circuit;
use plonkish::system::ConstraintSystem;

fn run_fibonacci(out: u64) -> Vec<Violation> {
    let mut cs = ConstraintSystem::new();
    let config = FibonacciCircuit::configure(&mut cs);
    let circuit = FibonacciCircuit { n_steps: 7 };
    let instance = vec![vec![Fp::new(1), Fp::new(1), Fp::new(out)]];
    let mut ly = Layouter::new(cs, 4, instance).unwrap();
    circuit.synthesize(config, &mut ly).unwrap();
    check(&ly)
}

#[test]
fn fibonacci_example1() {
    let violations = run_fibonacci(55);
    assert!(violations.is_empty());

    let violations = run_fibonacci(55 + 1);
    assert!(!violations.is_empty());
}

fn run_compose(a: u64, b: u64, c: u64) -> (Vec<Violation>, Option<Fp>) {
    let mut cs = ConstraintSystem::new();
    let config = ComposeChip::configure(&mut cs);
    let chip = ComposeChip::construct(config);
    let mut ly = Layouter::new(cs, 4, Vec::new()).unwrap();
    let out_cell = chip
        .assign(&mut ly, Fp::new(a), Fp::new(b), Fp::new(c))
        .unwrap();
    let out = ly.grid.get_cell_value(out_cell);
    (check(&ly), out)
}

#[test]
fn test_is_zero() {
    let (violations, out) = run_compose(3, 2, 3);
    assert!(violations.is_empty());
    assert_eq!(out, Some(Fp::new(1)));
}

#[test]
fn compose_equal_inputs_select_c() {
    let (violations, out) = run_compose(2, 2, 9);
    assert!(violations.is_empty());
    assert_eq!(out, Some(Fp::new(9)));
}

fn run_numeric(constant: u64, a: u64, b: u64, out: u64) -> Vec<Violation> {
    let mut cs = ConstraintSystem::new();
    let a0 = cs.advice_column();
    let a1 = cs.advice_column();
    let inst = cs.instance_column();
    let con = cs.fixed_column();
    let config = FieldChip::configure(&mut cs, a0, a1, inst, con);
    let circuit = NumericCircuit {
        constant: Fp::new(constant),
        a: Fp::new(a),
        b: Fp::new(b),
    };
    let mut ly = Layouter::new(cs, 4, vec![vec![Fp::new(out)]]).unwrap();
    circuit.synthesize(config, &mut ly).unwrap();
    check(&ly)
}

#[test]
fn numeric_instructions() {
    // 7 * 2^2 * 3^2 = 252
    let violations = run_numeric(7, 2, 3, 252);
    assert!(violations.is_empty());

    let violations = run_numeric(7, 2, 3, 252 + 1);
    assert!(!violations.is_empty());
}

fn run_range_check_1(value: u64) -> Vec<Violation> {
    let mut cs = ConstraintSystem::new();
    let col = cs.advice_column();
    let config = RangeCheckConfig::configure(&mut cs, col, 8);
    let circuit = RangeCheck1Circuit {
        value: Fp::new(value),
    };
    let mut ly = Layouter::new(cs, 4, Vec::new()).unwrap();
    circuit.synthesize(config, &mut ly).unwrap();
    check(&ly)
}

#[test]
fn test_range_check_1() {
    const RANGE: u64 = 8;
    for i in 0..RANGE {
        let violations = run_range_check_1(i);
        assert!(violations.is_empty());
    }
}

#[test]
fn range_check_rejects_out_of_range() {
    for v in [8u64, 9, 100, 256] {
        let violations = run_range_check_1(v);
        assert!(!violations.is_empty());
        assert!(violations
            .iter()
            .all(|w| matches!(w, Violation::Constraint { .. })));
    }
}

fn run_range_check_2(value: u64, lookup_value: u64) -> Vec<Violation> {
    let mut cs = ConstraintSystem::new();
    let col = cs.advice_column();
    let config = plonkish::range_check_lookup::RangeCheckConfig::configure(&mut cs, col, 8, 256);
    let circuit = RangeCheck2Circuit {
        value: Fp::new(value),
        lookup_value: Fp::new(lookup_value),
    };
    let mut ly = Layouter::new(cs, 9, Vec::new()).unwrap();
    circuit.synthesize(config, &mut ly).unwrap();
    check(&ly)
}

#[test]
fn test_range_check_2() {
    const RANGE: u64 = 8;
    const LOOKUP_RANGE: u64 = 256;
    for i in 0..RANGE {
        for j in 0..LOOKUP_RANGE {
            let violations = run_range_check_2(i, j);
            assert!(violations.is_empty());
        }
    }
}

#[test]
fn lookup_violation_only() {
    // 256 is the one field element outside the table 0..256; the direct
    // range gate at the other row is unaffected.
    let violations = run_range_check_2(5, 256);
    assert!(!violations.is_empty());
    assert!(violations
        .iter()
        .all(|w| matches!(w, Violation::Lookup { .. })));
}

#[test]
fn copy_mismatch_reported_once() {
    let mut cs = ConstraintSystem::new();
    let c0 = cs.advice_column();
    let c1 = cs.advice_column();
    cs.enable_equality(c0);
    cs.enable_equality(c1);
    let mut ly = Layouter::new(cs, 4, Vec::new()).unwrap();
    let a = ly.assign_advice(c0, 0, Fp::new(5)).unwrap();
    let b = ly.assign_advice(c1, 0, Fp::new(7)).unwrap();
    ly.copies.record(a, b);
    let violations = check(&ly);
    assert_eq!(violations.len(), 1);
    match violations[0] {
        Violation::CopyMismatch {
            a: ca,
            b: cb,
            a_value,
            b_value,
        } => {
            assert_eq!(ca, Cell { column: c0, row: 0 });
            assert_eq!(cb, Cell { column: c1, row: 0 });
            assert_eq!(a_value, Fp::new(5));
            assert_eq!(b_value, Fp::new(7));
        }
        _ => panic!("expected a copy mismatch"),
    }
}

#[test]
fn field_inverse_roundtrip() {
    for v in 1..257u64 {
        let x = Fp::new(v);
        let inv = x.invert_or_zero();
        assert_eq!(x.mul(inv), Fp::new(1));
    }
    assert_eq!(Fp::new(0).invert_or_zero(), Fp::new(0));
}

#[test]
fn double_assignment_with_conflict_is_rejected() {
    let mut cs = ConstraintSystem::new();
    let c0 = cs.advice_column();
    let mut ly = Layouter::new(cs, 4, Vec::new()).unwrap();
    ly.assign_advice(c0, 0, Fp::new(5)).unwrap();
    assert!(ly.assign_advice(c0, 0, Fp::new(5)).is_ok());
    assert!(ly.assign_advice(c0, 0, Fp::new(6)).is_err());
}
