use r1cs_circuits::circuits::complex::ComplexCircuit;
use r1cs_circuits::circuits::division::DivisionCircuit;
use r1cs_circuits::circuits::fibonacci::FibonacciCircuit;
use r1cs_circuits::circuits::matrix_multiplication::{Matrix2, MatrixMultiplication};
use r1cs_circuits::circuits::multivar_polynomial::MultiVarPolynomialCircuit;
use r1cs_circuits::circuits::polynomial::PolynomialCircuit;
use r1cs_circuits::circuits::xor::XorCircuit;
use r1cs_circuits::field::{fe_add, fe_from_u64, fe_mul, fe_neg, Fe};
use r1cs_circuits::r1cs::{check_satisfied, ConstraintSystem, Mode, SynthesisError};

fn fe(n: u64) -> Fe {
    fe_from_u64(n)
}

fn matrix(e00: u64, e01: u64, e10: u64, e11: u64) -> Matrix2 {
    Matrix2 { m00: fe(e00), m01: fe(e01), m10: fe(e10), m11: fe(e11) }
}

fn polynomial_circuit(x: u64, y: u64, z: u64) -> PolynomialCircuit {
    PolynomialCircuit { x: Some(fe(x)), y: Some(fe(y)), z: Some(fe(z)) }
}

#[test]
fn polynomial_example_satisfied() {
    // 2 * 256^2 + 3 * 729 + 5 = 133264
    let mut cs = ConstraintSystem::new(Mode::Prove);
    let r = polynomial_circuit(256, 729, 133264).synthesize(&mut cs);
    assert!(r.is_ok());
    assert!(check_satisfied(&cs));
    assert_eq!(cs.constraints.len(), 2);
    assert_eq!(cs.num_aux, 3);
    assert_eq!(cs.num_input, 1);
}

#[test]
fn polynomial_wrong_output_unsatisfied() {
    let mut cs = ConstraintSystem::new(Mode::Prove);
    let r = polynomial_circuit(256, 729, 133265).synthesize(&mut cs);
    assert!(r.is_ok());
    assert!(!check_satisfied(&cs));
}

#[test]
fn polynomial_setup_pass_records_topology_only() {
    let mut cs = ConstraintSystem::new(Mode::Setup);
    let c = PolynomialCircuit { x: None, y: None, z: None };
    assert!(c.synthesize(&mut cs).is_ok());
    assert_eq!(cs.constraints.len(), 2);
    assert_eq!(cs.num_aux, 3);
    assert_eq!(cs.num_input, 1);
    assert!(cs.aux_values.is_empty());
    assert!(cs.input_values.is_empty());
}

#[test]
fn polynomial_missing_value_fails_proving_pass() {
    let mut cs = ConstraintSystem::new(Mode::Prove);
    let c = PolynomialCircuit { x: Some(fe(1)), y: None, z: Some(fe(10)) };
    assert_eq!(c.synthesize(&mut cs), Err(SynthesisError::AssignmentMissing));
}

#[test]
fn matrix_example_satisfied() {
    // [[1,2],[3,4]] x [[5,6],[7,8]] = [[19,22],[43,50]]
    let mut cs = ConstraintSystem::new(Mode::Prove);
    let c = MatrixMultiplication {
        m1: Some(matrix(1, 2, 3, 4)),
        m2: Some(matrix(5, 6, 7, 8)),
        matrix_result: Some(matrix(19, 22, 43, 50)),
    };
    assert!(c.synthesize(&mut cs).is_ok());
    assert!(check_satisfied(&cs));
    assert_eq!(cs.constraints.len(), 16);
    assert_eq!(cs.num_aux, 20);
    assert_eq!(cs.num_input, 4);
}

#[test]
fn matrix_large_example_satisfied() {
    // [[123,456],[789,101]] x [[112,131],[415,161]]
    let mut cs = ConstraintSystem::new(Mode::Prove);
    let c = MatrixMultiplication {
        m1: Some(matrix(123, 456, 789, 101)),
        m2: Some(matrix(112, 131, 415, 161)),
        matrix_result: Some(matrix(203016, 89529, 130283, 119620)),
    };
    assert!(c.synthesize(&mut cs).is_ok());
    assert!(check_satisfied(&cs));
}

#[test]
fn matrix_wrong_cell_unsatisfied() {
    let mut cs = ConstraintSystem::new(Mode::Prove);
    let c = MatrixMultiplication {
        m1: Some(matrix(1, 2, 3, 4)),
        m2: Some(matrix(5, 6, 7, 8)),
        matrix_result: Some(matrix(19, 22, 43, 51)),
    };
    assert!(c.synthesize(&mut cs).is_ok());
    assert!(!check_satisfied(&cs));
}

#[test]
fn matrix_missing_matrix_fails_proving_pass() {
    let mut cs = ConstraintSystem::new(Mode::Prove);
    let c = MatrixMultiplication {
        m1: Some(matrix(1, 2, 3, 4)),
        m2: None,
        matrix_result: Some(matrix(19, 22, 43, 50)),
    };
    assert_eq!(c.synthesize(&mut cs), Err(SynthesisError::AssignmentMissing));
}

#[test]
fn multivar_example_satisfied() {
    // 444*222^3*333^2 + 555*222^2*333 + 666*222*333 + 777 = 538688548680321
    let mut cs = ConstraintSystem::new(Mode::Prove);
    let c = MultiVarPolynomialCircuit {
        x: Some(fe(222)),
        y: Some(fe(333)),
        a: Some(fe(444)),
        b: Some(fe(555)),
        c: Some(fe(666)),
        d: Some(fe(777)),
        result: Some(fe(538688548680321)),
    };
    assert!(c.synthesize(&mut cs).is_ok());
    assert!(check_satisfied(&cs));
    assert_eq!(cs.constraints.len(), 10);
    assert_eq!(cs.num_aux, 15);
    assert_eq!(cs.num_input, 1);
}

#[test]
fn multivar_wrong_result_unsatisfied() {
    let mut cs = ConstraintSystem::new(Mode::Prove);
    let c = MultiVarPolynomialCircuit {
        x: Some(fe(222)),
        y: Some(fe(333)),
        a: Some(fe(444)),
        b: Some(fe(555)),
        c: Some(fe(666)),
        d: Some(fe(777)),
        result: Some(fe(538688548680322)),
    };
    assert!(c.synthesize(&mut cs).is_ok());
    assert!(!check_satisfied(&cs));
}

#[test]
fn division_example_satisfied() {
    // 4003859412 = 87654 * 45678
    let mut cs = ConstraintSystem::new(Mode::Prove);
    let c = DivisionCircuit {
        numerator: Some(fe(4003859412)),
        denominator: Some(fe(45678)),
        quotient: Some(fe(87654)),
    };
    assert!(c.synthesize(&mut cs).is_ok());
    assert!(check_satisfied(&cs));
    assert_eq!(cs.constraints.len(), 2);
}

#[test]
fn division_wrong_quotient_unsatisfied() {
    let mut cs = ConstraintSystem::new(Mode::Prove);
    let c = DivisionCircuit {
        numerator: Some(fe(4003859412)),
        denominator: Some(fe(45678)),
        quotient: Some(fe(87655)),
    };
    assert!(c.synthesize(&mut cs).is_ok());
    assert!(!check_satisfied(&cs));
}

#[test]
fn division_zero_denominator_zero_numerator_satisfied() {
    // The non-zero gate is a tautology: 0 = q * 0 is satisfiable for any q.
    let mut cs = ConstraintSystem::new(Mode::Prove);
    let c = DivisionCircuit {
        numerator: Some(fe(0)),
        denominator: Some(fe(0)),
        quotient: Some(fe(87654)),
    };
    assert!(c.synthesize(&mut cs).is_ok());
    assert!(check_satisfied(&cs));
}

#[test]
fn xor_example_satisfied() {
    // 1 XOR 0 = 1
    let mut cs = ConstraintSystem::new(Mode::Prove);
    let c = XorCircuit { a: Some(fe(1)), b: Some(fe(0)), result: Some(fe(1)) };
    assert!(c.synthesize(&mut cs).is_ok());
    assert!(check_satisfied(&cs));
    assert_eq!(cs.constraints.len(), 2);
}

#[test]
fn xor_all_boolean_cases() {
    let cases: [(u64, u64, u64); 4] = [(0, 0, 0), (0, 1, 1), (1, 0, 1), (1, 1, 0)];
    for (a, b, want) in cases {
        let mut cs = ConstraintSystem::new(Mode::Prove);
        let c = XorCircuit { a: Some(fe(a)), b: Some(fe(b)), result: Some(fe(want)) };
        assert!(c.synthesize(&mut cs).is_ok());
        assert!(check_satisfied(&cs));

        let mut cs_bad = ConstraintSystem::new(Mode::Prove);
        let bad = XorCircuit {
            a: Some(fe(a)),
            b: Some(fe(b)),
            result: Some(fe(1 - want)),
        };
        assert!(bad.synthesize(&mut cs_bad).is_ok());
        assert!(!check_satisfied(&cs_bad));
    }
}

#[test]
fn xor_non_boolean_inputs_still_satisfiable() {
    // The circuit enforces no booleanity: with a = 2, b = 3 the identity
    // a + b - 2ab still has a satisfying result in the field.
    let a = fe(2);
    let b = fe(3);
    let two = fe(2);
    let two_ab = fe_mul(&fe_mul(&two, &a), &b);
    let result = fe_add(&fe_add(&a, &b), &fe_neg(&two_ab));
    let mut cs = ConstraintSystem::new(Mode::Prove);
    let c = XorCircuit { a: Some(a), b: Some(b), result: Some(result) };
    assert!(c.synthesize(&mut cs).is_ok());
    assert!(check_satisfied(&cs));
}

#[test]
fn fibonacci_tenth_term_satisfied() {
    // f0=0, f1=1, n=10 -> 55
    let mut cs = ConstraintSystem::new(Mode::Prove);
    let c = FibonacciCircuit {
        f0: Some(fe(0)),
        f1: Some(fe(1)),
        fn_val: Some(fe(55)),
        n: 10,
    };
    assert!(c.synthesize(&mut cs).is_ok());
    assert!(check_satisfied(&cs));
    // n - 1 recurrence gates plus the final equality.
    assert_eq!(cs.constraints.len(), 10);
    assert_eq!(cs.num_input, 1);
}

#[test]
fn fibonacci_twenty_fifth_term_satisfied() {
    let mut cs = ConstraintSystem::new(Mode::Prove);
    let c = FibonacciCircuit {
        f0: Some(fe(0)),
        f1: Some(fe(1)),
        fn_val: Some(fe(75025)),
        n: 25,
    };
    assert!(c.synthesize(&mut cs).is_ok());
    assert!(check_satisfied(&cs));
}

#[test]
fn fibonacci_wrong_term_unsatisfied() {
    let mut cs = ConstraintSystem::new(Mode::Prove);
    let c = FibonacciCircuit {
        f0: Some(fe(0)),
        f1: Some(fe(1)),
        fn_val: Some(fe(56)),
        n: 10,
    };
    assert!(c.synthesize(&mut cs).is_ok());
    assert!(!check_satisfied(&cs));
}

#[test]
fn fibonacci_custom_seeds_satisfied() {
    // 3, 7, 10, 17, 27: the fourth term over seeds (3, 7) is 27.
    let mut cs = ConstraintSystem::new(Mode::Prove);
    let c = FibonacciCircuit {
        f0: Some(fe(3)),
        f1: Some(fe(7)),
        fn_val: Some(fe(27)),
        n: 4,
    };
    assert!(c.synthesize(&mut cs).is_ok());
    assert!(check_satisfied(&cs));
}

#[test]
fn fibonacci_setup_and_prove_topologies_agree() {
    // Same parameter n: the two passes fix the same structure.
    let mut setup_cs = ConstraintSystem::new(Mode::Setup);
    let setup = FibonacciCircuit { f0: None, f1: None, fn_val: None, n: 20 };
    assert!(setup.synthesize(&mut setup_cs).is_ok());

    let mut prove_cs = ConstraintSystem::new(Mode::Prove);
    let prove = FibonacciCircuit {
        f0: Some(fe(0)),
        f1: Some(fe(1)),
        fn_val: Some(fe(6765)),
        n: 20,
    };
    assert!(prove.synthesize(&mut prove_cs).is_ok());

    assert_eq!(setup_cs.num_aux, prove_cs.num_aux);
    assert_eq!(setup_cs.num_input, prove_cs.num_input);
    assert_eq!(setup_cs.constraints.len(), prove_cs.constraints.len());
    assert!(check_satisfied(&prove_cs));
}

#[test]
fn complex_example_satisfied() {
    // poly: 1*2^3 + 2*2^2 + 3*2 + 4 = 26; matrices as in the small example.
    let mut cs = ConstraintSystem::new(Mode::Prove);
    let c = ComplexCircuit {
        x: Some(fe(2)),
        a: Some(fe(1)),
        b: Some(fe(2)),
        c: Some(fe(3)),
        d: Some(fe(4)),
        m1: Some(matrix(1, 2, 3, 4)),
        m2: Some(matrix(5, 6, 7, 8)),
        poly_result: Some(fe(26)),
        matrix_result: Some(matrix(19, 22, 43, 50)),
    };
    assert!(c.synthesize(&mut cs).is_ok());
    assert!(check_satisfied(&cs));
    assert_eq!(cs.constraints.len(), 17);
    assert_eq!(cs.num_input, 5);
    assert_eq!(cs.num_aux, 24);
}

#[test]
fn complex_wrong_polynomial_result_unsatisfied() {
    let mut cs = ConstraintSystem::new(Mode::Prove);
    let c = ComplexCircuit {
        x: Some(fe(2)),
        a: Some(fe(1)),
        b: Some(fe(2)),
        c: Some(fe(3)),
        d: Some(fe(4)),
        m1: Some(matrix(1, 2, 3, 4)),
        m2: Some(matrix(5, 6, 7, 8)),
        poly_result: Some(fe(27)),
        matrix_result: Some(matrix(19, 22, 43, 50)),
    };
    assert!(c.synthesize(&mut cs).is_ok());
    assert!(!check_satisfied(&cs));
}

#[test]
fn complex_missing_coefficient_fails_proving_pass() {
    let mut cs = ConstraintSystem::new(Mode::Prove);
    let c = ComplexCircuit {
        x: Some(fe(2)),
        a: None,
        b: Some(fe(2)),
        c: Some(fe(3)),
        d: Some(fe(4)),
        m1: Some(matrix(1, 2, 3, 4)),
        m2: Some(matrix(5, 6, 7, 8)),
        poly_result: Some(fe(26)),
        matrix_result: Some(matrix(19, 22, 43, 50)),
    };
    assert_eq!(c.synthesize(&mut cs), Err(SynthesisError::AssignmentMissing));
}

#[test]
fn composite_public_inputs_concatenate_in_order() {
    // The polynomial result is declared before the four matrix cells.
    let mut cs = ConstraintSystem::new(Mode::Prove);
    let c = ComplexCircuit {
        x: Some(fe(2)),
        a: Some(fe(1)),
        b: Some(fe(2)),
        c: Some(fe(3)),
        d: Some(fe(4)),
        m1: Some(matrix(1, 2, 3, 4)),
        m2: Some(matrix(5, 6, 7, 8)),
        poly_result: Some(fe(26)),
        matrix_result: Some(matrix(19, 22, 43, 50)),
    };
    assert!(c.synthesize(&mut cs).is_ok());
    let expect: [u64; 5] = [26, 19, 22, 43, 50];
    assert_eq!(cs.input_values.len(), 5);
    for (got, want) in cs.input_values.iter().zip(expect.iter()) {
        assert!(r1cs_circuits::field::fe_eq(got, &fe(*want)));
    }
}
