use mock_prover::checks::VerifyFailure;
use mock_prover::circuit::{
    Any, Circuit, Column, Constraint, ConstraintSystem, Expression, Gate, Lookup, Permutation,
    Rotation, Selector, SynthStep, VirtualCell,
};
use mock_prover::field::Fp;
use mock_prover::prover::MockProver;

/// `selector * (a - b)`, over one fixed query and two advice queries.
fn equality_gate_poly() -> Expression {
    Expression::Product(
        Box::new(Expression::Fixed(0)),
        Box::new(Expression::Sum(
            Box::new(Expression::Advice(0)),
            Box::new(Expression::Scaled(
                Box::new(Expression::Advice(1)),
                Fp::zero().sub(Fp::one()),
            )),
        )),
    )
}

/// Two advice columns `a`, `b` and a selector, with one gate
/// `q * (a[prev] - b[cur]) = 0`.
fn faulty_circuit() -> Circuit {
    let cs = ConstraintSystem {
        num_fixed_columns: 1,
        num_advice_columns: 2,
        num_instance_columns: 0,
        fixed_queries: vec![(0, Rotation(0))],
        advice_queries: vec![(0, Rotation(-1)), (1, Rotation(0))],
        instance_queries: vec![],
        gates: vec![Gate {
            name: "Equality check".to_string(),
            constraints: vec![Constraint {
                name: String::new(),
                poly: equality_gate_poly(),
            }],
            queried_selectors: vec![Selector(0)],
            queried_cells: vec![
                VirtualCell { column: Column::new(0, Any::Advice), rotation: Rotation(-1) },
                VirtualCell { column: Column::new(1, Any::Advice), rotation: Rotation(0) },
                VirtualCell { column: Column::new(0, Any::Fixed), rotation: Rotation(0) },
            ],
        }],
        lookups: vec![],
        permutations: vec![],
    };
    let steps = vec![
        SynthStep::EnterRegion { name: "Faulty synthesis".to_string() },
        // Enable the equality gate.
        SynthStep::EnableSelector { selector: Selector(0), row: 1 },
        // Assign a = 0.
        SynthStep::AssignAdvice { column: 0, row: 0, to: Some(Fp::zero()) },
        // BUG: forget to assign b = 0!  This could go unnoticed during
        // development, because cell values default to zero, which in this
        // case is fine, but for other assignments would be broken.
        SynthStep::ExitRegion,
    ];
    Circuit { cs, steps }
}

#[test]
fn unassigned_cell() {
    let prover = MockProver::run(4, faulty_circuit(), vec![]).unwrap();
    assert_eq!(
        prover.verify(),
        Err(vec![VerifyFailure::Cell {
            region_index: 0,
            region_name: "Faulty synthesis".to_string(),
            column: Column::new(1, Any::Advice),
            offset: 1,
            gate_index: 0,
            gate_name: "Equality check".to_string(),
        }])
    );
}

/// One advice column and a selector, with one gate
/// `q * (a[cur] - a[prev]) = 0`: enabling `q` at row 0 makes it read
/// row `n - 1` through wraparound.
fn wraparound_circuit(last_row_value: u64) -> Circuit {
    let cs = ConstraintSystem {
        num_fixed_columns: 1,
        num_advice_columns: 1,
        num_instance_columns: 0,
        fixed_queries: vec![(0, Rotation(0))],
        advice_queries: vec![(0, Rotation(0)), (0, Rotation(-1))],
        instance_queries: vec![],
        gates: vec![Gate {
            name: "copy previous".to_string(),
            constraints: vec![Constraint {
                name: "equals previous row".to_string(),
                poly: Expression::Product(
                    Box::new(Expression::Fixed(0)),
                    Box::new(Expression::Sum(
                        Box::new(Expression::Advice(0)),
                        Box::new(Expression::Scaled(
                            Box::new(Expression::Advice(1)),
                            Fp::zero().sub(Fp::one()),
                        )),
                    )),
                ),
            }],
            queried_selectors: vec![Selector(0)],
            queried_cells: vec![
                VirtualCell { column: Column::new(0, Any::Advice), rotation: Rotation(0) },
                VirtualCell { column: Column::new(0, Any::Advice), rotation: Rotation(-1) },
                VirtualCell { column: Column::new(0, Any::Fixed), rotation: Rotation(0) },
            ],
        }],
        lookups: vec![],
        permutations: vec![],
    };
    let steps = vec![
        SynthStep::EnterRegion { name: "wrap".to_string() },
        SynthStep::EnableSelector { selector: Selector(0), row: 0 },
        SynthStep::AssignAdvice { column: 0, row: 0, to: Some(Fp::from_u64(5)) },
        // Row 3 is row `n - 1` for `k = 2`: row 0's gate reads it.
        SynthStep::AssignAdvice { column: 0, row: 3, to: Some(Fp::from_u64(last_row_value)) },
        SynthStep::ExitRegion,
    ];
    Circuit { cs, steps }
}

#[test]
fn rotation_wraps_to_last_row() {
    // The previous-row value at row 0 is row 3's value; equal values
    // satisfy its gate.
    let prover = MockProver::run(2, wraparound_circuit(5), vec![]).unwrap();
    assert_eq!(prover.verify(), Ok(()));

    // A wrong value at row `n - 1` is reported as exactly one constraint
    // failure at row 0.
    let prover = MockProver::run(2, wraparound_circuit(7), vec![]).unwrap();
    assert_eq!(
        prover.verify(),
        Err(vec![VerifyFailure::Constraint {
            gate_index: 0,
            gate_name: "copy previous".to_string(),
            constraint_index: 0,
            constraint_name: "equals previous row".to_string(),
            row: 0,
        }])
    );
}

/// A gate whose single constraint is a bare advice query, with no selector
/// and no assignment at all: it holds only because unassigned cells default
/// to the additive identity.
fn default_zero_circuit() -> Circuit {
    let cs = ConstraintSystem {
        num_fixed_columns: 0,
        num_advice_columns: 1,
        num_instance_columns: 0,
        fixed_queries: vec![],
        advice_queries: vec![(0, Rotation(0))],
        instance_queries: vec![],
        gates: vec![Gate {
            name: "always zero".to_string(),
            constraints: vec![Constraint {
                name: "cell is zero".to_string(),
                poly: Expression::Advice(0),
            }],
            queried_selectors: vec![],
            queried_cells: vec![VirtualCell {
                column: Column::new(0, Any::Advice),
                rotation: Rotation(0),
            }],
        }],
        lookups: vec![],
        permutations: vec![],
    };
    Circuit { cs, steps: vec![] }
}

#[test]
fn unassigned_advice_defaults_to_zero() {
    let prover = MockProver::run(2, default_zero_circuit(), vec![]).unwrap();
    assert_eq!(prover.verify(), Ok(()));
}

#[test]
fn verify_is_deterministic() {
    let prover = MockProver::run(2, wraparound_circuit(7), vec![]).unwrap();
    let first = prover.verify();
    let second = prover.verify();
    assert_eq!(first, second);
    assert!(first.is_err());
}

/// Two advice columns joined by one permutation argument, with one copy
/// constraint between `(column 0, row 0)` and `(column 1, row 1)`.
fn copy_circuit(left: u64, right: u64) -> Circuit {
    let cs = ConstraintSystem {
        num_fixed_columns: 0,
        num_advice_columns: 2,
        num_instance_columns: 0,
        fixed_queries: vec![],
        advice_queries: vec![],
        instance_queries: vec![],
        gates: vec![],
        lookups: vec![],
        permutations: vec![Permutation {
            columns: vec![Column::new(0, Any::Advice), Column::new(1, Any::Advice)],
        }],
    };
    let steps = vec![
        SynthStep::AssignAdvice { column: 0, row: 0, to: Some(Fp::from_u64(left)) },
        SynthStep::AssignAdvice { column: 1, row: 1, to: Some(Fp::from_u64(right)) },
        SynthStep::Copy {
            permutation: 0,
            left_column: Column::new(0, Any::Advice),
            left_row: 0,
            right_column: Column::new(1, Any::Advice),
            right_row: 1,
        },
    ];
    Circuit { cs, steps }
}

#[test]
fn permutation_reports_each_broken_link() {
    // Equal values at the two copied cells: no failure.
    let prover = MockProver::run(1, copy_circuit(7, 7), vec![]).unwrap();
    assert_eq!(prover.verify(), Ok(()));

    // Different values: each of the two linked slots is reported, once,
    // with its permutation, column slot and row.
    let prover = MockProver::run(1, copy_circuit(1, 2), vec![]).unwrap();
    assert_eq!(
        prover.verify(),
        Err(vec![
            VerifyFailure::Permutation { perm_index: 0, column: 0, row: 0 },
            VerifyFailure::Permutation { perm_index: 0, column: 1, row: 1 },
        ])
    );
}

#[test]
fn synthesis_errors_abort_construction() {
    // A missing witness value aborts with a synthesis error.
    let mut circuit = faulty_circuit();
    circuit.steps[2] = SynthStep::AssignAdvice { column: 0, row: 0, to: None };
    assert_eq!(
        MockProver::run(4, circuit, vec![]).err(),
        Some(mock_prover::prover::Error::SynthesisError)
    );

    // An out-of-range row aborts with a bounds error (rows run over 0..16).
    let mut circuit = faulty_circuit();
    circuit.steps[2] = SynthStep::AssignAdvice { column: 0, row: 16, to: Some(Fp::zero()) };
    assert_eq!(
        MockProver::run(4, circuit, vec![]).err(),
        Some(mock_prover::prover::Error::BoundsFailure)
    );

    // An out-of-range column index likewise.
    let mut circuit = faulty_circuit();
    circuit.steps[2] = SynthStep::AssignAdvice { column: 2, row: 0, to: Some(Fp::zero()) };
    assert_eq!(
        MockProver::run(4, circuit, vec![]).err(),
        Some(mock_prover::prover::Error::BoundsFailure)
    );
}

#[test]
fn copy_errors_abort_construction() {
    // A column that is not a member of the permutation's declared set is a
    // synthesis error.
    let mut circuit = copy_circuit(1, 1);
    circuit.steps[2] = SynthStep::Copy {
        permutation: 0,
        left_column: Column::new(0, Any::Fixed),
        left_row: 0,
        right_column: Column::new(1, Any::Advice),
        right_row: 1,
    };
    assert_eq!(
        MockProver::run(1, circuit, vec![]).err(),
        Some(mock_prover::prover::Error::SynthesisError)
    );

    // An out-of-range permutation reference is a bounds error.
    let mut circuit = copy_circuit(1, 1);
    circuit.steps[2] = SynthStep::Copy {
        permutation: 1,
        left_column: Column::new(0, Any::Advice),
        left_row: 0,
        right_column: Column::new(1, Any::Advice),
        right_row: 1,
    };
    assert_eq!(
        MockProver::run(1, circuit, vec![]).err(),
        Some(mock_prover::prover::Error::BoundsFailure)
    );

    // An out-of-range row is a bounds error (rows run over 0..2).
    let mut circuit = copy_circuit(1, 1);
    circuit.steps[2] = SynthStep::Copy {
        permutation: 0,
        left_column: Column::new(0, Any::Advice),
        left_row: 0,
        right_column: Column::new(1, Any::Advice),
        right_row: 2,
    };
    assert_eq!(
        MockProver::run(1, circuit, vec![]).err(),
        Some(mock_prover::prover::Error::BoundsFailure)
    );
}

/// A satisfied circuit exercising all four checks at once: an equality gate,
/// an even-number lookup into a fixed table column, and a copy constraint.
fn all_checks_circuit() -> Circuit {
    let cs = ConstraintSystem {
        num_fixed_columns: 2,
        num_advice_columns: 2,
        num_instance_columns: 0,
        fixed_queries: vec![(0, Rotation(0)), (1, Rotation(0))],
        advice_queries: vec![(0, Rotation(0)), (1, Rotation(0))],
        instance_queries: vec![],
        gates: vec![Gate {
            name: "equal pair".to_string(),
            constraints: vec![Constraint {
                name: String::new(),
                poly: equality_gate_poly(),
            }],
            queried_selectors: vec![Selector(0)],
            queried_cells: vec![
                VirtualCell { column: Column::new(0, Any::Advice), rotation: Rotation(0) },
                VirtualCell { column: Column::new(1, Any::Advice), rotation: Rotation(0) },
                VirtualCell { column: Column::new(0, Any::Fixed), rotation: Rotation(0) },
            ],
        }],
        lookups: vec![Lookup {
            name: "even number".to_string(),
            input_expressions: vec![Expression::Product(
                Box::new(Expression::Fixed(0)),
                Box::new(Expression::Advice(0)),
            )],
            table_expressions: vec![Expression::Fixed(1)],
        }],
        permutations: vec![Permutation {
            columns: vec![Column::new(0, Any::Advice), Column::new(1, Any::Advice)],
        }],
    };
    let steps = vec![
        SynthStep::EnterRegion { name: "table".to_string() },
        SynthStep::AssignFixed { column: 1, row: 0, to: Some(Fp::zero()) },
        SynthStep::AssignFixed { column: 1, row: 1, to: Some(Fp::from_u64(2)) },
        SynthStep::AssignFixed { column: 1, row: 2, to: Some(Fp::from_u64(4)) },
        SynthStep::AssignFixed { column: 1, row: 3, to: Some(Fp::from_u64(6)) },
        SynthStep::ExitRegion,
        SynthStep::EnterRegion { name: "pair".to_string() },
        SynthStep::EnableSelector { selector: Selector(0), row: 1 },
        SynthStep::AssignAdvice { column: 0, row: 1, to: Some(Fp::from_u64(4)) },
        SynthStep::AssignAdvice { column: 1, row: 1, to: Some(Fp::from_u64(4)) },
        SynthStep::ExitRegion,
        SynthStep::Copy {
            permutation: 0,
            left_column: Column::new(0, Any::Advice),
            left_row: 1,
            right_column: Column::new(1, Any::Advice),
            right_row: 1,
        },
    ];
    Circuit { cs, steps }
}

#[test]
fn satisfied_circuit_verifies() {
    let prover = MockProver::run(2, all_checks_circuit(), vec![]).unwrap();
    assert_eq!(prover.verify(), Ok(()));
}

/// Enabling one selector at two rows inside a region keeps one entry for the
/// selector with both rows, and every missing cell of the activated gate is
/// reported, including one at a negative offset from the region's start.
#[test]
fn selector_enabled_twice_reports_every_missing_cell() {
    let mut circuit = faulty_circuit();
    circuit.steps = vec![
        SynthStep::EnterRegion { name: "sparse".to_string() },
        SynthStep::EnableSelector { selector: Selector(0), row: 1 },
        SynthStep::EnableSelector { selector: Selector(0), row: 2 },
        SynthStep::ExitRegion,
    ];
    let prover = MockProver::run(4, circuit, vec![]).unwrap();
    // The region starts at row 1; its gate's previous-row query at selector
    // row 1 reaches row 0, one row before the region's start.
    assert_eq!(
        prover.verify(),
        Err(vec![
            VerifyFailure::Cell {
                region_index: 0,
                region_name: "sparse".to_string(),
                column: Column::new(0, Any::Advice),
                offset: -1,
                gate_index: 0,
                gate_name: "Equality check".to_string(),
            },
            VerifyFailure::Cell {
                region_index: 0,
                region_name: "sparse".to_string(),
                column: Column::new(1, Any::Advice),
                offset: 0,
                gate_index: 0,
                gate_name: "Equality check".to_string(),
            },
            VerifyFailure::Cell {
                region_index: 0,
                region_name: "sparse".to_string(),
                column: Column::new(0, Any::Advice),
                offset: 0,
                gate_index: 0,
                gate_name: "Equality check".to_string(),
            },
            VerifyFailure::Cell {
                region_index: 0,
                region_name: "sparse".to_string(),
                column: Column::new(1, Any::Advice),
                offset: 1,
                gate_index: 0,
                gate_name: "Equality check".to_string(),
            },
        ])
    );
}

/// The same faulty synthesis as `unassigned_cell`, driven through the
/// recorder's operations directly instead of through a script.
#[test]
fn drive_recorder_directly() {
    let mut circuit = faulty_circuit();
    circuit.steps = vec![];
    let mut prover = MockProver::run(4, circuit, vec![]).unwrap();

    prover.enter_region("Faulty synthesis".to_string());
    prover.push_namespace("by hand".to_string());
    assert_eq!(prover.enable_selector(Selector(0), 1), Ok(()));
    assert_eq!(prover.assign_advice(0, 0, Some(Fp::zero())), Ok(()));
    prover.pop_namespace(None);
    prover.exit_region();

    assert_eq!(
        prover.verify(),
        Err(vec![VerifyFailure::Cell {
            region_index: 0,
            region_name: "Faulty synthesis".to_string(),
            column: Column::new(1, Any::Advice),
            offset: 1,
            gate_index: 0,
            gate_name: "Equality check".to_string(),
        }])
    );
}
