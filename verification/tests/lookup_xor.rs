use mock_prover::circuit::{
    Any, Circuit, Column, ConstraintSystem, Expression, Lookup, Rotation, Selector, SynthStep,
};
use mock_prover::field::Fp;
use mock_prover::prover::MockProver;

// Advice columns: 0 = even input, 1 = even table, 2..=4 = xor inputs/output.
// Fixed columns back the two selectors.
const INPUT: usize = 0;
const TABLE_EVEN: usize = 1;
const XOR_A: usize = 2;
const XOR_B: usize = 3;
const XOR_OUT: usize = 4;

/// A lookup on even numbers against an advice table column, and a lookup of
/// xor triples against three instance columns.
fn xor_constraint_system() -> ConstraintSystem {
    ConstraintSystem {
        num_fixed_columns: 2,
        num_advice_columns: 5,
        num_instance_columns: 3,
        fixed_queries: vec![(0, Rotation(0)), (1, Rotation(0))],
        advice_queries: vec![
            (INPUT, Rotation(0)),
            (TABLE_EVEN, Rotation(0)),
            (XOR_A, Rotation(0)),
            (XOR_B, Rotation(0)),
            (XOR_OUT, Rotation(0)),
        ],
        instance_queries: vec![(0, Rotation(0)), (1, Rotation(0)), (2, Rotation(0))],
        gates: vec![],
        lookups: vec![
            Lookup {
                name: "even number".to_string(),
                input_expressions: vec![Expression::Product(
                    Box::new(Expression::Fixed(0)),
                    Box::new(Expression::Advice(0)),
                )],
                table_expressions: vec![Expression::Advice(1)],
            },
            Lookup {
                name: "xor table".to_string(),
                input_expressions: vec![
                    Expression::Product(
                        Box::new(Expression::Fixed(1)),
                        Box::new(Expression::Advice(2)),
                    ),
                    Expression::Product(
                        Box::new(Expression::Fixed(1)),
                        Box::new(Expression::Advice(3)),
                    ),
                    Expression::Product(
                        Box::new(Expression::Fixed(1)),
                        Box::new(Expression::Advice(4)),
                    ),
                ],
                table_expressions: vec![
                    Expression::Instance(0),
                    Expression::Instance(1),
                    Expression::Instance(2),
                ],
            },
        ],
        permutations: vec![],
    }
}

/// The synthesis of the original circuit, with regions packed one after
/// another: the even lookup table on rows 0..=4, one region per witnessed
/// even number on rows 5..=7, and the xor triple on row 8.
fn xor_circuit() -> Circuit {
    let even_lookup: Vec<u64> = vec![0, 2, 4, 6, 8];
    let even_witnesses: Vec<u64> = vec![0, 2, 4];
    let xor_witness: (u64, u64, u64) = (1, 0, 1);

    let mut steps = vec![SynthStep::PushNamespace {
        name: "witness even numbers".to_string(),
    }];
    steps.push(SynthStep::EnterRegion {
        name: "load values for even lookup table".to_string(),
    });
    for (offset, value) in even_lookup.iter().enumerate() {
        steps.push(SynthStep::AssignAdvice {
            column: TABLE_EVEN,
            row: offset,
            to: Some(Fp::from_u64(*value)),
        });
    }
    steps.push(SynthStep::ExitRegion);
    let mut next_row = even_lookup.len();

    for value in even_witnesses.iter() {
        steps.push(SynthStep::EnterRegion { name: "witness even number".to_string() });
        steps.push(SynthStep::EnableSelector { selector: Selector(0), row: next_row });
        steps.push(SynthStep::AssignAdvice {
            column: INPUT,
            row: next_row,
            to: Some(Fp::from_u64(*value)),
        });
        steps.push(SynthStep::ExitRegion);
        next_row += 1;
    }
    steps.push(SynthStep::PopNamespace);

    steps.push(SynthStep::PushNamespace { name: "witness xor numbers".to_string() });
    steps.push(SynthStep::EnterRegion { name: "witness xor op".to_string() });
    steps.push(SynthStep::EnableSelector { selector: Selector(1), row: next_row });
    steps.push(SynthStep::AssignAdvice {
        column: XOR_A,
        row: next_row,
        to: Some(Fp::from_u64(xor_witness.0)),
    });
    steps.push(SynthStep::AssignAdvice {
        column: XOR_B,
        row: next_row,
        to: Some(Fp::from_u64(xor_witness.1)),
    });
    steps.push(SynthStep::AssignAdvice {
        column: XOR_OUT,
        row: next_row,
        to: Some(Fp::from_u64(xor_witness.2)),
    });
    steps.push(SynthStep::ExitRegion);
    steps.push(SynthStep::PopNamespace);

    Circuit { cs: xor_constraint_system(), steps }
}

fn column_of(values: Vec<u64>) -> Vec<Fp> {
    values.into_iter().map(Fp::from_u64).collect()
}

#[test]
fn lookup_any() {
    let k = 4;

    // The three instance columns encode the xor truth table rows
    // (0,0,0), (0,1,1), (1,0,1), (1,1,0), transposed into columns.
    let xor_witnesses_table = vec![
        column_of(vec![0, 0, 1, 1]),
        column_of(vec![0, 1, 0, 1]),
        column_of(vec![0, 1, 1, 0]),
    ];

    // Given the correct public input, the circuit verifies.
    let prover = MockProver::run(k, xor_circuit(), xor_witnesses_table).unwrap();
    assert_eq!(prover.verify(), Ok(()));

    // If the public input contains only the single value 1 per column, the
    // xor lookup fails for the witnessed row.
    let wrong_xor_witnesses =
        vec![column_of(vec![1]), column_of(vec![1]), column_of(vec![1])];
    let prover = MockProver::run(k, xor_circuit(), wrong_xor_witnesses).unwrap();
    assert!(prover.verify().is_err())
}
