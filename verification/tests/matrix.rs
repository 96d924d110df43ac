use groth16_r1cs::domain::{domain_size, MAX_DOMAIN_POINTS};
use groth16_r1cs::error::Error;
use groth16_r1cs::field::Scalar;
use groth16_r1cs::groth16::{expected_layout, KeyLayout};
use groth16_r1cs::linear::{LinearCombination, Variable};
use groth16_r1cs::matrix::{export_row, Entry};
use groth16_r1cs::relation::ExampleCircuit;
use groth16_r1cs::system::{ConstraintSystem, Mode};

fn s(x: u64) -> Scalar {
    Scalar::from_u64(x)
}

fn e(coeff: Scalar, column: usize) -> Entry {
    Entry { coeff, column }
}

#[test]
fn the_matrices_of_the_example_relation() {
    let circuit = ExampleCircuit { a: Some(s(3)), b: Some(s(5)) };
    let m = circuit.constraint_system(Mode::Assignment).unwrap().matrices().unwrap();
    assert_eq!(m.num_public, 1);
    assert_eq!(m.num_private, 3);
    assert_eq!(m.a, vec![vec![e(s(1), 1)], vec![e(s(15), 0), e(s(1).neg(), 3)]]);
    assert_eq!(m.b, vec![vec![e(s(1), 2)], vec![e(s(1), 0)]]);
    assert_eq!(m.c, vec![vec![e(s(1), 3)], vec![]]);
    assert_eq!(m.a_entries, 3);
    assert_eq!(m.b_entries, 2);
    assert_eq!(m.c_entries, 1);
}

#[test]
fn the_matrices_do_not_depend_on_the_mode() {
    let circuit = ExampleCircuit { a: Some(s(3)), b: Some(s(5)) };
    let assigned = circuit.constraint_system(Mode::Assignment).unwrap().matrices().unwrap();
    let structure = circuit.constraint_system(Mode::Structure).unwrap().matrices().unwrap();
    assert_eq!(assigned.a, structure.a);
    assert_eq!(assigned.b, structure.b);
    assert_eq!(assigned.c, structure.c);
    assert_eq!(assigned.num_public, structure.num_public);
    assert_eq!(assigned.num_private, structure.num_private);
}

#[test]
fn private_columns_come_after_the_public_ones() {
    let mut cs = ConstraintSystem::new(Mode::Structure);
    let w = cs.allocate_private(None).unwrap();
    let x = cs.allocate_public(None).unwrap();
    let y = cs.allocate_public(None).unwrap();
    let z = cs.allocate_private(None).unwrap();
    cs.enforce(
        LinearCombination::new().plus(s(2), w).plus(s(3), x),
        LinearCombination::new().plus(s(4), z).plus(s(5), y).plus(s(6), Variable::one()),
        LinearCombination::new(),
    );
    let m = cs.matrices().unwrap();
    assert_eq!(m.num_public, 3);
    assert_eq!(m.num_private, 2);
    assert_eq!(m.a, vec![vec![e(s(2), 3), e(s(3), 1)]]);
    assert_eq!(m.b, vec![vec![e(s(4), 4), e(s(5), 2), e(s(6), 0)]]);
    assert_eq!(m.c, vec![Vec::<Entry>::new()]);
    assert_eq!((m.a_entries, m.b_entries, m.c_entries), (2, 3, 0));
}

#[test]
fn zero_coefficients_are_left_out_of_a_row() {
    let lc = LinearCombination::new()
        .plus(s(0), Variable::Private(0))
        .plus(s(7), Variable::Public(1))
        .plus(Scalar::zero(), Variable::one())
        .plus(s(7), Variable::Public(1))
        .plus(s(9), Variable::Private(1));
    assert_eq!(export_row(&lc, 2, 2), vec![e(s(7), 1), e(s(7), 1), e(s(9), 3)]);
    assert_eq!(export_row(&LinearCombination::new(), 1, 0), Vec::<Entry>::new());
    assert_eq!(export_row(&LinearCombination::constant(s(0)), 1, 0), Vec::<Entry>::new());
}

#[test]
fn a_system_without_constraints_has_empty_matrices() {
    let m = ConstraintSystem::new(Mode::Structure).matrices().unwrap();
    assert!(m.a.is_empty() && m.b.is_empty() && m.c.is_empty());
    assert_eq!((m.a_entries, m.b_entries, m.c_entries), (0, 0, 0));
    assert_eq!((m.num_public, m.num_private), (1, 0));
}

#[test]
fn the_domain_is_the_next_power_of_two() {
    assert_eq!(domain_size(1), Some(1));
    assert_eq!(domain_size(2), Some(2));
    assert_eq!(domain_size(3), Some(4));
    assert_eq!(domain_size(4), Some(4));
    assert_eq!(domain_size(5), Some(8));
    assert_eq!(domain_size(1000), Some(1024));
    assert_eq!(domain_size(1024), Some(1024));
    assert_eq!(domain_size(1025), Some(2048));
    assert_eq!(domain_size((1 << 31) + 1), Some(1 << 32));
}

#[test]
fn the_field_has_no_domain_above_two_to_the_thirty_two() {
    assert_eq!(MAX_DOMAIN_POINTS, 1 << 32);
    assert_eq!(domain_size(1 << 32), Some(1 << 32));
    assert_eq!(domain_size((1 << 32) + 1), None);
    assert_eq!(domain_size(u64::MAX), None);
}

#[test]
fn the_layout_counts_variables_and_domain_points() {
    // The constant one alone: one evaluation, a domain of one point.
    let cs = ConstraintSystem::new(Mode::Structure);
    assert_eq!(
        expected_layout(&cs),
        Some(KeyLayout {
            a_query: 1,
            b_g1_query: 1,
            b_g2_query: 1,
            h_query: 0,
            l_query: 0,
            gamma_abc: 1
        })
    );
    // Five constraints and three public variables: eight evaluations.
    let mut cs = ConstraintSystem::new(Mode::Structure);
    cs.allocate_public(None).unwrap();
    cs.allocate_public(None).unwrap();
    for _ in 0..7 {
        cs.allocate_private(None).unwrap();
    }
    for _ in 0..5 {
        cs.enforce(LinearCombination::new(), LinearCombination::new(), LinearCombination::new());
    }
    assert_eq!(
        expected_layout(&cs),
        Some(KeyLayout {
            a_query: 10,
            b_g1_query: 10,
            b_g2_query: 10,
            h_query: 7,
            l_query: 7,
            gamma_abc: 3
        })
    );
    // One more constraint: nine evaluations, sixteen points.
    cs.enforce(LinearCombination::new(), LinearCombination::new(), LinearCombination::new());
    assert_eq!(expected_layout(&cs).unwrap().h_query, 15);
    assert_eq!(cs.check(), Err(Error::AssignmentMissing));
}
