use ark_bls12_381::Fr;
use ark_ff::BigInt;
use ark_r1cs_std::alloc::AllocVar;
use ark_r1cs_std::eq::EqGadget;
use ark_r1cs_std::fields::fp::FpVar;
use ark_r1cs_std::fields::FieldVar;
use ark_relations::r1cs::{ConstraintSystem as ArkSystem, SynthesisMode};
use groth16_r1cs::error::Error;
use groth16_r1cs::field::Scalar;
use groth16_r1cs::linear::{LinearCombination, Variable};
use groth16_r1cs::matrix::Entry;
use groth16_r1cs::relation::{ExampleCircuit, PRODUCT};
use groth16_r1cs::system::{ConstraintSystem, Mode};

fn s(x: u64) -> Scalar {
    Scalar::from_u64(x)
}

fn circuit(a: u64, b: u64) -> ExampleCircuit {
    ExampleCircuit { a: Some(s(a)), b: Some(s(b)) }
}

fn field_rows(rows: &Vec<Vec<Entry>>) -> Vec<Vec<(Fr, usize)>> {
    rows.iter()
        .map(|row| row.iter().map(|e| (Fr::from(BigInt(e.coeff.to_limbs())), e.column)).collect())
        .collect()
}

#[test]
fn the_target_is_fifteen() {
    assert_eq!(PRODUCT, 15);
}

#[test]
fn the_relation_has_three_private_variables_and_two_constraints() {
    let cs = circuit(3, 5).constraint_system(Mode::Assignment).unwrap();
    assert_eq!(cs.num_public(), 1);
    assert_eq!(cs.num_private(), 3);
    assert_eq!(cs.num_constraints(), 2);
    assert_eq!(cs.assignment(), vec![s(1), s(3), s(5), s(15)]);
    assert!(cs.public_inputs().is_empty());

    let a = Variable::Private(0);
    let b = Variable::Private(1);
    let product = Variable::Private(2);
    let first = &cs.constraints()[0];
    assert_eq!(first.a, LinearCombination::from_variable(a));
    assert_eq!(first.b, LinearCombination::from_variable(b));
    assert_eq!(first.c, LinearCombination::from_variable(product));
    let second = &cs.constraints()[1];
    assert_eq!(second.a, LinearCombination::constant(s(15)).plus(Scalar::one().neg(), product));
    assert_eq!(second.b, LinearCombination::constant(Scalar::one()));
    assert_eq!(second.c, LinearCombination::new());
}

#[test]
fn three_and_five_satisfy_the_relation() {
    let cs = circuit(3, 5).constraint_system(Mode::Assignment).unwrap();
    assert_eq!(cs.check(), Ok(()));
    assert_eq!(cs.first_unsatisfied(), None);
}

#[test]
fn fifteen_and_one_satisfy_the_relation() {
    let cs = circuit(15, 1).constraint_system(Mode::Assignment).unwrap();
    assert_eq!(cs.check(), Ok(()));
    assert_eq!(cs.assignment(), vec![s(1), s(15), s(1), s(15)]);
}

#[test]
fn three_and_four_violate_the_second_constraint() {
    let cs = circuit(3, 4).constraint_system(Mode::Assignment).unwrap();
    assert_eq!(cs.assignment(), vec![s(1), s(3), s(4), s(12)]);
    assert!(cs.holds_at(0));
    assert!(!cs.holds_at(1));
    assert_eq!(cs.first_unsatisfied(), Some(1));
    assert_eq!(cs.check(), Err(Error::ConstraintUnsatisfied));
}

#[test]
fn the_product_is_taken_in_the_field() {
    // (-3) * (-5) = 15, and (-1) * 15 = -15 is not.
    let yes = ExampleCircuit { a: Some(s(3).neg()), b: Some(s(5).neg()) };
    assert_eq!(yes.constraint_system(Mode::Assignment).unwrap().check(), Ok(()));
    let no = ExampleCircuit { a: Some(Scalar::one().neg()), b: Some(s(15)) };
    assert_eq!(
        no.constraint_system(Mode::Assignment).unwrap().check(),
        Err(Error::ConstraintUnsatisfied)
    );
    let zero = ExampleCircuit { a: Some(s(0)), b: Some(s(15)) };
    assert_eq!(
        zero.constraint_system(Mode::Assignment).unwrap().check(),
        Err(Error::ConstraintUnsatisfied)
    );
}

#[test]
fn a_missing_value_is_reported_in_assignment_mode_only() {
    let half = ExampleCircuit { a: Some(s(3)), b: None };
    assert_eq!(half.constraint_system(Mode::Assignment).unwrap_err(), Error::AssignmentMissing);
    let other_half = ExampleCircuit { a: None, b: Some(s(5)) };
    assert_eq!(
        other_half.constraint_system(Mode::Assignment).unwrap_err(),
        Error::AssignmentMissing
    );
    let none = ExampleCircuit { a: None, b: None };
    assert_eq!(none.constraint_system(Mode::Assignment).unwrap_err(), Error::AssignmentMissing);
    assert!(half.constraint_system(Mode::Structure).is_ok());
    assert!(none.constraint_system(Mode::Structure).is_ok());
}

#[test]
fn a_failed_synthesis_leaves_the_system_as_it_was() {
    let mut cs = ConstraintSystem::new(Mode::Assignment);
    cs.allocate_public(Some(s(9))).unwrap();
    let half = ExampleCircuit { a: Some(s(3)), b: None };
    assert_eq!(half.generate_constraints(&mut cs), Err(Error::AssignmentMissing));
    assert_eq!(cs.num_public(), 2);
    assert_eq!(cs.num_private(), 0);
    assert_eq!(cs.num_constraints(), 0);
    assert_eq!(cs.assignment(), vec![s(1), s(9)]);
}

#[test]
fn the_shape_is_the_same_in_both_modes() {
    let structure = ExampleCircuit { a: None, b: None }.constraint_system(Mode::Structure).unwrap();
    let with_values = circuit(3, 5).constraint_system(Mode::Structure).unwrap();
    let assigned = circuit(3, 5).constraint_system(Mode::Assignment).unwrap();
    let violated = circuit(3, 4).constraint_system(Mode::Assignment).unwrap();
    assert!(structure.same_shape(&with_values));
    assert!(structure.same_shape(&assigned));
    assert!(structure.same_shape(&violated));
    assert_eq!(structure.constraints(), assigned.constraints());
    assert!(structure.assignment().is_empty());
}

#[test]
fn the_relation_is_written_after_what_is_there() {
    let mut cs = ConstraintSystem::new(Mode::Assignment);
    let x = cs.allocate_private(Some(s(2))).unwrap();
    cs.enforce(
        LinearCombination::from_variable(x),
        LinearCombination::from_variable(x),
        LinearCombination::constant(s(4)),
    );
    assert_eq!(circuit(5, 3).generate_constraints(&mut cs), Ok(()));
    assert_eq!(cs.num_private(), 4);
    assert_eq!(cs.num_constraints(), 3);
    assert_eq!(cs.assignment(), vec![s(1), s(2), s(5), s(3), s(15)]);
    assert_eq!(cs.constraints()[1].a, LinearCombination::from_variable(Variable::Private(1)));
    assert_eq!(cs.constraints()[1].b, LinearCombination::from_variable(Variable::Private(2)));
    assert_eq!(cs.constraints()[1].c, LinearCombination::from_variable(Variable::Private(3)));
    assert_eq!(cs.check(), Ok(()));
}

#[test]
fn the_matrices_are_those_of_the_field_gadgets() {
    // The same relation, written with the gadgets of `ark_r1cs_std`.
    for mode in [SynthesisMode::Setup, SynthesisMode::Prove { construct_matrices: true }] {
        let ark = ArkSystem::<Fr>::new_ref();
        ark.set_mode(mode);
        let a = FpVar::new_witness(ark.clone(), || Ok(Fr::from(3u64))).unwrap();
        let b = FpVar::new_witness(ark.clone(), || Ok(Fr::from(5u64))).unwrap();
        let c = a * &b;
        let expected = FpVar::constant(Fr::from(15u64));
        c.enforce_equal(&expected).unwrap();
        ark.finalize();
        let theirs = ark.to_matrices().unwrap();

        let ours = circuit(3, 5).constraint_system(Mode::Assignment).unwrap().matrices().unwrap();
        assert_eq!(ours.num_public, theirs.num_instance_variables);
        assert_eq!(ours.num_private, theirs.num_witness_variables);
        assert_eq!(ours.a.len(), theirs.num_constraints);
        assert_eq!(ours.a_entries, theirs.a_num_non_zero);
        assert_eq!(ours.b_entries, theirs.b_num_non_zero);
        assert_eq!(ours.c_entries, theirs.c_num_non_zero);
        assert_eq!(field_rows(&ours.a), theirs.a);
        assert_eq!(field_rows(&ours.b), theirs.b);
        assert_eq!(field_rows(&ours.c), theirs.c);
    }
}
