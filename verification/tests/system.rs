use groth16_r1cs::error::Error;
use groth16_r1cs::field::Scalar;
use groth16_r1cs::linear::{LinearCombination, Term, Variable};
use groth16_r1cs::system::{ConstraintSystem, Mode};

fn s(x: u64) -> Scalar {
    Scalar::from_u64(x)
}

/// public x; private a, b; a * b = x.
fn product_with_public_output(mode: Mode, x: u64, a: u64, b: u64) -> ConstraintSystem {
    let mut cs = ConstraintSystem::new(mode);
    let vx = cs.allocate_public(Some(s(x))).unwrap();
    let va = cs.allocate_private(Some(s(a))).unwrap();
    let vb = cs.allocate_private(Some(s(b))).unwrap();
    cs.enforce(
        LinearCombination::from_variable(va),
        LinearCombination::from_variable(vb),
        LinearCombination::from_variable(vx),
    );
    cs
}

#[test]
fn a_new_system_has_the_constant_one_only() {
    let cs = ConstraintSystem::new(Mode::Assignment);
    assert_eq!(cs.mode(), Mode::Assignment);
    assert_eq!(cs.num_public(), 1);
    assert_eq!(cs.num_private(), 0);
    assert_eq!(cs.num_constraints(), 0);
    assert_eq!(cs.assignment(), vec![Scalar::one()]);
    assert_eq!(cs.public_inputs(), Vec::<Scalar>::new());
    assert_eq!(cs.value_of(Variable::one()), Scalar::one());
    assert_eq!(cs.check(), Ok(()));

    let cs = ConstraintSystem::new(Mode::Structure);
    assert_eq!(cs.mode(), Mode::Structure);
    assert_eq!(cs.num_public(), 1);
    assert_eq!(cs.assignment(), Vec::<Scalar>::new());
}

#[test]
fn variables_are_numbered_in_the_order_of_allocation() {
    let mut cs = ConstraintSystem::new(Mode::Assignment);
    assert_eq!(cs.allocate_private(Some(s(7))), Ok(Variable::Private(0)));
    assert_eq!(cs.allocate_public(Some(s(8))), Ok(Variable::Public(1)));
    assert_eq!(cs.allocate_private(Some(s(9))), Ok(Variable::Private(1)));
    assert_eq!(cs.allocate_public(Some(s(10))), Ok(Variable::Public(2)));
    assert_eq!(cs.num_public(), 3);
    assert_eq!(cs.num_private(), 2);
    assert_eq!(cs.assignment(), vec![s(1), s(8), s(10), s(7), s(9)]);
    assert_eq!(cs.public_inputs(), vec![s(8), s(10)]);
    assert_eq!(cs.value_of(Variable::Public(2)), s(10));
    assert_eq!(cs.value_of(Variable::Private(1)), s(9));
}

#[test]
fn structure_mode_does_not_look_at_values() {
    let mut with = ConstraintSystem::new(Mode::Structure);
    let mut without = ConstraintSystem::new(Mode::Structure);
    assert_eq!(with.allocate_public(Some(s(4))), Ok(Variable::Public(1)));
    assert_eq!(without.allocate_public(None), Ok(Variable::Public(1)));
    assert_eq!(with.allocate_private(Some(s(5))), Ok(Variable::Private(0)));
    assert_eq!(without.allocate_private(None), Ok(Variable::Private(0)));
    assert!(with.same_shape(&without));
    assert_eq!(with.assignment(), Vec::<Scalar>::new());
    assert_eq!(with.check(), Err(Error::AssignmentMissing));
}

#[test]
fn assignment_mode_needs_values() {
    let mut cs = ConstraintSystem::new(Mode::Assignment);
    assert_eq!(cs.allocate_private(None), Err(Error::AssignmentMissing));
    assert_eq!(cs.allocate_public(None), Err(Error::AssignmentMissing));
    // The failed calls have left the system as it was.
    assert_eq!(cs.num_public(), 1);
    assert_eq!(cs.num_private(), 0);
    assert_eq!(cs.assignment(), vec![Scalar::one()]);
    assert_eq!(cs.allocate_private(Some(s(2))), Ok(Variable::Private(0)));
}

#[test]
fn enforce_adds_without_evaluating() {
    let cs = product_with_public_output(Mode::Assignment, 16, 3, 5);
    // The violated constraint was added all the same.
    assert_eq!(cs.num_constraints(), 1);
    assert_eq!(cs.constraints()[0].a, LinearCombination::from_variable(Variable::Private(0)));
    assert_eq!(cs.constraints()[0].b, LinearCombination::from_variable(Variable::Private(1)));
    assert_eq!(cs.constraints()[0].c, LinearCombination::from_variable(Variable::Public(1)));
    assert_eq!(cs.check(), Err(Error::ConstraintUnsatisfied));
}

#[test]
fn check_accepts_a_satisfying_assignment() {
    let cs = product_with_public_output(Mode::Assignment, 15, 3, 5);
    assert_eq!(cs.check(), Ok(()));
    assert_eq!(cs.first_unsatisfied(), None);
    assert!(cs.holds_at(0));
}

#[test]
fn check_names_the_first_violated_constraint() {
    let mut cs = ConstraintSystem::new(Mode::Assignment);
    let a = cs.allocate_private(Some(s(2))).unwrap();
    let b = cs.allocate_private(Some(s(3))).unwrap();
    let six = LinearCombination::constant(s(6));
    let seven = LinearCombination::constant(s(7));
    let lc = |v| LinearCombination::from_variable(v);
    cs.enforce(lc(a), lc(b), six.duplicate());
    cs.enforce(lc(a), lc(b), seven.duplicate());
    cs.enforce(lc(b), lc(a), six.duplicate());
    cs.enforce(lc(a), lc(a), seven.duplicate());
    assert!(cs.holds_at(0));
    assert!(!cs.holds_at(1));
    assert!(cs.holds_at(2));
    assert!(!cs.holds_at(3));
    assert_eq!(cs.first_unsatisfied(), Some(1));
    assert_eq!(cs.check(), Err(Error::ConstraintUnsatisfied));
}

#[test]
fn linear_combinations_are_evaluated_in_the_field() {
    let mut cs = ConstraintSystem::new(Mode::Assignment);
    let x = cs.allocate_public(Some(s(10))).unwrap();
    let y = cs.allocate_private(Some(s(4))).unwrap();
    // 2 * x + 3 * y + 5 * 1 = 37
    let lc = LinearCombination::new().plus(s(2), x).plus(s(3), y).plus(s(5), Variable::one());
    assert_eq!(cs.evaluate(&lc), s(37));
    // A variable that occurs twice has the sum of its coefficients.
    let twice = LinearCombination::new().plus(s(2), y).plus(s(7), y);
    assert_eq!(cs.evaluate(&twice), s(36));
    // x - y, with -1 as a coefficient.
    let difference = LinearCombination::from_variable(x).plus(Scalar::one().neg(), y);
    assert_eq!(cs.evaluate(&difference), s(6));
    // y - x is the negative of that.
    let other = LinearCombination::from_variable(y).plus(Scalar::one().neg(), x);
    assert_eq!(cs.evaluate(&other), s(6).neg());
    assert_eq!(cs.evaluate(&LinearCombination::new()), Scalar::zero());
}

#[test]
fn admits_tells_allocated_variables_from_others() {
    let mut cs = ConstraintSystem::new(Mode::Structure);
    let x = cs.allocate_private(None).unwrap();
    assert!(cs.admits(&LinearCombination::from_variable(x)));
    assert!(cs.admits(&LinearCombination::constant(s(3))));
    assert!(cs.admits(&LinearCombination::new()));
    assert!(!cs.admits(&LinearCombination::from_variable(Variable::Private(1))));
    assert!(!cs.admits(&LinearCombination::from_variable(Variable::Public(1))));
    assert!(!cs.admits(&LinearCombination::from_variable(x).plus(s(1), Variable::Private(9))));
}

#[test]
fn shapes_are_compared_term_by_term() {
    let a = product_with_public_output(Mode::Assignment, 15, 3, 5);
    let b = product_with_public_output(Mode::Assignment, 77, 7, 11);
    let c = product_with_public_output(Mode::Structure, 0, 0, 0);
    assert!(a.same_shape(&b));
    assert!(a.same_shape(&c));
    assert!(a.same_shape(&a.structure()));

    // One more variable.
    let mut d = product_with_public_output(Mode::Assignment, 15, 3, 5);
    d.allocate_private(Some(s(1))).unwrap();
    assert!(!a.same_shape(&d));

    // One more constraint.
    let mut e = product_with_public_output(Mode::Assignment, 15, 3, 5);
    e.enforce(LinearCombination::new(), LinearCombination::new(), LinearCombination::new());
    assert!(!a.same_shape(&e));

    // Another coefficient in the one constraint.
    let mut f = ConstraintSystem::new(Mode::Structure);
    let vx = f.allocate_public(None).unwrap();
    let va = f.allocate_private(None).unwrap();
    let vb = f.allocate_private(None).unwrap();
    f.enforce(
        LinearCombination::new().plus(s(2), va),
        LinearCombination::from_variable(vb),
        LinearCombination::from_variable(vx),
    );
    assert!(!a.same_shape(&f));

    // The same terms in another role.
    let mut g = ConstraintSystem::new(Mode::Structure);
    let vx = g.allocate_public(None).unwrap();
    let va = g.allocate_private(None).unwrap();
    let vb = g.allocate_private(None).unwrap();
    g.enforce(
        LinearCombination::from_variable(vb),
        LinearCombination::from_variable(va),
        LinearCombination::from_variable(vx),
    );
    assert!(!a.same_shape(&g));
}

#[test]
fn structure_keeps_the_shape_and_drops_the_values() {
    let cs = product_with_public_output(Mode::Assignment, 15, 3, 5);
    let bare = cs.structure();
    assert_eq!(bare.mode(), Mode::Structure);
    assert_eq!(bare.num_public(), 2);
    assert_eq!(bare.num_private(), 2);
    assert_eq!(bare.num_constraints(), 1);
    assert_eq!(bare.constraints(), cs.constraints());
    assert_eq!(bare.assignment(), Vec::<Scalar>::new());
    assert_eq!(bare.check(), Err(Error::AssignmentMissing));
}

#[test]
fn linear_combinations_are_built_term_by_term() {
    let lc = LinearCombination::constant(s(15)).plus(s(2), Variable::Private(3));
    assert_eq!(lc.len(), 2);
    assert_eq!(lc.terms[0], Term { coeff: s(15), var: Variable::Public(0) });
    assert_eq!(lc.terms[1], Term { coeff: s(2), var: Variable::Private(3) });
    assert!(lc.same_terms(&lc.duplicate()));
    assert!(!lc.same_terms(&LinearCombination::constant(s(15))));
    assert!(!lc.same_terms(&LinearCombination::constant(s(15)).plus(s(2), Variable::Public(3))));
    assert!(!lc.same_terms(&LinearCombination::constant(s(15)).plus(s(3), Variable::Private(3))));
    assert_eq!(LinearCombination::new().len(), 0);
    assert_eq!(
        LinearCombination::from_variable(Variable::Private(1)).terms,
        vec![Term { coeff: Scalar::one(), var: Variable::Private(1) }]
    );
}

#[test]
fn errors_have_messages() {
    assert_eq!(Error::AssignmentMissing.message(), "an assignment for a variable is missing");
    assert_eq!(
        Error::ConstraintUnsatisfied.message(),
        "a constraint is not satisfied by the assignment"
    );
    assert_eq!(Error::ShapeMismatch.message(), "the key was made for another constraint shape");
    assert_eq!(Error::MalformedKey.message(), "the key is malformed");
    assert_eq!(
        Error::DomainTooLarge.message(),
        "the constraint system is too large for the field"
    );
}
