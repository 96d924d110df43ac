//! The relation `a * b = 15` over two private values.

use vstd::prelude::*;
use vstd::arithmetic::div_mod::lemma_small_mod;
use crate::error::Error;
use crate::field::{lemma_modulus_is_large, modulus, Scalar};
use crate::linear::{LinearCombination, Term, Variable};
use crate::system::{option_value, ConstraintSystem, ConstraintView, Mode, SystemView};

verus! {

/// The number that the product has to be.
pub const PRODUCT: u64 = 15;

/// The relation "I know `a` and `b` with `a * b = 15`", with the two values
/// where they are known.
#[derive(Clone, Copy, Debug)]
pub struct ExampleCircuit {
    pub a: Option<Scalar>,
    pub b: Option<Scalar>,
}

/// The product of two values in the field, where both are there.
pub open spec fn product_value(a: Option<nat>, b: Option<nat>) -> Option<nat> {
    if a is Some && b is Some {
        Some((a.unwrap() * b.unwrap()) % modulus())
    } else {
        None
    }
}

/// The constraint that the private variable `first + 2` is the product of
/// the private variables `first` and `first + 1`.
pub open spec fn product_constraint(first: usize) -> ConstraintView {
    ConstraintView {
        a: seq![Term { coeff: Scalar::of_value(1), var: Variable::Private(first) }],
        b: seq![Term { coeff: Scalar::of_value(1), var: Variable::Private((first + 1) as usize) }],
        c: seq![Term { coeff: Scalar::of_value(1), var: Variable::Private((first + 2) as usize) }],
    }
}

/// The constraint that fifteen minus the private variable `first + 2`,
/// times one, is zero.
pub open spec fn target_constraint(first: usize) -> ConstraintView {
    ConstraintView {
        a: seq![
            Term { coeff: Scalar::of_value(PRODUCT as nat), var: Variable::Public(0) },
            Term {
                coeff: Scalar::of_value((modulus() - 1) as nat),
                var: Variable::Private((first + 2) as usize),
            },
        ],
        b: seq![Term { coeff: Scalar::of_value(1), var: Variable::Public(0) }],
        c: Seq::empty(),
    }
}

/// A system after the relation has been written into it: three more private
/// variables, for `a`, `b` and their product, and two more constraints.
pub open spec fn with_relation(cs: SystemView, a: Option<nat>, b: Option<nat>) -> SystemView {
    let first = cs.shape.num_private as usize;
    cs.with_private(a).with_private(b).with_private(product_value(a, b)).with_constraint(
        product_constraint(first),
    ).with_constraint(target_constraint(first))
}

/// Whether the relation can be written into a system: in assignment mode
/// both values have to be known.
pub open spec fn values_known(cs: SystemView, a: Option<nat>, b: Option<nat>) -> bool {
    cs.mode == Mode::Structure || (a is Some && b is Some)
}

/// Whether a system has room for the three variables of the relation.
pub open spec fn has_room_for_relation(cs: SystemView) -> bool {
    cs.shape.num_public + cs.shape.num_private + 3 <= usize::MAX
}

impl ExampleCircuit {
    /// Writes the relation into a constraint system: allocates `a`, `b` and
    /// their product as private variables and adds the two constraints.
    ///
    /// The variables and constraints are the same in both modes. In
    /// assignment mode both values are needed. Where the call fails, the
    /// system is as it was.
    pub fn generate_constraints(self, cs: &mut ConstraintSystem) -> (r: Result<(), Error>)
        requires
            old(cs).wf(),
        ensures
            final(cs).wf(),
            !values_known(old(cs)@, option_value(self.a), option_value(self.b)) ==> r == Err::<
                (),
                Error,
            >(Error::AssignmentMissing),
            values_known(old(cs)@, option_value(self.a), option_value(self.b))
                && !has_room_for_relation(old(cs)@) ==> r == Err::<(), Error>(
                Error::DomainTooLarge,
            ),
            values_known(old(cs)@, option_value(self.a), option_value(self.b))
                && has_room_for_relation(old(cs)@) ==> r == Ok::<(), Error>(()),
            r is Ok ==> final(cs)@ == with_relation(
                old(cs)@,
                option_value(self.a),
                option_value(self.b),
            ),
            r is Err ==> final(cs)@ == old(cs)@,
    {
        let assigned: bool = match cs.mode() {
            Mode::Structure => false,
            Mode::Assignment => true,
        };
        if assigned && (self.a.is_none() || self.b.is_none()) {
            return Err(Error::AssignmentMissing);
        }
        if usize::MAX - cs.num_public() - cs.num_private() < 3 {
            return Err(Error::DomainTooLarge);
        }
        let product: Option<Scalar> = if assigned {
            Some(self.a.unwrap().mul(&self.b.unwrap()))
        } else {
            None
        };
        let ghost first = cs@.shape.num_private as usize;
        let a: Variable = match cs.allocate_private(self.a) {
            Ok(v) => v,
            Err(e) => { return Err(e); },
        };
        let b: Variable = match cs.allocate_private(self.b) {
            Ok(v) => v,
            Err(e) => { return Err(e); },
        };
        let c: Variable = match cs.allocate_private(product) {
            Ok(v) => v,
            Err(e) => { return Err(e); },
        };
        cs.enforce(
            LinearCombination::from_variable(a),
            LinearCombination::from_variable(b),
            LinearCombination::from_variable(c),
        );
        let minus_one: Scalar = Scalar::one().neg();
        proof {
            lemma_modulus_is_large();
            lemma_small_mod((modulus() - 1) as nat, modulus());
            assert(seq![
                Term { coeff: Scalar::of_value(PRODUCT as nat), var: Variable::Public(0) },
            ].push(Term { coeff: minus_one, var: c }) =~= target_constraint(first).a);
        }
        cs.enforce(
            LinearCombination::constant(Scalar::from_u64(PRODUCT)).plus(minus_one, c),
            LinearCombination::constant(Scalar::one()),
            LinearCombination::new(),
        );
        Ok(())
    }

    /// The constraint system of the relation alone, in the given mode.
    pub fn constraint_system(self, mode: Mode) -> (r: Result<ConstraintSystem, Error>)
        ensures
            match r {
                Ok(cs) => {
                    &&& cs.wf()
                    &&& values_known(
                        SystemView::empty(mode),
                        option_value(self.a),
                        option_value(self.b),
                    )
                    &&& cs@ == with_relation(
                        SystemView::empty(mode),
                        option_value(self.a),
                        option_value(self.b),
                    )
                },
                Err(e) => e == Error::AssignmentMissing && !values_known(
                    SystemView::empty(mode),
                    option_value(self.a),
                    option_value(self.b),
                ),
            },
    {
        let mut cs = ConstraintSystem::new(mode);
        match self.generate_constraints(&mut cs) {
            Ok(()) => Ok(cs),
            Err(e) => Err(e),
        }
    }
}

} // verus!
