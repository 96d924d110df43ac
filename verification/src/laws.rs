//! What holds of the library as a whole.

use vstd::prelude::*;
use vstd::arithmetic::div_mod::{lemma_mod_bound, lemma_mod_multiples_vanish, lemma_small_mod};
use crate::error::Error;
use crate::field::{lemma_modulus_is_large, modulus, Scalar};
use crate::groth16::{
    proving_outcome, verification_outcome, ProvingKeyView, VerifyingKeyView,
};
use crate::linear::{
    lemma_terms_value_empty, lemma_terms_value_push, lemma_terms_value_single, terms_sum,
    terms_value, terms_within, Term, Variable,
};
use crate::matrix::{shape_matrices, terms_row, MatricesView};
use crate::relation::{product_constraint, target_constraint, with_relation, PRODUCT};
use crate::system::{ConstraintView, Mode, Shape, SystemView};

verus! {

/// The sum of coefficient times value over the entries of a sparse row,
/// each value taken from the column of the entry.
pub open spec fn row_sum(row: Seq<(nat, nat)>, assignment: Seq<nat>) -> nat
    decreases row.len(),
{
    if row.len() == 0 {
        0
    } else {
        (row_sum(row.drop_last(), assignment) + row.last().0 * assignment[row.last().1 as int]) as nat
    }
}

/// A row of the matrices takes the same value on the full assignment as the
/// linear combination it was made of takes on the public and the private
/// values: leaving out the zero coefficients and numbering the private
/// variables after the public ones changes nothing.
pub proof fn lemma_row_keeps_value(terms: Seq<Term>, public: Seq<nat>, private: Seq<nat>)
    requires
        terms_within(terms, public.len(), private.len()),
    ensures
        row_sum(terms_row(terms, public.len()), public + private) == terms_sum(
            terms,
            public,
            private,
        ),
    decreases terms.len(),
{
    if terms.len() > 0 {
        let rest = terms.drop_last();
        let last = terms.last();
        assert(terms_within(rest, public.len(), private.len())) by {
            assert forall|k: int| 0 <= k < rest.len() implies (#[trigger] rest[k]).var.within(
                public.len(),
                private.len(),
            ) by {
                assert(terms[k].var.within(public.len(), private.len()));
            }
        }
        lemma_row_keeps_value(rest, public, private);
        assert(last.var.within(public.len(), private.len()));
        assert((public + private)[last.var.column(public.len()) as int] == last.var.value(
            public,
            private,
        ));
        if last.coeff@ != 0 {
            let entry = (last.coeff@, last.var.column(public.len()));
            assert(terms_row(rest, public.len()).push(entry).drop_last() =~= terms_row(
                rest,
                public.len(),
            ));
        }
    }
}

/// The field element that a sparse row takes on a full assignment.
pub open spec fn row_value(row: Seq<(nat, nat)>, assignment: Seq<nat>) -> nat {
    row_sum(row, assignment) % modulus()
}

/// Whether a full assignment satisfies the constraints that three matrices
/// stand for: row by row, the value of `A` times that of `B` is that of `C`.
pub open spec fn matrices_satisfied(m: MatricesView, assignment: Seq<nat>) -> bool {
    forall|i: int|
        #![trigger m.c[i]]
        0 <= i < m.c.len() ==> (row_value(m.a[i], assignment) * row_value(m.b[i], assignment))
            % modulus() == row_value(m.c[i], assignment)
}

/// The matrices of a system stand for its constraints: the full assignment
/// satisfies the matrices exactly where the assignment satisfies the system.
/// So what is handed to the prover is satisfied whenever the check of the
/// system has passed.
pub proof fn lemma_matrices_keep_satisfaction(cs: SystemView)
    requires
        cs.wf(),
        cs.mode == Mode::Assignment,
    ensures
        matrices_satisfied(shape_matrices(cs.shape), cs.assignment()) <==> cs.satisfied(),
{
    let m = shape_matrices(cs.shape);
    let w = cs.assignment();
    assert forall|i: int| 0 <= i < cs.shape.constraints.len() implies {
        &&& row_value(m.a[i], w) == terms_value(cs.shape.constraints[i].a, cs.public, cs.private)
        &&& row_value(m.b[i], w) == terms_value(cs.shape.constraints[i].b, cs.public, cs.private)
        &&& row_value(#[trigger] m.c[i], w) == terms_value(
            cs.shape.constraints[i].c,
            cs.public,
            cs.private,
        )
    } by {
        let c = cs.shape.constraints[i];
        assert(c.within(cs.shape.num_public, cs.shape.num_private));
        lemma_row_keeps_value(c.a, cs.public, cs.private);
        lemma_row_keeps_value(c.b, cs.public, cs.private);
        lemma_row_keeps_value(c.c, cs.public, cs.private);
    }
    if cs.satisfied() {
        assert forall|i: int| 0 <= i < m.c.len() implies (row_value(m.a[i], w) * row_value(
            m.b[i],
            w,
        )) % modulus() == row_value(#[trigger] m.c[i], w) by {
            assert(cs.shape.constraints[i].holds(cs.public, cs.private));
        }
    }
    if matrices_satisfied(m, w) {
        assert forall|i: int| 0 <= i < cs.shape.constraints.len() implies (
        #[trigger] cs.shape.constraints[i]).holds(cs.public, cs.private) by {
            assert(row_value(m.c[i], w) == terms_value(
                cs.shape.constraints[i].c,
                cs.public,
                cs.private,
            ));
        }
    }
}

/// The relation has the same shape whether it is written down for a setup
/// or for a proof, whatever the values are: the same variables, and the
/// same constraints in the same order.
pub proof fn lemma_relation_shape_is_fixed(a: Option<nat>, b: Option<nat>, c: Option<nat>, d: Option<nat>)
    ensures
        with_relation(SystemView::empty(Mode::Structure), a, b).shape == with_relation(
            SystemView::empty(Mode::Assignment),
            c,
            d,
        ).shape,
{
}

/// Writing the relation into a system changes its shape in the same way in
/// both modes: two systems of one shape have one shape afterwards.
pub proof fn lemma_relation_keeps_shapes_equal(
    x: SystemView,
    y: SystemView,
    a: Option<nat>,
    b: Option<nat>,
    c: Option<nat>,
    d: Option<nat>,
)
    requires
        x.shape == y.shape,
    ensures
        with_relation(x, a, b).shape == with_relation(y, c, d).shape,
{
}

/// The assignment `a`, `b`, `a * b` satisfies the relation exactly where
/// `a * b` is fifteen in the field.
pub proof fn lemma_relation_satisfied(a: nat, b: nat)
    requires
        a < modulus(),
        b < modulus(),
    ensures
        with_relation(SystemView::empty(Mode::Assignment), Some(a), Some(b)).wf(),
        with_relation(SystemView::empty(Mode::Assignment), Some(a), Some(b)).satisfied() <==> (a
            * b) % modulus() == PRODUCT,
{
    let p = modulus();
    let cs = with_relation(SystemView::empty(Mode::Assignment), Some(a), Some(b));
    let product = (a * b) % p;
    let public = cs.public;
    let private = cs.private;
    lemma_modulus_is_large();
    lemma_mod_bound((a * b) as int, p as int);
    assert(public =~= seq![1nat]);
    assert(private =~= seq![a, b, product]);
    assert(cs.shape.constraints =~= seq![product_constraint(0), target_constraint(0)]);
    Scalar::lemma_of_value(1);
    Scalar::lemma_of_value(PRODUCT as nat);
    Scalar::lemma_of_value((p - 1) as nat);
    let one = Term { coeff: Scalar::of_value(1), var: Variable::Public(0) };
    let fifteen = Term { coeff: Scalar::of_value(PRODUCT as nat), var: Variable::Public(0) };
    let minus = Term { coeff: Scalar::of_value((p - 1) as nat), var: Variable::Private(2) };
    let first = product_constraint(0);
    let second = target_constraint(0);
    // The first constraint holds of every such assignment.
    lemma_terms_value_single(first.a[0], public, private);
    lemma_terms_value_single(first.b[0], public, private);
    lemma_terms_value_single(first.c[0], public, private);
    assert(first.a =~= seq![first.a[0]]);
    assert(first.b =~= seq![first.b[0]]);
    assert(first.c =~= seq![first.c[0]]);
    lemma_small_mod(a, p);
    lemma_small_mod(b, p);
    lemma_small_mod(product, p);
    assert(1 * a == a && 1 * b == b && 1 * product == product);
    assert(terms_value(first.a, public, private) == a);
    assert(terms_value(first.b, public, private) == b);
    assert(terms_value(first.c, public, private) == product);
    assert(first.holds(public, private));
    // The second one holds where the product is fifteen.
    lemma_terms_value_single(fifteen, public, private);
    lemma_terms_value_push(seq![fifteen], minus, public, private);
    assert(seq![fifteen].push(minus) =~= second.a);
    lemma_terms_value_single(one, public, private);
    assert(second.b =~= seq![one]);
    lemma_terms_value_empty(public, private);
    assert(second.c =~= Seq::<Term>::empty());
    lemma_small_mod(PRODUCT as nat, p);
    lemma_small_mod(1, p);
    assert(PRODUCT * 1 == PRODUCT && 1 * 1 == 1);
    let folded = ((p - 1) * product) % (p as int);
    assert(folded == (p - product) % (p as int)) by {
        assert((p - 1) * product == p * product + (-(product as int))) by (nonlinear_arith);
        lemma_mod_multiples_vanish(product as int, -(product as int), p as int);
        lemma_mod_multiples_vanish(1, -(product as int), p as int);
    }
    let left = terms_value(second.a, public, private);
    assert(left == (PRODUCT + folded) % (p as int));
    if product == 0 {
        lemma_small_mod(0, p);
        lemma_mod_multiples_vanish(1, 0, p as int);
        assert(folded == 0);
    } else {
        lemma_small_mod((p - product) as nat, p);
        assert(folded == p - product);
        if product <= PRODUCT {
            lemma_mod_multiples_vanish(1, PRODUCT - product, p as int);
            lemma_small_mod((PRODUCT - product) as nat, p);
            assert(left == PRODUCT - product);
        } else {
            lemma_small_mod((PRODUCT + p - product) as nat, p);
            assert(left == PRODUCT + p - product);
        }
    }
    assert(left == 0 <==> product == PRODUCT);
    lemma_small_mod(left, p);
    assert(left * 1 == left);
    assert(second.holds(public, private) <==> product == PRODUCT);
    if product == PRODUCT {
        assert forall|i: int| 0 <= i < cs.shape.constraints.len() implies (
        #[trigger] cs.shape.constraints[i]).holds(public, private) by {
            if i == 0 {
            } else {
            }
        }
    } else {
        assert(!cs.shape.constraints[1].holds(public, private));
    }
    assert(cs.shape.wf()) by {
        assert forall|i: int| 0 <= i < cs.shape.constraints.len() implies (
        #[trigger] cs.shape.constraints[i]).within(cs.shape.num_public, cs.shape.num_private) by {
            if i == 0 {
            } else {
            }
        }
    }
}

/// The order of the constraints does not matter to what they demand: two
/// shapes with the same constraints, in whatever order and however often,
/// are satisfied by the same assignments.
pub proof fn lemma_order_is_irrelevant(x: Shape, y: Shape, public: Seq<nat>, private: Seq<nat>)
    requires
        forall|c: ConstraintView| x.constraints.contains(c) <==> y.constraints.contains(c),
    ensures
        x.satisfied_by(public, private) <==> y.satisfied_by(public, private),
{
    if x.satisfied_by(public, private) {
        assert forall|i: int| 0 <= i < y.constraints.len() implies (#[trigger] y.constraints[i]).holds(
            public,
            private,
        ) by {
            assert(y.constraints.contains(y.constraints[i]));
            let j = choose|j: int| 0 <= j < x.constraints.len() && x.constraints[j] == y.constraints[i];
            assert(x.constraints[j].holds(public, private));
        }
    }
    if y.satisfied_by(public, private) {
        assert forall|i: int| 0 <= i < x.constraints.len() implies (#[trigger] x.constraints[i]).holds(
            public,
            private,
        ) by {
            assert(x.constraints.contains(x.constraints[i]));
            let j = choose|j: int| 0 <= j < y.constraints.len() && y.constraints[j] == x.constraints[i];
            assert(y.constraints[j].holds(public, private));
        }
    }
}

/// One more constraint demands what the others demand, and that it holds
/// itself: nothing is decided when it is added.
pub proof fn lemma_one_more_constraint(cs: SystemView, c: ConstraintView)
    ensures
        cs.with_constraint(c).satisfied() <==> cs.satisfied() && c.holds(cs.public, cs.private),
{
    let more = cs.with_constraint(c);
    let n = cs.shape.constraints.len() as int;
    assert(more.shape.constraints[n] == c);
    if more.satisfied() {
        assert(more.shape.constraints[n].holds(cs.public, cs.private));
        assert forall|i: int| 0 <= i < n implies (#[trigger] cs.shape.constraints[i]).holds(
            cs.public,
            cs.private,
        ) by {
            assert(more.shape.constraints[i] == cs.shape.constraints[i]);
            assert(more.shape.constraints[i].holds(cs.public, cs.private));
        }
    }
    if cs.satisfied() && c.holds(cs.public, cs.private) {
        assert forall|i: int| 0 <= i < more.shape.constraints.len() implies (
        #[trigger] more.shape.constraints[i]).holds(more.public, more.private) by {
            if i < n {
                assert(cs.shape.constraints[i].holds(cs.public, cs.private));
            }
        }
    }
}

/// An assignment that violates a constraint is refused before any proof is
/// made, whatever the blinding scalars are.
pub proof fn lemma_violation_is_refused(key: ProvingKeyView, cs: SystemView, r: nat, s: nat)
    requires
        cs.shape == key.shape,
        cs.mode == Mode::Assignment,
        !cs.satisfied(),
    ensures
        proving_outcome(key, cs, r, s) == Err::<Seq<u8>, Error>(Error::ConstraintUnsatisfied),
{
}

/// A proving key proves for no shape but its own.
pub proof fn lemma_key_is_bound_to_shape(key: ProvingKeyView, cs: SystemView, r: nat, s: nat)
    requires
        cs.shape != key.shape,
    ensures
        proving_outcome(key, cs, r, s) == Err::<Seq<u8>, Error>(Error::ShapeMismatch),
{
}

/// A verifying key verifies for no other number of public inputs than its
/// own.
pub proof fn lemma_key_is_bound_to_inputs(key: VerifyingKeyView, inputs: Seq<nat>, proof: Seq<u8>)
    requires
        inputs.len() != key.num_inputs,
    ensures
        verification_outcome(key, inputs, proof) == Err::<bool, Error>(Error::ShapeMismatch),
{
}

/// Proving fails for want of a proof only: where the key fits the shape and
/// the assignment satisfies every constraint, no error but `DomainTooLarge`
/// can come out.
pub proof fn lemma_satisfied_is_proved(key: ProvingKeyView, cs: SystemView, r: nat, s: nat)
    requires
        cs.shape == key.shape,
        cs.mode == Mode::Assignment,
        cs.satisfied(),
    ensures
        proving_outcome(key, cs, r, s) is Ok || proving_outcome(key, cs, r, s) == Err::<
            Seq<u8>,
            Error,
        >(Error::DomainTooLarge),
{
}

} // verus!
