//! Variables and linear combinations of them.

use vstd::prelude::*;
use vstd::arithmetic::div_mod::{lemma_add_mod_noop, lemma_small_mod};
use crate::field::{modulus, Scalar};

verus! {

/// A variable of a constraint system: its place among the public or among the
/// private values of an assignment. `Public(0)` is the constant one.
#[derive(Clone, Copy, Debug, PartialEq, Eq, Structural)]
pub enum Variable {
    /// The constant one (place 0) or a public input.
    Public(usize),
    /// A private value, known to the prover only.
    Private(usize),
}

/// One summand of a linear combination: a coefficient times a variable.
#[derive(Clone, Copy, Debug, PartialEq, Eq, Structural)]
pub struct Term {
    pub coeff: Scalar,
    pub var: Variable,
}

/// A sum of coefficients times variables. A variable that occurs in no term
/// has the coefficient zero; one that occurs twice has the sum of the two.
#[derive(Clone, Debug, PartialEq, Eq)]
pub struct LinearCombination {
    pub terms: Vec<Term>,
}

impl View for LinearCombination {
    type V = Seq<Term>;

    open spec fn view(&self) -> Seq<Term> {
        self.terms@
    }
}

impl Variable {
    /// The constant one.
    pub fn one() -> (v: Variable)
        ensures
            v == Variable::Public(0),
    {
        Variable::Public(0)
    }

    /// Whether a system with so many public and private variables has this one.
    pub open spec fn within(self, num_public: nat, num_private: nat) -> bool {
        match self {
            Variable::Public(i) => i < num_public,
            Variable::Private(j) => j < num_private,
        }
    }

    /// The column of this variable in the matrices of a system: the public
    /// variables come first, the private ones after them.
    pub open spec fn column(self, num_public: nat) -> nat {
        match self {
            Variable::Public(i) => i as nat,
            Variable::Private(j) => (num_public + j) as nat,
        }
    }

    /// The value that an assignment gives to this variable.
    pub open spec fn value(self, public: Seq<nat>, private: Seq<nat>) -> nat
        recommends
            self.within(public.len(), private.len()),
    {
        match self {
            Variable::Public(i) => public[i as int],
            Variable::Private(j) => private[j as int],
        }
    }
}

/// Whether every variable of the terms belongs to a system with so many
/// public and private variables.
pub open spec fn terms_within(terms: Seq<Term>, num_public: nat, num_private: nat) -> bool {
    forall|k: int| 0 <= k < terms.len() ==> (#[trigger] terms[k]).var.within(num_public, num_private)
}

/// The sum of coefficient times value over all terms, as a natural number.
pub open spec fn terms_sum(terms: Seq<Term>, public: Seq<nat>, private: Seq<nat>) -> nat
    decreases terms.len(),
{
    if terms.len() == 0 {
        0
    } else {
        (terms_sum(terms.drop_last(), public, private) + terms.last().coeff@
            * terms.last().var.value(public, private)) as nat
    }
}

/// The field element that a linear combination takes under an assignment:
/// the sum of its terms, reduced modulo the field order.
pub open spec fn terms_value(terms: Seq<Term>, public: Seq<nat>, private: Seq<nat>) -> nat {
    terms_sum(terms, public, private) % modulus()
}

/// Adding a term to a linear combination adds the term's product to its sum.
pub proof fn lemma_terms_sum_push(terms: Seq<Term>, t: Term, public: Seq<nat>, private: Seq<nat>)
    ensures
        terms_sum(terms.push(t), public, private) == terms_sum(terms, public, private) + t.coeff@
            * t.var.value(public, private),
{
    assert(terms.push(t).drop_last() =~= terms);
}

/// The value of the empty linear combination is zero.
pub proof fn lemma_terms_value_empty(public: Seq<nat>, private: Seq<nat>)
    ensures
        terms_value(Seq::<Term>::empty(), public, private) == 0,
{
    lemma_small_mod(0, modulus());
}

/// The value of a single term is its coefficient times the variable's value,
/// reduced modulo the field order.
pub proof fn lemma_terms_value_single(t: Term, public: Seq<nat>, private: Seq<nat>)
    ensures
        terms_value(seq![t], public, private) == (t.coeff@ * t.var.value(public, private))
            % modulus(),
{
    assert(seq![t].drop_last() =~= Seq::<Term>::empty());
    assert(terms_sum(seq![t].drop_last(), public, private) == 0);
}

/// The value of a linear combination with one more term, from the value
/// without it.
pub proof fn lemma_terms_value_push(terms: Seq<Term>, t: Term, public: Seq<nat>, private: Seq<nat>)
    ensures
        terms_value(terms.push(t), public, private) == (terms_value(terms, public, private) + (
        t.coeff@ * t.var.value(public, private)) % modulus()) % modulus(),
{
    lemma_terms_sum_push(terms, t, public, private);
    lemma_add_mod_noop(
        terms_sum(terms, public, private) as int,
        (t.coeff@ * t.var.value(public, private)) as int,
        modulus() as int,
    );
}

impl LinearCombination {
    /// The empty linear combination, whose value is zero.
    pub fn new() -> (lc: LinearCombination)
        ensures
            lc@ == Seq::<Term>::empty(),
    {
        LinearCombination { terms: Vec::new() }
    }

    /// The linear combination that is one variable.
    pub fn from_variable(var: Variable) -> (lc: LinearCombination)
        ensures
            lc@ == seq![Term { coeff: Scalar::of_value(1), var }],
    {
        let mut terms: Vec<Term> = Vec::new();
        terms.push(Term { coeff: Scalar::one(), var });
        LinearCombination { terms }
    }

    /// The linear combination that is a constant: the coefficient times the
    /// constant one.
    pub fn constant(coeff: Scalar) -> (lc: LinearCombination)
        ensures
            lc@ == seq![Term { coeff, var: Variable::Public(0) }],
    {
        let mut terms: Vec<Term> = Vec::new();
        terms.push(Term { coeff, var: Variable::Public(0) });
        LinearCombination { terms }
    }

    /// This linear combination with one more term.
    pub fn plus(self, coeff: Scalar, var: Variable) -> (lc: LinearCombination)
        ensures
            lc@ == self@.push(Term { coeff, var }),
    {
        let mut terms = self.terms;
        terms.push(Term { coeff, var });
        LinearCombination { terms }
    }

    /// The number of terms.
    pub fn len(&self) -> (n: usize)
        ensures
            n == self@.len(),
    {
        self.terms.len()
    }

    /// Whether two linear combinations have the same terms in the same order.
    pub fn same_terms(&self, other: &LinearCombination) -> (r: bool)
        ensures
            r == (self@ == other@),
    {
        if self.terms.len() != other.terms.len() {
            return false;
        }
        let n: usize = self.terms.len();
        let mut i: usize = 0;
        while i < n
            invariant
                n == self.terms.len(),
                n == other.terms.len(),
                i <= n,
                forall|k: int| 0 <= k < i ==> self@[k] == other@[k],
            decreases n - i,
        {
            if !(self.terms[i] == other.terms[i]) {
                return false;
            }
            i = i + 1;
        }
        assert(self@ =~= other@);
        true
    }

    /// A copy of this linear combination.
    pub fn duplicate(&self) -> (lc: LinearCombination)
        ensures
            lc@ == self@,
    {
        let n: usize = self.terms.len();
        let mut terms: Vec<Term> = Vec::new();
        let mut i: usize = 0;
        while i < n
            invariant
                n == self.terms.len(),
                i <= n,
                terms@ == self@.take(i as int),
            decreases n - i,
        {
            terms.push(self.terms[i]);
            assert(self@.take(i as int).push(self@[i as int]) =~= self@.take(i + 1));
            i = i + 1;
        }
        assert(self@.take(n as int) =~= self@);
        LinearCombination { terms }
    }
}

} // verus!
