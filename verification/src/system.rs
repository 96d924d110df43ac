//! Rank-1 constraint systems: variables, constraints and, when proving, the
//! assignment that the constraints are checked against.

use vstd::prelude::*;
use crate::error::Error;
use crate::field::{modulus, Scalar};
use crate::linear::{
    lemma_terms_value_empty, lemma_terms_value_push, terms_value, terms_within, LinearCombination,
    Term, Variable,
};

verus! {

/// Whether a system only records the structure of a relation, or also holds
/// the values of its variables.
#[derive(Clone, Copy, Debug, PartialEq, Eq, Structural)]
pub enum Mode {
    /// Structure only: variables have no values, and none is read.
    Structure,
    /// Every variable has a value.
    Assignment,
}

/// One constraint `(A·w) * (B·w) = (C·w)`.
#[derive(Clone, Debug, PartialEq, Eq)]
pub struct Constraint {
    pub a: LinearCombination,
    pub b: LinearCombination,
    pub c: LinearCombination,
}

/// The three linear combinations of a constraint, as sequences of terms.
pub struct ConstraintView {
    pub a: Seq<Term>,
    pub b: Seq<Term>,
    pub c: Seq<Term>,
}

impl View for Constraint {
    type V = ConstraintView;

    open spec fn view(&self) -> ConstraintView {
        ConstraintView { a: self.a@, b: self.b@, c: self.c@ }
    }
}

impl ConstraintView {
    /// Whether every variable of the constraint belongs to a system with so
    /// many public and private variables.
    pub open spec fn within(self, num_public: nat, num_private: nat) -> bool {
        &&& terms_within(self.a, num_public, num_private)
        &&& terms_within(self.b, num_public, num_private)
        &&& terms_within(self.c, num_public, num_private)
    }

    /// Whether the constraint holds of an assignment.
    pub open spec fn holds(self, public: Seq<nat>, private: Seq<nat>) -> bool {
        (terms_value(self.a, public, private) * terms_value(self.b, public, private)) % modulus()
            == terms_value(self.c, public, private)
    }
}

/// The shape of a relation: how many variables of each kind it has, and its
/// constraints in order. The constant one counts as a public variable.
pub struct Shape {
    pub num_public: nat,
    pub num_private: nat,
    pub constraints: Seq<ConstraintView>,
}

impl Shape {
    /// The invariant of a shape: the constant one is there, the variables can
    /// be counted by the machine, and every constraint speaks of variables
    /// that are there.
    pub open spec fn wf(self) -> bool {
        &&& self.num_public >= 1
        &&& self.num_public + self.num_private <= usize::MAX
        &&& forall|i: int|
            0 <= i < self.constraints.len() ==> (#[trigger] self.constraints[i]).within(
                self.num_public,
                self.num_private,
            )
    }

    /// Whether every constraint holds of an assignment.
    pub open spec fn satisfied_by(self, public: Seq<nat>, private: Seq<nat>) -> bool {
        forall|i: int|
            0 <= i < self.constraints.len() ==> (#[trigger] self.constraints[i]).holds(
                public,
                private,
            )
    }
}

/// What a constraint system is: its mode, its shape and its assignment. In
/// structure mode the assignment is empty.
pub struct SystemView {
    pub mode: Mode,
    pub shape: Shape,
    pub public: Seq<nat>,
    pub private: Seq<nat>,
}

impl SystemView {
    /// The invariant of a system.
    pub open spec fn wf(self) -> bool {
        &&& self.shape.wf()
        &&& match self.mode {
            Mode::Structure => self.public.len() == 0 && self.private.len() == 0,
            Mode::Assignment => {
                &&& self.public.len() == self.shape.num_public
                &&& self.private.len() == self.shape.num_private
                &&& self.public[0] == 1
                &&& forall|i: int| 0 <= i < self.public.len() ==> #[trigger] self.public[i] < modulus()
                &&& forall|i: int|
                    0 <= i < self.private.len() ==> #[trigger] self.private[i] < modulus()
            },
        }
    }

    /// The system that has no variable but the constant one, and no constraint.
    pub open spec fn empty(mode: Mode) -> SystemView {
        SystemView {
            mode,
            shape: Shape { num_public: 1, num_private: 0, constraints: Seq::empty() },
            public: match mode {
                Mode::Structure => Seq::empty(),
                Mode::Assignment => seq![1nat],
            },
            private: Seq::empty(),
        }
    }

    /// Whether the system has room for one more variable.
    pub open spec fn has_room(self) -> bool {
        self.shape.num_public + self.shape.num_private < usize::MAX
    }

    /// Whether a variable can be allocated with this value: in assignment
    /// mode there has to be one.
    pub open spec fn accepts(self, value: Option<nat>) -> bool {
        self.mode == Mode::Structure || value is Some
    }

    /// The system with one more public variable. In structure mode the value
    /// is not looked at.
    pub open spec fn with_public(self, value: Option<nat>) -> SystemView {
        SystemView {
            shape: Shape { num_public: self.shape.num_public + 1, ..self.shape },
            public: match self.mode {
                Mode::Structure => self.public,
                Mode::Assignment => self.public.push(value.unwrap()),
            },
            ..self
        }
    }

    /// The system with one more private variable. In structure mode the
    /// value is not looked at.
    pub open spec fn with_private(self, value: Option<nat>) -> SystemView {
        SystemView {
            shape: Shape { num_private: self.shape.num_private + 1, ..self.shape },
            private: match self.mode {
                Mode::Structure => self.private,
                Mode::Assignment => self.private.push(value.unwrap()),
            },
            ..self
        }
    }

    /// The system with one more constraint, after those it has.
    pub open spec fn with_constraint(self, c: ConstraintView) -> SystemView {
        SystemView {
            shape: Shape { constraints: self.shape.constraints.push(c), ..self.shape },
            ..self
        }
    }

    /// The same shape with no assignment.
    pub open spec fn structure(self) -> SystemView {
        SystemView {
            mode: Mode::Structure,
            shape: self.shape,
            public: Seq::empty(),
            private: Seq::empty(),
        }
    }

    /// Whether the assignment satisfies every constraint.
    pub open spec fn satisfied(self) -> bool {
        self.shape.satisfied_by(self.public, self.private)
    }

    /// What the check of the system finds: no assignment, a violated
    /// constraint, or nothing to object to.
    pub open spec fn verdict(self) -> Result<(), Error> {
        if self.mode == Mode::Structure {
            Err(Error::AssignmentMissing)
        } else if self.satisfied() {
            Ok(())
        } else {
            Err(Error::ConstraintUnsatisfied)
        }
    }

    /// The values of the public inputs, without the constant one.
    pub open spec fn public_inputs(self) -> Seq<nat> {
        self.public.subrange(1, self.public.len() as int)
    }

    /// The full assignment: the public values, then the private ones.
    pub open spec fn assignment(self) -> Seq<nat> {
        self.public + self.private
    }
}

/// The number that a scalar stands for, if there is a scalar.
pub open spec fn option_value(value: Option<Scalar>) -> Option<nat> {
    match value {
        Some(x) => Some(x@),
        None => None,
    }
}

/// The numbers that a sequence of scalars stands for.
pub open spec fn scalar_values(s: Seq<Scalar>) -> Seq<nat> {
    s.map_values(|x: Scalar| x@)
}

/// The views of a sequence of constraints.
pub open spec fn constraint_views(s: Seq<Constraint>) -> Seq<ConstraintView> {
    s.map_values(|c: Constraint| c@)
}

/// The numbers of a sequence of scalars with one more scalar.
pub proof fn lemma_scalar_values_push(s: Seq<Scalar>, x: Scalar)
    ensures
        scalar_values(s.push(x)) == scalar_values(s).push(x@),
{
    assert(scalar_values(s.push(x)) =~= scalar_values(s).push(x@));
}

/// The views of a sequence of constraints with one more constraint.
pub proof fn lemma_constraint_views_push(s: Seq<Constraint>, c: Constraint)
    ensures
        constraint_views(s.push(c)) == constraint_views(s).push(c@),
{
    assert(constraint_views(s.push(c)) =~= constraint_views(s).push(c@));
}

/// A rank-1 constraint system.
///
/// Variables are allocated one by one; each constraint speaks of variables
/// allocated before it. Nothing is evaluated when a constraint is added: the
/// assignment is held against the constraints by [`ConstraintSystem::check`].
#[derive(Clone, Debug)]
pub struct ConstraintSystem {
    mode: Mode,
    num_public: usize,
    num_private: usize,
    constraints: Vec<Constraint>,
    public: Vec<Scalar>,
    private: Vec<Scalar>,
}

impl View for ConstraintSystem {
    type V = SystemView;

    closed spec fn view(&self) -> SystemView {
        SystemView {
            mode: self.mode,
            shape: Shape {
                num_public: self.num_public as nat,
                num_private: self.num_private as nat,
                constraints: constraint_views(self.constraints@),
            },
            public: scalar_values(self.public@),
            private: scalar_values(self.private@),
        }
    }
}

impl ConstraintSystem {
    /// The invariant of the type, stated of its view.
    pub open spec fn wf(&self) -> bool {
        self@.wf()
    }

    /// A system with the constant one and nothing else.
    pub fn new(mode: Mode) -> (cs: ConstraintSystem)
        ensures
            cs.wf(),
            cs@ == SystemView::empty(mode),
    {
        let mut public: Vec<Scalar> = Vec::new();
        match mode {
            Mode::Structure => {},
            Mode::Assignment => {
                public.push(Scalar::one());
            },
        }
        let cs = ConstraintSystem {
            mode,
            num_public: 1,
            num_private: 0,
            constraints: Vec::new(),
            public,
            private: Vec::new(),
        };
        assert(cs@.shape.constraints =~= Seq::empty());
        assert(cs@.public =~= SystemView::empty(mode).public);
        assert(cs@.private =~= Seq::empty());
        cs
    }

    /// The mode of the system.
    pub fn mode(&self) -> (m: Mode)
        ensures
            m == self@.mode,
    {
        self.mode
    }

    /// The number of public variables, the constant one included.
    pub fn num_public(&self) -> (n: usize)
        ensures
            n == self@.shape.num_public,
    {
        self.num_public
    }

    /// The number of private variables.
    pub fn num_private(&self) -> (n: usize)
        ensures
            n == self@.shape.num_private,
    {
        self.num_private
    }

    /// The number of constraints.
    pub fn num_constraints(&self) -> (n: usize)
        ensures
            n == self@.shape.constraints.len(),
    {
        self.constraints.len()
    }

    /// The constraints, in the order in which they were added.
    pub fn constraints(&self) -> (cs: &Vec<Constraint>)
        ensures
            constraint_views(cs@) == self@.shape.constraints,
    {
        &self.constraints
    }

    /// Allocates a public input, after those allocated before.
    ///
    /// In assignment mode a value is needed; in structure mode it is not
    /// looked at. Where the call fails the system is as it was.
    pub fn allocate_public(&mut self, value: Option<Scalar>) -> (r: Result<Variable, Error>)
        requires
            old(self).wf(),
        ensures
            final(self).wf(),
            !old(self)@.accepts(option_value(value)) ==> r == Err::<Variable, Error>(Error::AssignmentMissing),
            old(self)@.accepts(option_value(value)) && !old(self)@.has_room() ==> r == Err::<Variable, Error>(
                Error::DomainTooLarge,
            ),
            old(self)@.accepts(option_value(value)) && old(self)@.has_room() ==> r == Ok::<Variable, Error>(
                Variable::Public(old(self)@.shape.num_public as usize),
            ),
            r is Ok ==> final(self)@ == old(self)@.with_public(option_value(value)),
            r is Err ==> final(self)@ == old(self)@,
    {
        match self.mode {
            Mode::Structure => {},
            Mode::Assignment => {
                if value.is_none() {
                    return Err(Error::AssignmentMissing);
                }
            },
        }
        if self.num_private >= usize::MAX - self.num_public {
            return Err(Error::DomainTooLarge);
        }
        let index: usize = self.num_public;
        match self.mode {
            Mode::Structure => {},
            Mode::Assignment => {
                let v: Scalar = value.unwrap();
                proof {
                    use_type_invariant(&v);
                }
                self.public.push(v);
            },
        }
        self.num_public = index + 1;
        proof {
            let before = old(self)@;
            let after = self@;
            assert(after.public =~= before.with_public(option_value(value)).public);
            assert(after.private =~= before.private);
            assert(after.shape.constraints =~= before.shape.constraints);
            assert forall|i: int| 0 <= i < after.shape.constraints.len() implies (
            #[trigger] after.shape.constraints[i]).within(
                after.shape.num_public,
                after.shape.num_private,
            ) by {
                assert(before.shape.constraints[i].within(
                    before.shape.num_public,
                    before.shape.num_private,
                ));
            }
        }
        Ok(Variable::Public(index))
    }

    /// Allocates a private variable, after those allocated before.
    ///
    /// In assignment mode a value is needed; in structure mode it is not
    /// looked at. Where the call fails the system is as it was.
    pub fn allocate_private(&mut self, value: Option<Scalar>) -> (r: Result<Variable, Error>)
        requires
            old(self).wf(),
        ensures
            final(self).wf(),
            !old(self)@.accepts(option_value(value)) ==> r == Err::<Variable, Error>(Error::AssignmentMissing),
            old(self)@.accepts(option_value(value)) && !old(self)@.has_room() ==> r == Err::<Variable, Error>(
                Error::DomainTooLarge,
            ),
            old(self)@.accepts(option_value(value)) && old(self)@.has_room() ==> r == Ok::<Variable, Error>(
                Variable::Private(old(self)@.shape.num_private as usize),
            ),
            r is Ok ==> final(self)@ == old(self)@.with_private(option_value(value)),
            r is Err ==> final(self)@ == old(self)@,
    {
        match self.mode {
            Mode::Structure => {},
            Mode::Assignment => {
                if value.is_none() {
                    return Err(Error::AssignmentMissing);
                }
            },
        }
        if self.num_private >= usize::MAX - self.num_public {
            return Err(Error::DomainTooLarge);
        }
        let index: usize = self.num_private;
        match self.mode {
            Mode::Structure => {},
            Mode::Assignment => {
                let v: Scalar = value.unwrap();
                proof {
                    use_type_invariant(&v);
                }
                self.private.push(v);
            },
        }
        self.num_private = index + 1;
        proof {
            let before = old(self)@;
            let after = self@;
            assert(after.private =~= before.with_private(option_value(value)).private);
            assert(after.public =~= before.public);
            assert(after.shape.constraints =~= before.shape.constraints);
            assert forall|i: int| 0 <= i < after.shape.constraints.len() implies (
            #[trigger] after.shape.constraints[i]).within(
                after.shape.num_public,
                after.shape.num_private,
            ) by {
                assert(before.shape.constraints[i].within(
                    before.shape.num_public,
                    before.shape.num_private,
                ));
            }
        }
        Ok(Variable::Private(index))
    }

    /// Whether every variable of a linear combination has been allocated in
    /// this system.
    pub fn admits(&self, lc: &LinearCombination) -> (r: bool)
        ensures
            r == terms_within(lc@, self@.shape.num_public, self@.shape.num_private),
    {
        let n: usize = lc.terms.len();
        let mut i: usize = 0;
        while i < n
            invariant
                n == lc.terms.len(),
                i <= n,
                forall|k: int|
                    0 <= k < i ==> (#[trigger] lc@[k]).var.within(
                        self.num_public as nat,
                        self.num_private as nat,
                    ),
            decreases n - i,
        {
            let known: bool = match lc.terms[i].var {
                Variable::Public(p) => p < self.num_public,
                Variable::Private(q) => q < self.num_private,
            };
            if !known {
                return false;
            }
            i = i + 1;
        }
        true
    }

    /// Adds the constraint `a * b = c` after those added before. Nothing is
    /// evaluated.
    pub fn enforce(&mut self, a: LinearCombination, b: LinearCombination, c: LinearCombination)
        requires
            old(self).wf(),
            (ConstraintView { a: a@, b: b@, c: c@ }).within(
                old(self)@.shape.num_public,
                old(self)@.shape.num_private,
            ),
        ensures
            final(self).wf(),
            final(self)@ == old(self)@.with_constraint(ConstraintView { a: a@, b: b@, c: c@ }),
    {
        let ghost added = ConstraintView { a: a@, b: b@, c: c@ };
        self.constraints.push(Constraint { a, b, c });
        proof {
            let before = old(self)@;
            let after = self@;
            assert(after.shape.constraints =~= before.shape.constraints.push(added));
            assert(after.public =~= before.public);
            assert(after.private =~= before.private);
            assert forall|i: int| 0 <= i < after.shape.constraints.len() implies (
            #[trigger] after.shape.constraints[i]).within(
                after.shape.num_public,
                after.shape.num_private,
            ) by {
                if i < before.shape.constraints.len() {
                    assert(before.shape.constraints[i].within(
                        before.shape.num_public,
                        before.shape.num_private,
                    ));
                }
            }
        }
    }

    /// The value that the assignment gives to a variable.
    pub fn value_of(&self, var: Variable) -> (r: Scalar)
        requires
            self.wf(),
            self@.mode == Mode::Assignment,
            var.within(self@.shape.num_public, self@.shape.num_private),
        ensures
            r@ == var.value(self@.public, self@.private),
    {
        match var {
            Variable::Public(i) => self.public[i],
            Variable::Private(j) => self.private[j],
        }
    }

    /// The value that a linear combination takes under the assignment.
    pub fn evaluate(&self, lc: &LinearCombination) -> (r: Scalar)
        requires
            self.wf(),
            self@.mode == Mode::Assignment,
            terms_within(lc@, self@.shape.num_public, self@.shape.num_private),
        ensures
            r@ == terms_value(lc@, self@.public, self@.private),
    {
        let n: usize = lc.terms.len();
        let mut acc: Scalar = Scalar::zero();
        let mut i: usize = 0;
        proof {
            lemma_terms_value_empty(self@.public, self@.private);
            assert(lc@.take(0) =~= Seq::<Term>::empty());
        }
        while i < n
            invariant
                self.wf(),
                self@.mode == Mode::Assignment,
                terms_within(lc@, self@.shape.num_public, self@.shape.num_private),
                n == lc.terms.len(),
                i <= n,
                acc@ == terms_value(lc@.take(i as int), self@.public, self@.private),
            decreases n - i,
        {
            let term: Term = lc.terms[i];
            assert(lc@[i as int].var.within(self@.shape.num_public, self@.shape.num_private));
            let value: Scalar = self.value_of(term.var);
            let product: Scalar = term.coeff.mul(&value);
            acc = acc.add(&product);
            proof {
                lemma_terms_value_push(lc@.take(i as int), term, self@.public, self@.private);
                assert(lc@.take(i as int).push(term) =~= lc@.take(i + 1));
            }
            i = i + 1;
        }
        assert(lc@.take(n as int) =~= lc@);
        acc
    }

    /// Whether the assignment satisfies one constraint of the system.
    pub fn holds_at(&self, index: usize) -> (r: bool)
        requires
            self.wf(),
            self@.mode == Mode::Assignment,
            index < self@.shape.constraints.len(),
        ensures
            r == self@.shape.constraints[index as int].holds(self@.public, self@.private),
    {
        let constraint: &Constraint = &self.constraints[index];
        assert(self@.shape.constraints[index as int] == constraint@);
        assert(self@.shape.constraints[index as int].within(
            self@.shape.num_public,
            self@.shape.num_private,
        ));
        let a: Scalar = self.evaluate(&constraint.a);
        let b: Scalar = self.evaluate(&constraint.b);
        let c: Scalar = self.evaluate(&constraint.c);
        a.mul(&b).equals(&c)
    }

    /// The first constraint that the assignment violates, if there is one.
    pub fn first_unsatisfied(&self) -> (r: Option<usize>)
        requires
            self.wf(),
            self@.mode == Mode::Assignment,
        ensures
            r is None <==> self@.satisfied(),
            r matches Some(i) ==> {
                &&& i < self@.shape.constraints.len()
                &&& !self@.shape.constraints[i as int].holds(self@.public, self@.private)
                &&& forall|j: int|
                    0 <= j < i ==> (#[trigger] self@.shape.constraints[j]).holds(
                        self@.public,
                        self@.private,
                    )
            },
    {
        let n: usize = self.constraints.len();
        let mut i: usize = 0;
        while i < n
            invariant
                self.wf(),
                self@.mode == Mode::Assignment,
                n == self@.shape.constraints.len(),
                i <= n,
                forall|j: int|
                    0 <= j < i ==> (#[trigger] self@.shape.constraints[j]).holds(
                        self@.public,
                        self@.private,
                    ),
            decreases n - i,
        {
            if !self.holds_at(i) {
                return Some(i);
            }
            i = i + 1;
        }
        None
    }

    /// Whether two systems have the same shape: as many variables of each
    /// kind, and the same constraints, term for term, in the same order.
    pub fn same_shape(&self, other: &ConstraintSystem) -> (r: bool)
        ensures
            r == (self@.shape == other@.shape),
    {
        if self.num_public != other.num_public || self.num_private != other.num_private
            || self.constraints.len() != other.constraints.len() {
            assert(self@.shape.constraints.len() == self.constraints.len());
            assert(other@.shape.constraints.len() == other.constraints.len());
            return false;
        }
        let n: usize = self.constraints.len();
        let mut i: usize = 0;
        while i < n
            invariant
                n == self.constraints.len(),
                n == other.constraints.len(),
                i <= n,
                forall|k: int|
                    0 <= k < i ==> self@.shape.constraints[k] == other@.shape.constraints[k],
            decreases n - i,
        {
            let mine: &Constraint = &self.constraints[i];
            let theirs: &Constraint = &other.constraints[i];
            assert(self@.shape.constraints[i as int] == mine@);
            assert(other@.shape.constraints[i as int] == theirs@);
            if !(mine.a.same_terms(&theirs.a) && mine.b.same_terms(&theirs.b) && mine.c.same_terms(
                &theirs.c,
            )) {
                return false;
            }
            i = i + 1;
        }
        assert(self@.shape.constraints =~= other@.shape.constraints);
        true
    }

    /// The same relation with no assignment: what a setup is run on.
    pub fn structure(&self) -> (cs: ConstraintSystem)
        requires
            self.wf(),
        ensures
            cs.wf(),
            cs@ == self@.structure(),
    {
        let n: usize = self.constraints.len();
        let mut constraints: Vec<Constraint> = Vec::new();
        let mut i: usize = 0;
        while i < n
            invariant
                n == self.constraints.len(),
                i <= n,
                constraint_views(constraints@) == self@.shape.constraints.take(i as int),
            decreases n - i,
        {
            let source: &Constraint = &self.constraints[i];
            let copy = Constraint {
                a: source.a.duplicate(),
                b: source.b.duplicate(),
                c: source.c.duplicate(),
            };
            assert(copy@ == self@.shape.constraints[i as int]);
            proof {
                lemma_constraint_views_push(constraints@, copy);
                assert(self@.shape.constraints.take(i as int).push(copy@)
                    =~= self@.shape.constraints.take(i + 1));
            }
            constraints.push(copy);
            i = i + 1;
        }
        assert(self@.shape.constraints.take(n as int) =~= self@.shape.constraints);
        let cs = ConstraintSystem {
            mode: Mode::Structure,
            num_public: self.num_public,
            num_private: self.num_private,
            constraints,
            public: Vec::new(),
            private: Vec::new(),
        };
        assert(cs@.public =~= Seq::empty());
        assert(cs@.private =~= Seq::empty());
        cs
    }

    /// The values of the public inputs in the order of their allocation,
    /// without the constant one: what a verifier is given.
    pub fn public_inputs(&self) -> (values: Vec<Scalar>)
        requires
            self.wf(),
            self@.mode == Mode::Assignment,
        ensures
            scalar_values(values@) == self@.public_inputs(),
    {
        let n: usize = self.public.len();
        let mut values: Vec<Scalar> = Vec::new();
        let mut i: usize = 1;
        while i < n
            invariant
                n == self.public.len(),
                1 <= i <= n,
                scalar_values(values@) == self@.public.subrange(1, i as int),
            decreases n - i,
        {
            proof {
                lemma_scalar_values_push(values@, self.public[i as int]);
                assert(self@.public.subrange(1, i as int).push(self.public[i as int]@)
                    =~= self@.public.subrange(1, i + 1));
            }
            values.push(self.public[i]);
            i = i + 1;
        }
        values
    }

    /// The full assignment: the public values, the constant one first, then
    /// the private ones. Empty in structure mode.
    pub fn assignment(&self) -> (values: Vec<Scalar>)
        requires
            self.wf(),
        ensures
            scalar_values(values@) == self@.assignment(),
    {
        let mut values: Vec<Scalar> = Vec::new();
        let n: usize = self.public.len();
        let mut i: usize = 0;
        while i < n
            invariant
                n == self.public.len(),
                i <= n,
                scalar_values(values@) == self@.public.take(i as int),
            decreases n - i,
        {
            proof {
                lemma_scalar_values_push(values@, self.public[i as int]);
                assert(self@.public.take(i as int).push(self.public[i as int]@)
                    =~= self@.public.take(i + 1));
            }
            values.push(self.public[i]);
            i = i + 1;
        }
        assert(self@.public.take(n as int) =~= self@.public);
        let m: usize = self.private.len();
        let mut j: usize = 0;
        while j < m
            invariant
                m == self.private.len(),
                j <= m,
                scalar_values(values@) == self@.public + self@.private.take(j as int),
            decreases m - j,
        {
            proof {
                lemma_scalar_values_push(values@, self.private[j as int]);
                assert((self@.public + self@.private.take(j as int)).push(self.private[j as int]@)
                    =~= self@.public + self@.private.take(j + 1));
            }
            values.push(self.private[j]);
            j = j + 1;
        }
        assert(self@.private.take(m as int) =~= self@.private);
        values
    }

    /// Holds the assignment against every constraint.
    ///
    /// A system without an assignment gives `AssignmentMissing`; one whose
    /// assignment violates some constraint gives `ConstraintUnsatisfied`.
    pub fn check(&self) -> (r: Result<(), Error>)
        requires
            self.wf(),
        ensures
            r == self@.verdict(),
    {
        match self.mode {
            Mode::Structure => Err(Error::AssignmentMissing),
            Mode::Assignment => match self.first_unsatisfied() {
                None => Ok(()),
                Some(_) => Err(Error::ConstraintUnsatisfied),
            },
        }
    }
}

} // verus!
