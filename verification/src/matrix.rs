//! The three sparse matrices that the constraints of a system define.
//!
//! Row `i` of the matrix `A` holds the non-zero coefficients of the first
//! linear combination of constraint `i`, each with the column of its
//! variable; `B` and `C` hold those of the second and the third.

use vstd::prelude::*;
use crate::error::Error;
use crate::field::Scalar;
use crate::linear::{terms_within, LinearCombination, Term, Variable};
use crate::system::{constraint_views, Constraint, ConstraintSystem, ConstraintView, Shape};

verus! {

/// One entry of a sparse row: a coefficient and the column it stands in.
#[derive(Clone, Copy, Debug, PartialEq, Eq, Structural)]
pub struct Entry {
    pub coeff: Scalar,
    pub column: usize,
}

impl View for Entry {
    type V = (nat, nat);

    open spec fn view(&self) -> (nat, nat) {
        (self.coeff@, self.column as nat)
    }
}

/// A sparse row as pairs of coefficient and column.
pub open spec fn row_view(row: Seq<Entry>) -> Seq<(nat, nat)> {
    row.map_values(|e: Entry| e@)
}

/// A sparse matrix as rows of pairs of coefficient and column.
pub open spec fn rows_view(rows: Seq<Vec<Entry>>) -> Seq<Seq<(nat, nat)>> {
    rows.map_values(|r: Vec<Entry>| row_view(r@))
}

/// The row of a linear combination: its terms in order, those with the
/// coefficient zero left out.
pub open spec fn terms_row(terms: Seq<Term>, num_public: nat) -> Seq<(nat, nat)>
    decreases terms.len(),
{
    if terms.len() == 0 {
        Seq::empty()
    } else {
        let rest = terms_row(terms.drop_last(), num_public);
        let last = terms.last();
        if last.coeff@ == 0 {
            rest
        } else {
            rest.push((last.coeff@, last.var.column(num_public)))
        }
    }
}

/// The number of entries of a sparse matrix.
pub open spec fn total_entries(rows: Seq<Seq<(nat, nat)>>) -> nat
    decreases rows.len(),
{
    if rows.len() == 0 {
        0
    } else {
        total_entries(rows.drop_last()) + rows.last().len()
    }
}

/// The matrices of a relation, as plain values.
pub struct MatricesView {
    pub num_public: nat,
    pub num_private: nat,
    pub a: Seq<Seq<(nat, nat)>>,
    pub b: Seq<Seq<(nat, nat)>>,
    pub c: Seq<Seq<(nat, nat)>>,
}

impl MatricesView {
    /// Whether every entry stands in a column below `width`.
    pub open spec fn columns_below(self, width: nat) -> bool {
        &&& rows_below(self.a, width)
        &&& rows_below(self.b, width)
        &&& rows_below(self.c, width)
    }
}

/// Whether every entry of a sparse matrix stands in a column below `width`.
pub open spec fn rows_below(rows: Seq<Seq<(nat, nat)>>, width: nat) -> bool {
    forall|i: int, k: int|
        0 <= i < rows.len() && 0 <= k < rows[i].len() ==> (#[trigger] rows[i][k]).1 < width
}

/// The matrices that a shape defines.
pub open spec fn shape_matrices(shape: Shape) -> MatricesView {
    MatricesView {
        num_public: shape.num_public,
        num_private: shape.num_private,
        a: shape.constraints.map_values(|c: ConstraintView| terms_row(c.a, shape.num_public)),
        b: shape.constraints.map_values(|c: ConstraintView| terms_row(c.b, shape.num_public)),
        c: shape.constraints.map_values(|c: ConstraintView| terms_row(c.c, shape.num_public)),
    }
}

/// The matrices of a constraint system, with the number of entries of each.
#[derive(Clone, Debug)]
pub struct Matrices {
    pub num_public: usize,
    pub num_private: usize,
    pub a: Vec<Vec<Entry>>,
    pub b: Vec<Vec<Entry>>,
    pub c: Vec<Vec<Entry>>,
    pub a_entries: usize,
    pub b_entries: usize,
    pub c_entries: usize,
}

impl View for Matrices {
    type V = MatricesView;

    open spec fn view(&self) -> MatricesView {
        MatricesView {
            num_public: self.num_public as nat,
            num_private: self.num_private as nat,
            a: rows_view(self.a@),
            b: rows_view(self.b@),
            c: rows_view(self.c@),
        }
    }
}

impl Matrices {
    /// The invariant of the type: the three counts are the numbers of
    /// entries, the matrices have as many rows as each other, and every
    /// entry stands in the column of a variable.
    pub open spec fn wf(&self) -> bool {
        &&& self.num_public >= 1
        &&& self.num_public + self.num_private <= usize::MAX
        &&& self.a.len() == self.b.len()
        &&& self.a.len() == self.c.len()
        &&& self.a_entries == total_entries(self@.a)
        &&& self.b_entries == total_entries(self@.b)
        &&& self.c_entries == total_entries(self@.c)
        &&& self@.columns_below((self.num_public + self.num_private) as nat)
    }
}

/// The row of a linear combination with one more term.
pub proof fn lemma_terms_row_push(terms: Seq<Term>, t: Term, num_public: nat)
    ensures
        terms_row(terms.push(t), num_public) == if t.coeff@ == 0 {
            terms_row(terms, num_public)
        } else {
            terms_row(terms, num_public).push((t.coeff@, t.var.column(num_public)))
        },
{
    assert(terms.push(t).drop_last() =~= terms);
}

/// The number of entries of a matrix with one more row.
pub proof fn lemma_total_entries_push(rows: Seq<Seq<(nat, nat)>>, row: Seq<(nat, nat)>)
    ensures
        total_entries(rows.push(row)) == total_entries(rows) + row.len(),
{
    assert(rows.push(row).drop_last() =~= rows);
}

/// Every entry of the row of a linear combination stands in the column of
/// one of its variables.
pub proof fn lemma_terms_row_columns(terms: Seq<Term>, num_public: nat, num_private: nat)
    requires
        terms_within(terms, num_public, num_private),
    ensures
        forall|k: int|
            0 <= k < terms_row(terms, num_public).len() ==> (#[trigger] terms_row(
                terms,
                num_public,
            )[k]).1 < num_public + num_private,
    decreases terms.len(),
{
    if terms.len() > 0 {
        assert(terms_within(terms.drop_last(), num_public, num_private)) by {
            assert forall|k: int| 0 <= k < terms.drop_last().len() implies (
            #[trigger] terms.drop_last()[k]).var.within(num_public, num_private) by {
                assert(terms[k].var.within(num_public, num_private));
            }
        }
        lemma_terms_row_columns(terms.drop_last(), num_public, num_private);
        assert(terms.last().var.within(num_public, num_private));
        let rest = terms_row(terms.drop_last(), num_public);
        let row = terms_row(terms, num_public);
        assert forall|k: int| 0 <= k < row.len() implies (#[trigger] row[k]).1 < num_public
            + num_private by {
            if k < rest.len() {
                assert(row[k] == rest[k]);
            }
        }
    }
}

/// The sparse row of a linear combination in a system with `num_public`
/// public and `num_private` private variables.
pub fn export_row(lc: &LinearCombination, num_public: usize, num_private: usize) -> (row: Vec<
    Entry,
>)
    requires
        terms_within(lc@, num_public as nat, num_private as nat),
        num_public + num_private <= usize::MAX,
    ensures
        row_view(row@) == terms_row(lc@, num_public as nat),
{
    let n: usize = lc.terms.len();
    let mut row: Vec<Entry> = Vec::new();
    let mut i: usize = 0;
    assert(lc@.take(0) =~= Seq::<Term>::empty());
    assert(row_view(row@) =~= Seq::empty());
    while i < n
        invariant
            terms_within(lc@, num_public as nat, num_private as nat),
            num_public + num_private <= usize::MAX,
            n == lc.terms.len(),
            i <= n,
            row_view(row@) == terms_row(lc@.take(i as int), num_public as nat),
        decreases n - i,
    {
        let term: Term = lc.terms[i];
        assert(lc@[i as int].var.within(num_public as nat, num_private as nat));
        proof {
            lemma_terms_row_push(lc@.take(i as int), term, num_public as nat);
            assert(lc@.take(i as int).push(term) =~= lc@.take(i + 1));
        }
        if !term.coeff.is_zero() {
            let column: usize = match term.var {
                Variable::Public(p) => p,
                Variable::Private(q) => num_public + q,
            };
            let entry = Entry { coeff: term.coeff, column };
            assert(row_view(row@.push(entry)) =~= row_view(row@).push(entry@));
            row.push(entry);
        }
        i = i + 1;
    }
    assert(lc@.take(n as int) =~= lc@);
    row
}

impl ConstraintSystem {
    /// The matrices that the constraints of the system define.
    ///
    /// Fails with `DomainTooLarge` where one of the matrices has more
    /// entries than the machine can count.
    pub fn matrices(&self) -> (r: Result<Matrices, Error>)
        requires
            self.wf(),
        ensures
            match r {
                Ok(m) => m.wf() && m@ == shape_matrices(self@.shape),
                Err(e) => e == Error::DomainTooLarge && (total_entries(shape_matrices(self@.shape).a)
                    > usize::MAX || total_entries(shape_matrices(self@.shape).b) > usize::MAX
                    || total_entries(shape_matrices(self@.shape).c) > usize::MAX),
            },
    {
        let num_public: usize = self.num_public();
        let num_private: usize = self.num_private();
        let constraints: &Vec<Constraint> = self.constraints();
        let n: usize = constraints.len();
        let ghost shape = self@.shape;
        let ghost target = shape_matrices(shape);
        let ghost width = (num_public + num_private) as nat;
        let mut a: Vec<Vec<Entry>> = Vec::new();
        let mut b: Vec<Vec<Entry>> = Vec::new();
        let mut c: Vec<Vec<Entry>> = Vec::new();
        let mut a_entries: usize = 0;
        let mut b_entries: usize = 0;
        let mut c_entries: usize = 0;
        let mut i: usize = 0;
        assert(rows_view(a@) =~= target.a.take(0));
        assert(rows_view(b@) =~= target.b.take(0));
        assert(rows_view(c@) =~= target.c.take(0));
        while i < n
            invariant
                shape.wf(),
                shape == self@.shape,
                target == shape_matrices(shape),
                constraint_views(constraints@) == shape.constraints,
                num_public == shape.num_public,
                num_private == shape.num_private,
                width == num_public + num_private,
                n == constraints.len(),
                i <= n,
                rows_view(a@) == target.a.take(i as int),
                rows_view(b@) == target.b.take(i as int),
                rows_view(c@) == target.c.take(i as int),
                a_entries == total_entries(rows_view(a@)),
                b_entries == total_entries(rows_view(b@)),
                c_entries == total_entries(rows_view(c@)),
                rows_below(rows_view(a@), width),
                rows_below(rows_view(b@), width),
                rows_below(rows_view(c@), width),
            decreases n - i,
        {
            let constraint: &Constraint = &constraints[i];
            assert(shape.constraints[i as int] == constraint@);
            assert(shape.constraints[i as int].within(shape.num_public, shape.num_private));
            let row_a: Vec<Entry> = export_row(&constraint.a, num_public, num_private);
            let row_b: Vec<Entry> = export_row(&constraint.b, num_public, num_private);
            let row_c: Vec<Entry> = export_row(&constraint.c, num_public, num_private);
            proof {
                lemma_terms_row_columns(constraint.a@, shape.num_public, shape.num_private);
                lemma_terms_row_columns(constraint.b@, shape.num_public, shape.num_private);
                lemma_terms_row_columns(constraint.c@, shape.num_public, shape.num_private);
                lemma_grow(target.a, rows_view(a@), row_view(row_a@), i as int, width);
                lemma_grow(target.b, rows_view(b@), row_view(row_b@), i as int, width);
                lemma_grow(target.c, rows_view(c@), row_view(row_c@), i as int, width);
                assert(rows_view(a@.push(row_a)) =~= rows_view(a@).push(row_view(row_a@)));
                assert(rows_view(b@.push(row_b)) =~= rows_view(b@).push(row_view(row_b@)));
                assert(rows_view(c@.push(row_c)) =~= rows_view(c@).push(row_view(row_c@)));
                lemma_total_entries_prefix(target.a, i + 1);
                lemma_total_entries_prefix(target.b, i + 1);
                lemma_total_entries_prefix(target.c, i + 1);
            }
            if row_a.len() > usize::MAX - a_entries || row_b.len() > usize::MAX - b_entries
                || row_c.len() > usize::MAX - c_entries {
                return Err(Error::DomainTooLarge);
            }
            a_entries = a_entries + row_a.len();
            b_entries = b_entries + row_b.len();
            c_entries = c_entries + row_c.len();
            a.push(row_a);
            b.push(row_b);
            c.push(row_c);
            i = i + 1;
        }
        assert(target.a.take(n as int) =~= target.a);
        assert(target.b.take(n as int) =~= target.b);
        assert(target.c.take(n as int) =~= target.c);
        Ok(Matrices { num_public, num_private, a, b, c, a_entries, b_entries, c_entries })
    }
}

/// A prefix of a matrix, grown by its next row: the longer prefix, the count
/// of its entries, and the columns of its entries.
proof fn lemma_grow(
    target: Seq<Seq<(nat, nat)>>,
    done: Seq<Seq<(nat, nat)>>,
    row: Seq<(nat, nat)>,
    i: int,
    width: nat,
)
    requires
        0 <= i < target.len(),
        done == target.take(i),
        row == target[i],
        rows_below(done, width),
        forall|k: int| 0 <= k < row.len() ==> (#[trigger] row[k]).1 < width,
    ensures
        done.push(row) == target.take(i + 1),
        total_entries(done.push(row)) == total_entries(done) + row.len(),
        rows_below(done.push(row), width),
{
    assert(done.push(row) =~= target.take(i + 1));
    lemma_total_entries_push(done, row);
    assert forall|r: int, k: int|
        0 <= r < done.push(row).len() && 0 <= k < done.push(row)[r].len() implies (
    #[trigger] done.push(row)[r][k]).1 < width by {
        if r < done.len() {
            assert(done[r][k].1 < width);
        }
    }
}

/// A prefix of a matrix has no more entries than the matrix.
pub proof fn lemma_total_entries_prefix(rows: Seq<Seq<(nat, nat)>>, i: int)
    requires
        0 <= i <= rows.len(),
    ensures
        total_entries(rows.take(i)) <= total_entries(rows),
    decreases rows.len() - i,
{
    if i < rows.len() {
        lemma_total_entries_prefix(rows, i + 1);
        assert(rows.take(i + 1).drop_last() =~= rows.take(i));
    } else {
        assert(rows.take(i) =~= rows);
    }
}

} // verus!
