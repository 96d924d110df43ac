//! Groth16 keys and proofs, proving and verification.
//!
//! Keys and proofs are held in their canonical compressed encoding. A proving
//! key carries the shape of the relation it was made for, and proves only
//! for that shape. The cryptography is done by `ark_groth16` on the curve
//! BLS12-381.

use vstd::prelude::*;
use ark_bls12_381::{Bls12_381, Fr};
use ark_ff::BigInt;
use ark_groth16::{prepare_verifying_key, Groth16};
use ark_relations::r1cs::ConstraintMatrices;
use ark_serialize::{CanonicalDeserialize, CanonicalSerialize};
use crate::domain::{domain_points, domain_size, lemma_domain_points, MAX_DOMAIN_POINTS};
use crate::error::Error;
use crate::field::{modulus, Scalar};
use crate::matrix::{
    rows_below, rows_view, shape_matrices, total_entries, Entry, Matrices, MatricesView,
};
use crate::system::{scalar_values, ConstraintSystem, Mode, Shape, SystemView};

verus! {

/// The lengths of the vectors of group elements that a proving key holds.
#[derive(Clone, Copy, Debug, PartialEq, Eq, Structural)]
pub struct KeyLayout {
    pub a_query: usize,
    pub b_g1_query: usize,
    pub b_g2_query: usize,
    pub h_query: usize,
    pub l_query: usize,
    pub gamma_abc: usize,
}

/// The layout of the proving key that `bytes` decode to, if they decode to
/// one. Stands for what `ark_groth16`'s decoder finds.
pub uninterp spec fn decoded_layout(bytes: Seq<u8>) -> Option<KeyLayout>;

/// The number of public terms (`gamma_abc_g1`) of the verifying key that
/// `bytes` decode to, if they decode to one.
pub uninterp spec fn decoded_terms(bytes: Seq<u8>) -> Option<usize>;

/// The encoding of the verifying key that a proving key holds, for bytes
/// that decode to a proving key.
pub uninterp spec fn embedded_verifying_key(key: Seq<u8>) -> Seq<u8>;

/// Whether `bytes` decode to a proof: three points of the curve's groups.
pub uninterp spec fn proof_decodes(bytes: Seq<u8>) -> bool;

/// A sparse matrix over the scalar field in the form that `ark_relations`
/// takes: rows of pairs of a field element and a column.
#[verifier::external_body]
pub struct FieldMatrix {
    rows: Vec<Vec<(Fr, usize)>>,
}

/// A vector of field elements in the form that `ark_groth16` takes.
#[verifier::external_body]
pub struct FieldVector {
    values: Vec<Fr>,
}

/// The rows that a [`FieldMatrix`] holds, each field element as its
/// canonical representative.
pub uninterp spec fn matrix_rows(m: FieldMatrix) -> Seq<Seq<(nat, nat)>>;

/// The field elements that a [`FieldVector`] holds, each as its canonical
/// representative.
pub uninterp spec fn vector_values(v: FieldVector) -> Seq<nat>;

/// The encoding of the proof that `ark_groth16` computes from a proving key,
/// the matrices of a relation, a full assignment and the two blinding
/// scalars, or `None` where it reports that the domain is too large.
pub uninterp spec fn groth16_proof(
    key: Seq<u8>,
    matrices: MatricesView,
    assignment: Seq<nat>,
    r: nat,
    s: nat,
) -> Option<Seq<u8>>;

/// What `ark_groth16`'s pairing check finds for a verifying key, public
/// inputs and a proof, or `None` where it reports an error.
pub uninterp spec fn groth16_verdict(key: Seq<u8>, inputs: Seq<nat>, proof: Seq<u8>) -> Option<
    bool,
>;

/// Whether the evaluation domain of a shape exists and can be counted.
pub open spec fn domain_fits(shape: Shape) -> bool {
    &&& shape.constraints.len() + shape.num_public <= usize::MAX
    &&& domain_points(shape.constraints.len() + shape.num_public) <= MAX_DOMAIN_POINTS
}

/// The layout of a proving key for a shape: one element of each query per
/// variable, one `l` element per private variable, one `h` element per
/// domain point but one, one public term per public variable. `None` where
/// the shape needs a larger domain than the field has.
pub open spec fn shape_layout(shape: Shape) -> Option<KeyLayout> {
    if domain_fits(shape) {
        Some(
            KeyLayout {
                a_query: (shape.num_public + shape.num_private) as usize,
                b_g1_query: (shape.num_public + shape.num_private) as usize,
                b_g2_query: (shape.num_public + shape.num_private) as usize,
                h_query: (domain_points(shape.constraints.len() + shape.num_public) - 1) as usize,
                l_query: shape.num_private as usize,
                gamma_abc: shape.num_public as usize,
            },
        )
    } else {
        None
    }
}

/// The layout of a proving key for the shape of a system.
pub fn expected_layout(cs: &ConstraintSystem) -> (r: Option<KeyLayout>)
    requires
        cs.wf(),
    ensures
        r == shape_layout(cs@.shape),
{
    let num_public: usize = cs.num_public();
    let num_private: usize = cs.num_private();
    let num_constraints: usize = cs.num_constraints();
    proof {
        lemma_domain_points(cs@.shape.constraints.len() + cs@.shape.num_public);
    }
    if num_constraints as u64 > MAX_DOMAIN_POINTS || num_public as u64 > MAX_DOMAIN_POINTS
        || num_constraints > usize::MAX - num_public {
        return None;
    }
    match domain_size(num_constraints as u64 + num_public as u64) {
        None => None,
        Some(points) => Some(
            KeyLayout {
                a_query: num_public + num_private,
                b_g1_query: num_public + num_private,
                b_g2_query: num_public + num_private,
                h_query: (points - 1) as usize,
                l_query: num_private,
                gamma_abc: num_public,
            },
        ),
    }
}

/// What a proving key is: the shape it was made for, and its encoding.
pub struct ProvingKeyView {
    pub shape: Shape,
    pub bytes: Seq<u8>,
}

/// A Groth16 proving key, bound to the shape of one relation.
#[derive(Debug)]
pub struct ProvingKey {
    system: ConstraintSystem,
    bytes: Vec<u8>,
}

impl View for ProvingKey {
    type V = ProvingKeyView;

    closed spec fn view(&self) -> ProvingKeyView {
        ProvingKeyView { shape: self.system@.shape, bytes: self.bytes@ }
    }
}

/// What a verifying key is: the number of public inputs it takes, and its
/// encoding.
pub struct VerifyingKeyView {
    pub num_inputs: nat,
    pub bytes: Seq<u8>,
}

/// A Groth16 verifying key.
#[derive(Debug)]
pub struct VerifyingKey {
    num_inputs: usize,
    bytes: Vec<u8>,
}

impl View for VerifyingKey {
    type V = VerifyingKeyView;

    closed spec fn view(&self) -> VerifyingKeyView {
        VerifyingKeyView { num_inputs: self.num_inputs as nat, bytes: self.bytes@ }
    }
}

/// A Groth16 proof: the encoding of its three group elements.
#[derive(Debug)]
pub struct Proof {
    bytes: Vec<u8>,
}

impl View for Proof {
    type V = Seq<u8>;

    closed spec fn view(&self) -> Seq<u8> {
        self.bytes@
    }
}

/// What decoding a proving key for a shape gives: the bytes have to decode,
/// the shape has to have a domain, and the key's layout has to be that of
/// the shape.
pub open spec fn proving_key_outcome(shape: Shape, bytes: Seq<u8>) -> Result<ProvingKeyView, Error> {
    match decoded_layout(bytes) {
        None => Err(Error::MalformedKey),
        Some(layout) => if !domain_fits(shape) {
            Err(Error::DomainTooLarge)
        } else if shape_layout(shape) != Some(layout) {
            Err(Error::ShapeMismatch)
        } else {
            Ok(ProvingKeyView { shape, bytes })
        },
    }
}

/// What decoding a verifying key gives: the bytes have to decode to a key
/// with a term for the constant one.
pub open spec fn verifying_key_outcome(bytes: Seq<u8>) -> Result<VerifyingKeyView, Error> {
    match decoded_terms(bytes) {
        None => Err(Error::MalformedKey),
        Some(terms) => if terms == 0 {
            Err(Error::MalformedKey)
        } else {
            Ok(VerifyingKeyView { num_inputs: (terms - 1) as nat, bytes })
        },
    }
}

/// Whether each of the three matrices of a shape has a number of entries
/// that the machine can count.
pub open spec fn matrices_countable(shape: Shape) -> bool {
    &&& total_entries(shape_matrices(shape).a) <= usize::MAX
    &&& total_entries(shape_matrices(shape).b) <= usize::MAX
    &&& total_entries(shape_matrices(shape).c) <= usize::MAX
}

/// What proving gives. A key proves only for its own shape; without an
/// assignment there is nothing to prove; an assignment that violates a
/// constraint is refused before anything is computed.
pub open spec fn proving_outcome(key: ProvingKeyView, cs: SystemView, r: nat, s: nat) -> Result<
    Seq<u8>,
    Error,
> {
    if cs.shape != key.shape {
        Err(Error::ShapeMismatch)
    } else if cs.mode == Mode::Structure {
        Err(Error::AssignmentMissing)
    } else if !cs.satisfied() {
        Err(Error::ConstraintUnsatisfied)
    } else if !matrices_countable(cs.shape) {
        Err(Error::DomainTooLarge)
    } else {
        match groth16_proof(key.bytes, shape_matrices(cs.shape), cs.assignment(), r, s) {
            Some(bytes) => Ok(bytes),
            None => Err(Error::DomainTooLarge),
        }
    }
}

/// What verification gives. A key verifies only for as many public inputs
/// as it was made for; beyond that the answer is that of the pairing check,
/// and a check that cannot be carried out has not succeeded.
pub open spec fn verification_outcome(key: VerifyingKeyView, inputs: Seq<nat>, proof: Seq<u8>) -> Result<
    bool,
    Error,
> {
    if inputs.len() != key.num_inputs {
        Err(Error::ShapeMismatch)
    } else {
        Ok(groth16_verdict(key.bytes, inputs, proof) == Some(true))
    }
}

/// Whether the bytes that came out are those that `expected` names.
pub open spec fn proof_bytes_are(out: Option<Vec<u8>>, expected: Option<Seq<u8>>) -> bool {
    match out {
        Some(bytes) => expected == Some(bytes@),
        None => expected is None,
    }
}

/// Whether a result of proving is what `expected` says.
pub open spec fn proof_is(out: Result<Proof, Error>, expected: Result<Seq<u8>, Error>) -> bool {
    match out {
        Ok(proof) => expected == Ok::<Seq<u8>, Error>(proof@),
        Err(e) => expected == Err::<Seq<u8>, Error>(e),
    }
}

impl ProvingKey {
    #[verifier::type_invariant]
    closed spec fn inv(self) -> bool {
        &&& self.system.wf()
        &&& self.system@.mode == Mode::Structure
        &&& domain_fits(self.system@.shape)
        &&& decoded_layout(self.bytes@) == shape_layout(self.system@.shape)
    }

    /// Takes the encoding of a proving key that a setup made for the shape
    /// of `cs`.
    ///
    /// Bytes that do not decode give `MalformedKey`; a shape without a
    /// domain gives `DomainTooLarge`; a key with another layout than the
    /// shape's gives `ShapeMismatch`.
    pub fn decode(cs: &ConstraintSystem, bytes: Vec<u8>) -> (r: Result<ProvingKey, Error>)
        requires
            cs.wf(),
        ensures
            match r {
                Ok(key) => proving_key_outcome(cs@.shape, bytes@) == Ok::<ProvingKeyView, Error>(
                    key@,
                ),
                Err(e) => proving_key_outcome(cs@.shape, bytes@) == Err::<ProvingKeyView, Error>(e),
            },
    {
        let found: KeyLayout = match ark_proving_key_layout(&bytes) {
            None => { return Err(Error::MalformedKey); },
            Some(layout) => layout,
        };
        let expected: KeyLayout = match expected_layout(cs) {
            None => { return Err(Error::DomainTooLarge); },
            Some(layout) => layout,
        };
        if !(found == expected) {
            return Err(Error::ShapeMismatch);
        }
        Ok(ProvingKey { system: cs.structure(), bytes })
    }

    /// The encoding of the key.
    pub fn bytes(&self) -> (b: &Vec<u8>)
        ensures
            b@ == self@.bytes,
    {
        &self.bytes
    }

    /// The verifying key that belongs to this proving key. It takes the
    /// public inputs of the key's relation.
    pub fn verifying_key(&self) -> (vk: VerifyingKey)
        ensures
            vk@ == (VerifyingKeyView {
                num_inputs: (self@.shape.num_public - 1) as nat,
                bytes: embedded_verifying_key(self@.bytes),
            }),
    {
        proof {
            use_type_invariant(self);
        }
        let bytes: Vec<u8> = ark_embedded_verifying_key(&self.bytes);
        VerifyingKey { num_inputs: self.system.num_public() - 1, bytes }
    }

    /// The relation that the key was made for, without an assignment.
    pub fn system(&self) -> (cs: &ConstraintSystem)
        ensures
            cs.wf(),
            cs@.mode == Mode::Structure,
            cs@.shape == self@.shape,
    {
        proof {
            use_type_invariant(self);
        }
        &self.system
    }
}

impl VerifyingKey {
    #[verifier::type_invariant]
    closed spec fn inv(self) -> bool {
        &&& self.num_inputs < usize::MAX
        &&& decoded_terms(self.bytes@) == Some((self.num_inputs + 1) as usize)
    }

    /// Takes the encoding of a verifying key.
    ///
    /// Bytes that do not decode, or that decode to a key without a term for
    /// the constant one, give `MalformedKey`.
    pub fn decode(bytes: Vec<u8>) -> (r: Result<VerifyingKey, Error>)
        ensures
            match r {
                Ok(key) => verifying_key_outcome(bytes@) == Ok::<VerifyingKeyView, Error>(key@),
                Err(e) => verifying_key_outcome(bytes@) == Err::<VerifyingKeyView, Error>(e),
            },
    {
        match ark_verifying_key_terms(&bytes) {
            None => Err(Error::MalformedKey),
            Some(terms) => if terms == 0 {
                Err(Error::MalformedKey)
            } else {
                Ok(VerifyingKey { num_inputs: terms - 1, bytes })
            },
        }
    }

    /// The encoding of the key.
    pub fn bytes(&self) -> (b: &Vec<u8>)
        ensures
            b@ == self@.bytes,
    {
        &self.bytes
    }

    /// The number of public inputs that the key takes.
    pub fn num_inputs(&self) -> (n: usize)
        ensures
            n == self@.num_inputs,
    {
        self.num_inputs
    }
}

impl Proof {
    #[verifier::type_invariant]
    closed spec fn inv(self) -> bool {
        proof_decodes(self.bytes@)
    }

    /// Takes the encoding of a proof, if the bytes decode to one.
    pub fn decode(bytes: Vec<u8>) -> (r: Option<Proof>)
        ensures
            r is Some <==> proof_decodes(bytes@),
            r matches Some(proof) ==> proof@ == bytes@,
    {
        if ark_proof_decodes(&bytes) {
            Some(Proof { bytes })
        } else {
            None
        }
    }

    /// The encoding of the proof.
    pub fn bytes(&self) -> (b: &Vec<u8>)
        ensures
            b@ == self@,
    {
        &self.bytes
    }
}

/// Proves that the assignment of `cs` satisfies the relation that the key
/// was made for, with the blinding scalars `r` and `s`.
///
/// Fails with `ShapeMismatch` where the key was made for another shape,
/// with `AssignmentMissing` where `cs` has no assignment, and with
/// `ConstraintUnsatisfied` where the assignment violates a constraint. No
/// proof is computed in these cases.
pub fn create_proof(key: &ProvingKey, cs: &ConstraintSystem, r: &Scalar, s: &Scalar) -> (out: Result<
    Proof,
    Error,
>)
    requires
        cs.wf(),
    ensures
        proof_is(out, proving_outcome(key@, cs@, r@, s@)),
{
    proof {
        use_type_invariant(key);
    }
    if !key.system.same_shape(cs) {
        return Err(Error::ShapeMismatch);
    }
    match cs.check() {
        Err(e) => { return Err(e); },
        Ok(()) => {},
    }
    let matrices: Matrices = match cs.matrices() {
        Err(e) => { return Err(e); },
        Ok(m) => m,
    };
    let assignment: Vec<Scalar> = cs.assignment();
    assert(scalar_values(assignment@).len() == assignment@.len());
    let outcome: Option<Vec<u8>> = ark_create_proof(
        &key.bytes,
        matrices.num_public,
        matrices.num_private,
        matrices.a.len(),
        matrices.a_entries,
        matrices.b_entries,
        matrices.c_entries,
        ark_matrix(&matrices.a),
        ark_matrix(&matrices.b),
        ark_matrix(&matrices.c),
        &ark_vector(&assignment),
        r,
        s,
    );
    match outcome {
        Some(bytes) => Ok(Proof { bytes }),
        None => Err(Error::DomainTooLarge),
    }
}

/// Proves as [`create_proof`] does, with blinding scalars drawn from the
/// operating system's source of randomness.
///
/// Which proof comes out depends on the scalars drawn; whether one comes
/// out, and which error if none, does not.
pub fn create_random_proof(key: &ProvingKey, cs: &ConstraintSystem) -> (out: Result<Proof, Error>)
    requires
        cs.wf(),
    ensures
        exists|r: nat, s: nat|
            r < modulus() && s < modulus() && proof_is(
                out,
                #[trigger] proving_outcome(key@, cs@, r, s),
            ),
        cs@.shape != key@.shape ==> out is Err && out->Err_0 == Error::ShapeMismatch,
        cs@.shape == key@.shape && cs@.mode == Mode::Structure ==> out is Err && out->Err_0
            == Error::AssignmentMissing,
        cs@.shape == key@.shape && cs@.mode == Mode::Assignment && !cs@.satisfied() ==> out is Err
            && out->Err_0 == Error::ConstraintUnsatisfied,
{
    let r: Scalar = Scalar::random();
    let s: Scalar = Scalar::random();
    create_proof(key, cs, &r, &s)
}

/// Checks a proof against a verifying key and the public inputs, given in
/// the order in which they were allocated, without the constant one.
///
/// Fails with `ShapeMismatch` where the key takes another number of public
/// inputs. A proof that does not verify is no failure: the answer is
/// `false`.
pub fn verify_proof(key: &VerifyingKey, inputs: &Vec<Scalar>, proof: &Proof) -> (out: Result<
    bool,
    Error,
>)
    ensures
        out == verification_outcome(key@, scalar_values(inputs@), proof@),
{
    proof {
        use_type_invariant(key);
        use_type_invariant(proof);
    }
    if inputs.len() != key.num_inputs {
        return Err(Error::ShapeMismatch);
    }
    Ok(accepted(ark_verify_proof(&key.bytes, inputs, &proof.bytes)))
}

/// Whether the pairing check has succeeded: it has where it was carried out
/// and found the equation to hold.
pub fn accepted(outcome: Option<bool>) -> (r: bool)
    ensures
        r == (outcome == Some(true)),
{
    match outcome {
        Some(holds) => holds,
        None => false,
    }
}

/// `ark_serialize`'s `deserialize_compressed` for `ark_groth16::ProvingKey`
/// on BLS12-381. Trusted: whether the bytes decode, and the lengths of the
/// decoded key's vectors, are what [`decoded_layout`] stands for.
#[verifier::external_body]
fn ark_proving_key_layout(bytes: &Vec<u8>) -> (r: Option<KeyLayout>)
    ensures
        r == decoded_layout(bytes@),
{
    let key = ark_groth16::ProvingKey::<Bls12_381>::deserialize_compressed(&bytes[..]).ok()?;
    Some(
        KeyLayout {
            a_query: key.a_query.len(),
            b_g1_query: key.b_g1_query.len(),
            b_g2_query: key.b_g2_query.len(),
            h_query: key.h_query.len(),
            l_query: key.l_query.len(),
            gamma_abc: key.vk.gamma_abc_g1.len(),
        },
    )
}

/// `ark_serialize`'s `serialize_compressed` for the field `vk` of the
/// `ark_groth16::ProvingKey` that the bytes decode to. Trusted: the encoding
/// is a function of the proving key's bytes, named
/// [`embedded_verifying_key`], and it decodes again to a verifying key with
/// the `gamma_abc_g1` of the proving key.
#[verifier::external_body]
fn ark_embedded_verifying_key(key: &Vec<u8>) -> (r: Vec<u8>)
    requires
        decoded_layout(key@) is Some,
    ensures
        r@ == embedded_verifying_key(key@),
        decoded_terms(r@) == Some(decoded_layout(key@).unwrap().gamma_abc),
{
    let key = ark_groth16::ProvingKey::<Bls12_381>::deserialize_compressed(&key[..]).unwrap();
    let mut out = Vec::new();
    key.vk.serialize_compressed(&mut out).unwrap();
    out
}

/// `ark_serialize`'s `deserialize_compressed` for `ark_groth16::VerifyingKey`
/// on BLS12-381. Trusted: whether the bytes decode, and the length of the
/// decoded key's `gamma_abc_g1`, are what [`decoded_terms`] stands for.
#[verifier::external_body]
fn ark_verifying_key_terms(bytes: &Vec<u8>) -> (r: Option<usize>)
    ensures
        r == decoded_terms(bytes@),
{
    let key = ark_groth16::VerifyingKey::<Bls12_381>::deserialize_compressed(&bytes[..]).ok()?;
    Some(key.gamma_abc_g1.len())
}

/// `ark_serialize`'s `deserialize_compressed` for `ark_groth16::Proof` on
/// BLS12-381. Trusted: whether the bytes decode is what [`proof_decodes`]
/// stands for.
#[verifier::external_body]
fn ark_proof_decodes(bytes: &Vec<u8>) -> (r: bool)
    ensures
        r == proof_decodes(bytes@),
{
    ark_groth16::Proof::<Bls12_381>::deserialize_compressed(&bytes[..]).is_ok()
}

/// Builds the rows of an `ark_relations` matrix (`Matrix<Fr>`) from the
/// rows of the library, entry by entry, with `ark_ff`'s conversion of a
/// canonical representative to a field element. Trusted: the matrix holds
/// the same coefficients in the same columns, in the same order.
#[verifier::external_body]
fn ark_matrix(rows: &Vec<Vec<Entry>>) -> (m: FieldMatrix)
    ensures
        matrix_rows(m) == rows_view(rows@),
{
    let entry = |e: &Entry| (Fr::from(BigInt(e.coeff.to_limbs())), e.column);
    FieldMatrix { rows: rows.iter().map(|row| row.iter().map(entry).collect()).collect() }
}

/// Builds a vector of `ark_ff` field elements from scalars of the library,
/// with `ark_ff`'s conversion of a canonical representative to a field
/// element. Trusted: the vector holds the same field elements in the same
/// order.
#[verifier::external_body]
fn ark_vector(values: &Vec<Scalar>) -> (v: FieldVector)
    ensures
        vector_values(v) == scalar_values(values@),
{
    FieldVector { values: values.iter().map(|x| Fr::from(BigInt(x.to_limbs()))).collect() }
}

/// `ark_groth16`'s `Groth16::create_proof_with_reduction_and_matrices` on
/// BLS12-381. Trusted: the encoding of the proof is a function of the key,
/// the matrices, the assignment and the two scalars, named
/// [`groth16_proof`]; and what the prover computes decodes again. The
/// preconditions keep the call from indexing outside the key's queries, the
/// matrices or the assignment.
#[verifier::external_body]
fn ark_create_proof(
    key: &Vec<u8>,
    num_instance_variables: usize,
    num_witness_variables: usize,
    num_constraints: usize,
    a_num_non_zero: usize,
    b_num_non_zero: usize,
    c_num_non_zero: usize,
    a: FieldMatrix,
    b: FieldMatrix,
    c: FieldMatrix,
    assignment: &FieldVector,
    r: &Scalar,
    s: &Scalar,
) -> (out: Option<Vec<u8>>)
    requires
        decoded_layout(key@) matches Some(layout) && layout.a_query >= 1 && layout.b_g1_query >= 1
            && layout.b_g2_query >= 1,
        num_instance_variables >= 1,
        num_constraints + num_instance_variables <= usize::MAX,
        vector_values(*assignment).len() == num_instance_variables + num_witness_variables,
        matrix_rows(a).len() == num_constraints,
        matrix_rows(b).len() == num_constraints,
        matrix_rows(c).len() == num_constraints,
        rows_below(matrix_rows(a), vector_values(*assignment).len()),
        rows_below(matrix_rows(b), vector_values(*assignment).len()),
        rows_below(matrix_rows(c), vector_values(*assignment).len()),
        a_num_non_zero == total_entries(matrix_rows(a)),
        b_num_non_zero == total_entries(matrix_rows(b)),
        c_num_non_zero == total_entries(matrix_rows(c)),
    ensures
        proof_bytes_are(
            out,
            groth16_proof(
                key@,
                MatricesView {
                    num_public: num_instance_variables as nat,
                    num_private: num_witness_variables as nat,
                    a: matrix_rows(a),
                    b: matrix_rows(b),
                    c: matrix_rows(c),
                },
                vector_values(*assignment),
                r@,
                s@,
            ),
        ),
        out matches Some(bytes) ==> proof_decodes(bytes@),
{
    let key = CanonicalDeserialize::deserialize_compressed(&key[..]).unwrap();
    let (a, b, c) = (a.rows, b.rows, c.rows);
    let m = ConstraintMatrices { num_instance_variables, num_witness_variables, num_constraints,
        a_num_non_zero, b_num_non_zero, c_num_non_zero, a, b, c };
    let (r, s) = (Fr::from(BigInt(r.to_limbs())), Fr::from(BigInt(s.to_limbs())));
    let proof = Groth16::<Bls12_381>::create_proof_with_reduction_and_matrices(
        &key, r, s, &m, num_instance_variables, num_constraints, &assignment.values,
    ).ok()?;
    let mut out = Vec::new();
    proof.serialize_compressed(&mut out).ok()?;
    Some(out)
}

/// `ark_groth16`'s `Groth16::verify_proof`, on the key that
/// `prepare_verifying_key` makes of the decoded verifying key. Trusted: the
/// answer is a function of the key, the inputs and the proof, named
/// [`groth16_verdict`]. Nothing is claimed of which proofs are accepted.
#[verifier::external_body]
fn ark_verify_proof(key: &Vec<u8>, inputs: &Vec<Scalar>, proof: &Vec<u8>) -> (out: Option<bool>)
    requires
        decoded_terms(key@) is Some,
        proof_decodes(proof@),
    ensures
        out == groth16_verdict(key@, scalar_values(inputs@), proof@),
{
    let key = ark_groth16::VerifyingKey::<Bls12_381>::deserialize_compressed(&key[..]).unwrap();
    let proof = ark_groth16::Proof::<Bls12_381>::deserialize_compressed(&proof[..]).unwrap();
    let inputs: Vec<Fr> = inputs.iter().map(|x| Fr::from(BigInt(x.to_limbs()))).collect();
    Groth16::<Bls12_381>::verify_proof(&prepare_verifying_key(&key), &proof, &inputs).ok()
}

} // verus!
