//! Elements of the BLS12-381 scalar field.
//!
//! A [`Scalar`] holds the canonical representative of a field element as four
//! 64-bit limbs, least significant first. Its view is that representative as a
//! natural number. The arithmetic itself is done by `ark_ff`.

use vstd::prelude::*;
use vstd::arithmetic::div_mod::{
    lemma_fundamental_div_mod, lemma_fundamental_div_mod_converse, lemma_small_mod,
};
use ark_bls12_381::Fr;
use ark_ff::{BigInt, PrimeField, UniformRand};
use ark_std::rand::rngs::OsRng;

verus! {

/// Least significant limb of the field modulus.
pub const MODULUS_0: u64 = 0xffff_ffff_0000_0001;

/// Second limb of the field modulus.
pub const MODULUS_1: u64 = 0x53bd_a402_fffe_5bfe;

/// Third limb of the field modulus.
pub const MODULUS_2: u64 = 0x3339_d808_09a1_d805;

/// Most significant limb of the field modulus.
pub const MODULUS_3: u64 = 0x73ed_a753_299d_7d48;

/// The radix of the limbs, `2^64`.
pub open spec fn radix() -> nat {
    0x1_0000_0000_0000_0000
}

/// The number that four limbs stand for, least significant limb first.
pub open spec fn limbs_value(l0: u64, l1: u64, l2: u64, l3: u64) -> nat {
    l0 as nat + radix() * (l1 as nat + radix() * (l2 as nat + radix() * (l3 as nat)))
}

/// The order of the BLS12-381 scalar field,
/// `0x73eda753299d7d483339d80809a1d80553bda402fffe5bfeffffffff00000001`.
pub open spec fn modulus() -> nat {
    limbs_value(MODULUS_0, MODULUS_1, MODULUS_2, MODULUS_3)
}

/// An element of the scalar field, held as its canonical representative.
#[derive(Clone, Copy, Debug, PartialEq, Eq, Structural)]
pub struct Scalar {
    l0: u64,
    l1: u64,
    l2: u64,
    l3: u64,
}

impl View for Scalar {
    type V = nat;

    /// The canonical representative, a number below [`modulus`].
    closed spec fn view(&self) -> nat {
        limbs_value(self.l0, self.l1, self.l2, self.l3)
    }
}

/// Limbs determine their value, and the value its limbs.
pub proof fn lemma_limbs_injective(a0: u64, a1: u64, a2: u64, a3: u64, b0: u64, b1: u64, b2: u64, b3: u64)
    requires
        limbs_value(a0, a1, a2, a3) == limbs_value(b0, b1, b2, b3),
    ensures
        a0 == b0,
        a1 == b1,
        a2 == b2,
        a3 == b3,
{
    let r = radix() as int;
    let ha = a1 as int + r * (a2 as int + r * (a3 as int));
    let hb = b1 as int + r * (b2 as int + r * (b3 as int));
    assert(a0 as int + r * ha == b0 as int + r * hb);
    assert(ha == hb && a0 == b0) by (nonlinear_arith)
        requires
            a0 as int + r * ha == b0 as int + r * hb,
            0 <= a0 as int && (a0 as int) < r,
            0 <= b0 as int && (b0 as int) < r,
    ;
    let ga = a2 as int + r * (a3 as int);
    let gb = b2 as int + r * (b3 as int);
    assert(ga == gb && a1 == b1) by (nonlinear_arith)
        requires
            a1 as int + r * ga == b1 as int + r * gb,
            0 <= a1 as int && (a1 as int) < r,
            0 <= b1 as int && (b1 as int) < r,
    ;
    assert(a3 == b3 && a2 == b2) by (nonlinear_arith)
        requires
            a2 as int + r * (a3 as int) == b2 as int + r * (b3 as int),
            0 <= a2 as int && (a2 as int) < r,
            0 <= b2 as int && (b2 as int) < r,
    ;
}

/// Whether four limbs stand for a number below the modulus.
pub fn below_modulus(l0: u64, l1: u64, l2: u64, l3: u64) -> (r: bool)
    ensures
        r == (limbs_value(l0, l1, l2, l3) < modulus()),
{
    proof {
        lemma_order_by_limbs(l0, l1, l2, l3, MODULUS_0, MODULUS_1, MODULUS_2, MODULUS_3);
    }
    if l3 != MODULUS_3 {
        l3 < MODULUS_3
    } else if l2 != MODULUS_2 {
        l2 < MODULUS_2
    } else if l1 != MODULUS_1 {
        l1 < MODULUS_1
    } else {
        l0 < MODULUS_0
    }
}

/// Numbers of four limbs are ordered by their limbs, the most significant first.
pub proof fn lemma_order_by_limbs(a0: u64, a1: u64, a2: u64, a3: u64, b0: u64, b1: u64, b2: u64, b3: u64)
    ensures
        limbs_value(a0, a1, a2, a3) < limbs_value(b0, b1, b2, b3) <==> (a3 < b3 || (a3 == b3 && (a2
            < b2 || (a2 == b2 && (a1 < b1 || (a1 == b1 && a0 < b0)))))),
{
    let r = radix() as int;
    let ga = a2 as int + r * (a3 as int);
    let gb = b2 as int + r * (b3 as int);
    lemma_order_step(a2 as int, a3 as int, b2 as int, b3 as int);
    lemma_order_step(a1 as int, ga, b1 as int, gb);
    lemma_order_step(a0 as int, a1 as int + r * ga, b0 as int, b1 as int + r * gb);
}

/// One step of the comparison: a low limb decides only where the high parts agree.
proof fn lemma_order_step(lo_a: int, hi_a: int, lo_b: int, hi_b: int)
    requires
        0 <= lo_a < radix(),
        0 <= lo_b < radix(),
    ensures
        lo_a + radix() * hi_a < lo_b + radix() * hi_b <==> (hi_a < hi_b || (hi_a == hi_b && lo_a
            < lo_b)),
        lo_a + radix() * hi_a == lo_b + radix() * hi_b <==> (hi_a == hi_b && lo_a == lo_b),
{
    let r = radix() as int;
    assert(hi_a < hi_b ==> r * hi_a + r <= r * hi_b) by (nonlinear_arith)
        requires
            r > 0,
    ;
    assert(hi_b < hi_a ==> r * hi_b + r <= r * hi_a) by (nonlinear_arith)
        requires
            r > 0,
    ;
}

impl Scalar {
    /// The invariant of the type: the limbs hold a number below the modulus.
    #[verifier::type_invariant]
    pub open spec fn wf(self) -> bool {
        self@ < modulus()
    }

    /// The scalar that stands for a number below the modulus.
    pub closed spec fn of_value(v: nat) -> Scalar {
        Scalar {
            l0: (v % radix()) as u64,
            l1: ((v / radix()) % radix()) as u64,
            l2: ((v / radix() / radix()) % radix()) as u64,
            l3: ((v / radix() / radix() / radix()) % radix()) as u64,
        }
    }

    /// The scalar of a number below the modulus stands for that number.
    pub proof fn lemma_of_value(v: nat)
        requires
            v < modulus(),
        ensures
            Scalar::of_value(v)@ == v,
            Scalar::of_value(v).wf(),
    {
        let r = radix() as int;
        let q1 = v as int / r;
        let q2 = q1 / r;
        let q3 = q2 / r;
        lemma_fundamental_div_mod(v as int, r);
        lemma_fundamental_div_mod(q1, r);
        lemma_fundamental_div_mod(q2, r);
        assert(v < r * r * r * r) by (nonlinear_arith)
            requires
                v < modulus(),
                r == radix(),
        ;
        assert(q3 < r) by (nonlinear_arith)
            requires
                v < r * r * r * r,
                v == r * q1 + v as int % r,
                q1 == r * q2 + q1 % r,
                q2 == r * q3 + q2 % r,
                0 <= v as int % r,
                0 <= q1 % r,
                0 <= q2 % r,
                r > 0,
                q3 >= 0,
        ;
        lemma_small_mod(q3 as nat, r as nat);
    }

    /// Every scalar is the scalar of the number it stands for.
    pub proof fn lemma_of_view(x: Scalar)
        ensures
            Scalar::of_value(x@) == x,
    {
        let r = radix() as int;
        let h1 = x.l1 as int + r * (x.l2 as int + r * (x.l3 as int));
        let h2 = x.l2 as int + r * (x.l3 as int);
        let v = x@ as int;
        assert(v == r * h1 + x.l0);
        lemma_fundamental_div_mod_converse(v, r, h1, x.l0 as int);
        lemma_fundamental_div_mod_converse(h1, r, h2, x.l1 as int);
        lemma_fundamental_div_mod_converse(h2, r, x.l3 as int, x.l2 as int);
        lemma_small_mod(x.l3 as nat, r as nat);
    }

    /// The additive identity.
    pub fn zero() -> (r: Scalar)
        ensures
            r == Scalar::of_value(0),
            r@ == 0,
            r.wf(),
    {
        let r = Scalar { l0: 0, l1: 0, l2: 0, l3: 0 };
        proof {
            Scalar::lemma_of_view(r);
        }
        r
    }

    /// The multiplicative identity.
    pub fn one() -> (r: Scalar)
        ensures
            r == Scalar::of_value(1),
            r@ == 1,
            r.wf(),
    {
        let r = Scalar { l0: 1, l1: 0, l2: 0, l3: 0 };
        proof {
            Scalar::lemma_of_view(r);
        }
        r
    }

    /// The field element that a 64-bit number stands for.
    pub fn from_u64(x: u64) -> (r: Scalar)
        ensures
            r == Scalar::of_value(x as nat),
            r@ == x,
            r.wf(),
    {
        let r = Scalar { l0: x, l1: 0, l2: 0, l3: 0 };
        proof {
            Scalar::lemma_of_view(r);
        }
        r
    }

    /// The field element with the given limbs, least significant first, if
    /// they stand for a number below the modulus.
    pub fn from_limbs(limbs: [u64; 4]) -> (r: Option<Scalar>)
        ensures
            r is Some <==> limbs_value(limbs[0], limbs[1], limbs[2], limbs[3]) < modulus(),
            r is Some ==> r.unwrap()@ == limbs_value(limbs[0], limbs[1], limbs[2], limbs[3])
                && r.unwrap().wf(),
    {
        if below_modulus(limbs[0], limbs[1], limbs[2], limbs[3]) {
            Some(Scalar { l0: limbs[0], l1: limbs[1], l2: limbs[2], l3: limbs[3] })
        } else {
            None
        }
    }

    /// The limbs of the canonical representative, least significant first.
    pub fn to_limbs(&self) -> (limbs: [u64; 4])
        ensures
            limbs_value(limbs[0], limbs[1], limbs[2], limbs[3]) == self@,
    {
        [self.l0, self.l1, self.l2, self.l3]
    }

    /// Whether this is the additive identity.
    pub fn is_zero(&self) -> (r: bool)
        ensures
            r == (self@ == 0),
    {
        proof {
            if self@ == 0 {
                lemma_limbs_injective(self.l0, self.l1, self.l2, self.l3, 0, 0, 0, 0);
            }
        }
        self.l0 == 0 && self.l1 == 0 && self.l2 == 0 && self.l3 == 0
    }

    /// Whether two scalars are the same field element.
    pub fn equals(&self, other: &Scalar) -> (r: bool)
        ensures
            r == (self@ == other@),
            r == (*self == *other),
    {
        proof {
            if self@ == other@ {
                lemma_limbs_injective(
                    self.l0,
                    self.l1,
                    self.l2,
                    self.l3,
                    other.l0,
                    other.l1,
                    other.l2,
                    other.l3,
                );
            }
        }
        self.l0 == other.l0 && self.l1 == other.l1 && self.l2 == other.l2 && self.l3 == other.l3
    }

    /// The sum of two field elements.
    pub fn add(&self, other: &Scalar) -> (r: Scalar)
        ensures
            r@ == (self@ + other@) % modulus(),
            r == Scalar::of_value((self@ + other@) % modulus()),
            r.wf(),
    {
        proof {
            use_type_invariant(self);
            use_type_invariant(other);
        }
        let r = ark_add(self, other);
        proof {
            Scalar::lemma_of_view(r);
        }
        r
    }

    /// The product of two field elements.
    pub fn mul(&self, other: &Scalar) -> (r: Scalar)
        ensures
            r@ == (self@ * other@) % modulus(),
            r == Scalar::of_value((self@ * other@) % modulus()),
            r.wf(),
    {
        proof {
            use_type_invariant(self);
            use_type_invariant(other);
        }
        let r = ark_mul(self, other);
        proof {
            Scalar::lemma_of_view(r);
        }
        r
    }

    /// The additive inverse of a field element.
    pub fn neg(&self) -> (r: Scalar)
        ensures
            r@ == (modulus() - self@) % (modulus() as int),
            r == Scalar::of_value(((modulus() - self@) % (modulus() as int)) as nat),
            r.wf(),
    {
        proof {
            use_type_invariant(self);
        }
        let r = ark_neg(self);
        proof {
            Scalar::lemma_of_view(r);
        }
        r
    }

    /// A field element drawn uniformly at random from the operating system's
    /// source of randomness.
    pub fn random() -> (r: Scalar)
        ensures
            r.wf(),
    {
        ark_random()
    }
}

/// The modulus is larger than every 64-bit number.
pub proof fn lemma_modulus_is_large()
    ensures
        modulus() > u64::MAX,
{
}

/// `ark_ff`'s addition in the scalar field (`Fr + Fr`). Trusted: the result
/// is the canonical representative of the sum of the two representatives
/// modulo the field order, as `Fr::from` and `into_bigint` convert them.
#[verifier::external_body]
fn ark_add(a: &Scalar, b: &Scalar) -> (r: Scalar)
    requires
        a.wf(),
        b.wf(),
    ensures
        r.wf(),
        r@ == (a@ + b@) % modulus(),
{
    let x = Fr::from(BigInt([a.l0, a.l1, a.l2, a.l3]));
    let y = Fr::from(BigInt([b.l0, b.l1, b.l2, b.l3]));
    let l = (x + y).into_bigint().0;
    Scalar { l0: l[0], l1: l[1], l2: l[2], l3: l[3] }
}

/// `ark_ff`'s multiplication in the scalar field (`Fr * Fr`). Trusted: the
/// result is the canonical representative of the product of the two
/// representatives modulo the field order.
#[verifier::external_body]
fn ark_mul(a: &Scalar, b: &Scalar) -> (r: Scalar)
    requires
        a.wf(),
        b.wf(),
    ensures
        r.wf(),
        r@ == (a@ * b@) % modulus(),
{
    let x = Fr::from(BigInt([a.l0, a.l1, a.l2, a.l3]));
    let y = Fr::from(BigInt([b.l0, b.l1, b.l2, b.l3]));
    let l = (x * y).into_bigint().0;
    Scalar { l0: l[0], l1: l[1], l2: l[2], l3: l[3] }
}

/// `ark_ff`'s negation in the scalar field (`-Fr`). Trusted: the result is
/// the canonical representative of the additive inverse, zero for zero.
#[verifier::external_body]
fn ark_neg(a: &Scalar) -> (r: Scalar)
    requires
        a.wf(),
    ensures
        r.wf(),
        r@ == (modulus() - a@) % (modulus() as int),
{
    let x = Fr::from(BigInt([a.l0, a.l1, a.l2, a.l3]));
    let l = (-x).into_bigint().0;
    Scalar { l0: l[0], l1: l[1], l2: l[2], l3: l[3] }
}

/// `ark_std`'s `UniformRand::rand` for the scalar field, on the operating
/// system's generator. Trusted: whatever is drawn, it is a canonical
/// representative. Nothing else is claimed of it.
#[verifier::external_body]
fn ark_random() -> (r: Scalar)
    ensures
        r.wf(),
{
    let l = Fr::rand(&mut OsRng).into_bigint().0;
    Scalar { l0: l[0], l1: l[1], l2: l[2], l3: l[3] }
}

} // verus!
