//! Elements of the Pallas base field, held as their canonical little-endian
//! encoding, with the arithmetic that the gadget needs.

use halo2_proofs::arithmetic::Field;
use halo2_proofs::pasta::group::ff::PrimeField;
use halo2_proofs::pasta::Fp;
use vstd::prelude::*;

verus! {

/// The prime order of the Pallas base field.
pub open spec fn modulus() -> int {
    (0x80000000000000000000000000000000 * 0x80000000000000000000000000000000
        + 0x224698fc094cf91b992d30ed00000001) as int
}

/// The integer that a little-endian byte string encodes.
pub open spec fn le_int(s: Seq<u8>) -> int
    decreases s.len(),
{
    if s.len() == 0 {
        0
    } else {
        s[0] as int + 256 * le_int(s.subrange(1, s.len() as int))
    }
}

/// Reduction of an integer into the canonical range `[0, modulus())`.
pub open spec fn fmod(x: int) -> int {
    x % modulus()
}

/// A field element, stored as the 32-byte little-endian encoding of its
/// canonical representative.
#[derive(Clone, Copy, Debug, PartialEq, Eq)]
pub struct Felt {
    pub repr: [u8; 32],
}

impl Felt {
    /// The canonical representative of the element.
    pub open spec fn value(self) -> int {
        le_int(self.repr@)
    }

    /// The encoding is canonical: it lies below the modulus.
    pub open spec fn wf(self) -> bool {
        0 <= self.value() < modulus()
    }

    /// The additive identity.
    pub fn zero() -> (r: Felt)
        ensures
            r.wf(),
            r.value() == 0,
    {
        fp_zero()
    }

    /// The multiplicative identity.
    pub fn one() -> (r: Felt)
        ensures
            r.wf(),
            r.value() == 1,
    {
        fp_one()
    }

    /// The element that a machine integer stands for.
    pub fn from_u64(n: u64) -> (r: Felt)
        ensures
            r.wf(),
            r.value() == n as int,
    {
        fp_from_u64(n)
    }

    /// The additive inverse, `-self`.
    pub fn neg(&self) -> (r: Felt)
        requires
            self.wf(),
        ensures
            r.wf(),
            r.value() == fmod(-self.value()),
    {
        fp_neg(self)
    }

    /// The sum `self + o`.
    pub fn add(&self, o: &Felt) -> (r: Felt)
        requires
            self.wf(),
            o.wf(),
        ensures
            r.wf(),
            r.value() == fmod(self.value() + o.value()),
    {
        fp_add(self, o)
    }

    /// The difference `self - o`.
    pub fn sub(&self, o: &Felt) -> (r: Felt)
        requires
            self.wf(),
            o.wf(),
        ensures
            r.wf(),
            r.value() == fmod(self.value() - o.value()),
    {
        fp_sub(self, o)
    }

    /// The product `self * o`.
    pub fn mul(&self, o: &Felt) -> (r: Felt)
        requires
            self.wf(),
            o.wf(),
        ensures
            r.wf(),
            r.value() == fmod(self.value() * o.value()),
            r.value() == 0 ==> self.value() == 0 || o.value() == 0,
    {
        fp_mul(self, o)
    }

    /// The multiplicative inverse, or `None` for zero.
    pub fn invert(&self) -> (r: Option<Felt>)
        requires
            self.wf(),
        ensures
            self.value() == 0 <==> r.is_none(),
            r matches Some(w) ==> w.wf() && fmod(self.value() * w.value()) == 1,
    {
        fp_invert(self)
    }

    /// Whether the element is zero.
    pub fn is_zero(&self) -> (r: bool)
        requires
            self.wf(),
        ensures
            r == (self.value() == 0),
    {
        fp_is_zero(self)
    }
}

/// Relies on `Fp::zero` and `PrimeField::to_repr`: zero encodes as zero.
#[verifier::external_body]
fn fp_zero() -> (r: Felt)
    ensures
        r.wf(),
        r.value() == 0,
{
    Felt { repr: Fp::zero().to_repr() }
}

/// Relies on `Fp::one` and `PrimeField::to_repr`: one encodes as one.
#[verifier::external_body]
fn fp_one() -> (r: Felt)
    ensures
        r.wf(),
        r.value() == 1,
{
    Felt { repr: Fp::one().to_repr() }
}

/// Relies on `From<u64> for Fp`: an integer below the modulus maps to itself.
#[verifier::external_body]
fn fp_from_u64(n: u64) -> (r: Felt)
    ensures
        r.wf(),
        r.value() == n as int,
{
    Felt { repr: Fp::from(n).to_repr() }
}

/// Relies on `Neg for Fp`: negation modulo the field's prime, and on
/// `from_repr` accepting every canonical encoding.
#[verifier::external_body]
fn fp_neg(a: &Felt) -> (r: Felt)
    requires
        a.wf(),
    ensures
        r.wf(),
        r.value() == fmod(-a.value()),
{
    let x = Fp::from_repr(a.repr).unwrap();
    Felt { repr: (-x).to_repr() }
}

/// Relies on `Add for Fp`: addition modulo the field's prime.
#[verifier::external_body]
fn fp_add(a: &Felt, b: &Felt) -> (r: Felt)
    requires
        a.wf(),
        b.wf(),
    ensures
        r.wf(),
        r.value() == fmod(a.value() + b.value()),
{
    let x = Fp::from_repr(a.repr).unwrap();
    let y = Fp::from_repr(b.repr).unwrap();
    Felt { repr: (x + y).to_repr() }
}

/// Relies on `Sub for Fp`: subtraction modulo the field's prime.
#[verifier::external_body]
fn fp_sub(a: &Felt, b: &Felt) -> (r: Felt)
    requires
        a.wf(),
        b.wf(),
    ensures
        r.wf(),
        r.value() == fmod(a.value() - b.value()),
{
    let x = Fp::from_repr(a.repr).unwrap();
    let y = Fp::from_repr(b.repr).unwrap();
    Felt { repr: (x - y).to_repr() }
}

/// Relies on `Mul for Fp`: multiplication modulo the field's prime, which
/// has no zero divisors since the modulus is prime.
#[verifier::external_body]
fn fp_mul(a: &Felt, b: &Felt) -> (r: Felt)
    requires
        a.wf(),
        b.wf(),
    ensures
        r.wf(),
        r.value() == fmod(a.value() * b.value()),
        r.value() == 0 ==> a.value() == 0 || b.value() == 0,
{
    let x = Fp::from_repr(a.repr).unwrap();
    let y = Fp::from_repr(b.repr).unwrap();
    Felt { repr: (x * y).to_repr() }
}

/// Relies on `Field::invert` for `Fp`: the inverse of a non-zero element,
/// none for zero.
#[verifier::external_body]
fn fp_invert(a: &Felt) -> (r: Option<Felt>)
    requires
        a.wf(),
    ensures
        a.value() == 0 <==> r.is_none(),
        r matches Some(w) ==> w.wf() && fmod(a.value() * w.value()) == 1,
{
    let x = Fp::from_repr(a.repr).unwrap();
    Option::from(x.invert()).map(|w: Fp| Felt { repr: w.to_repr() })
}

/// Relies on `Field::is_zero` for `Fp`.
#[verifier::external_body]
fn fp_is_zero(a: &Felt) -> (r: bool)
    requires
        a.wf(),
    ensures
        r == (a.value() == 0),
{
    let x = Fp::from_repr(a.repr).unwrap();
    bool::from(x.is_zero())
}

} // verus!
