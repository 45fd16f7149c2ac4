//! The capability a circuit asks of its field: the ring operations, the two
//! identities and a test for zero, each stated over the element's residue.

use vstd::prelude::*;

verus! {

/// The residue of `a + b` modulo `m`.
pub open spec fn add_mod(a: nat, b: nat, m: nat) -> nat {
    (a + b) % m
}

/// The residue of `a - b` modulo `m`.
pub open spec fn sub_mod(a: nat, b: nat, m: nat) -> nat {
    ((a - b) % (m as int)) as nat
}

/// The residue of `a * b` modulo `m`.
pub open spec fn mul_mod(a: nat, b: nat, m: nat) -> nat {
    (a * b) % m
}

/// A prime field whose elements are the residues `0 .. modulus()`.
///
/// Every contract of this crate speaks of an element through `residue`, so two
/// elements with one residue are the same element to it.
pub trait Field: Copy {
    /// The field's characteristic.
    spec fn modulus() -> nat;

    /// The canonical representative of the element.
    spec fn residue(&self) -> nat;

    /// The field has at least the two elements zero and one.
    proof fn modulus_exceeds_one()
        ensures
            Self::modulus() > 1,
    ;

    /// A residue is always reduced.
    proof fn residue_in_range(x: Self)
        ensures
            x.residue() < Self::modulus(),
    ;

    /// The additive identity.
    fn zero() -> (r: Self)
        ensures
            r.residue() == 0,
    ;

    /// The multiplicative identity.
    fn one() -> (r: Self)
        ensures
            r.residue() == 1,
    ;

    /// Field addition.
    fn add(&self, rhs: &Self) -> (r: Self)
        ensures
            r.residue() == add_mod(self.residue(), rhs.residue(), Self::modulus()),
    ;

    /// Field subtraction.
    fn sub(&self, rhs: &Self) -> (r: Self)
        ensures
            r.residue() == sub_mod(self.residue(), rhs.residue(), Self::modulus()),
    ;

    /// Field multiplication.
    fn mul(&self, rhs: &Self) -> (r: Self)
        ensures
            r.residue() == mul_mod(self.residue(), rhs.residue(), Self::modulus()),
    ;

    /// Whether the element is the additive identity.
    fn is_zero(&self) -> (b: bool)
        ensures
            b == (self.residue() == 0),
    ;
}

} // verus!
