//! The base field of the Pallas curve, with the arithmetic of `halo2_proofs`.
//!
//! An element is held as its canonical encoding, the 32 little-endian bytes of
//! its residue. The ring operations hand those bytes to the outside field and
//! take the encoding of the result back; what they return is taken on trust
//! from that crate and stated in the contracts of the private functions below.

use vstd::prelude::*;
use vstd::arithmetic::div_mod::lemma_small_mod;
use halo2_proofs::pasta::group::ff::PrimeField;
use crate::field::{add_mod, mul_mod, sub_mod, Field};

verus! {

/// The characteristic of the Pallas base field.
pub open spec fn pallas_modulus() -> nat {
    0x40000000000000000000000000000000224698fc094cf91b992d30ed00000001nat
}

/// The number that a sequence of bytes spells, least significant byte first.
pub open spec fn le_value(bytes: Seq<u8>) -> nat
    decreases bytes.len(),
{
    if bytes.len() == 0 {
        0
    } else {
        bytes[0] as nat + 256 * le_value(bytes.subrange(1, bytes.len() as int))
    }
}

/// Bytes spell zero exactly when each of them is zero.
pub proof fn lemma_zero_value(bytes: Seq<u8>)
    ensures
        le_value(bytes) == 0 <==> forall|i: int| 0 <= i < bytes.len() ==> bytes[i] == 0,
    decreases bytes.len(),
{
    if bytes.len() > 0 {
        let rest = bytes.subrange(1, bytes.len() as int);
        lemma_zero_value(rest);
        assert forall|i: int| 0 <= i < rest.len() implies rest[i] == bytes[i + 1] by {}
        if le_value(bytes) == 0 {
            assert forall|i: int| 0 <= i < bytes.len() implies bytes[i] == 0 by {
                if i > 0 {
                    assert(rest[i - 1] == bytes[i]);
                }
            }
        }
    }
}

/// An element of the Pallas base field.
#[derive(Clone, Copy, Debug, PartialEq, Eq)]
pub struct Fp {
    repr: [u8; 32],
}

/// `From<u64>` of `halo2_proofs::pasta::Fp`, then `to_repr`: the canonical
/// encoding of the field element congruent to `value`, which is `value` itself
/// as the modulus exceeds every `u64`.
#[verifier::external_body]
fn encode_u64(value: u64) -> (r: [u8; 32])
    ensures
        le_value(r@) == value,
{
    halo2_proofs::pasta::Fp::from(value).to_repr()
}

/// `from_repr` of `halo2_proofs::pasta::Fp`: whether 32 bytes are a canonical
/// encoding, that is spell a number below the modulus.
#[verifier::external_body]
fn is_canonical(bytes: &[u8; 32]) -> (r: bool)
    ensures
        r == (le_value(bytes@) < pallas_modulus()),
{
    halo2_proofs::pasta::Fp::from_repr(*bytes).is_some().into()
}

/// Addition of `halo2_proofs::pasta::Fp` on two canonical encodings: the
/// canonical encoding of the sum modulo the characteristic.
#[verifier::external_body]
fn encoded_sum(a: &[u8; 32], b: &[u8; 32]) -> (r: [u8; 32])
    requires
        le_value(a@) < pallas_modulus(),
        le_value(b@) < pallas_modulus(),
    ensures
        le_value(r@) == add_mod(le_value(a@), le_value(b@), pallas_modulus()),
{
    let x = halo2_proofs::pasta::Fp::from_repr(*a).unwrap();
    let y = halo2_proofs::pasta::Fp::from_repr(*b).unwrap();
    (x + y).to_repr()
}

/// Subtraction of `halo2_proofs::pasta::Fp` on two canonical encodings: the
/// canonical encoding of the difference modulo the characteristic.
#[verifier::external_body]
fn encoded_difference(a: &[u8; 32], b: &[u8; 32]) -> (r: [u8; 32])
    requires
        le_value(a@) < pallas_modulus(),
        le_value(b@) < pallas_modulus(),
    ensures
        le_value(r@) == sub_mod(le_value(a@), le_value(b@), pallas_modulus()),
{
    let x = halo2_proofs::pasta::Fp::from_repr(*a).unwrap();
    let y = halo2_proofs::pasta::Fp::from_repr(*b).unwrap();
    (x - y).to_repr()
}

/// Multiplication of `halo2_proofs::pasta::Fp` on two canonical encodings: the
/// canonical encoding of the product modulo the characteristic.
#[verifier::external_body]
fn encoded_product(a: &[u8; 32], b: &[u8; 32]) -> (r: [u8; 32])
    requires
        le_value(a@) < pallas_modulus(),
        le_value(b@) < pallas_modulus(),
    ensures
        le_value(r@) == mul_mod(le_value(a@), le_value(b@), pallas_modulus()),
{
    let x = halo2_proofs::pasta::Fp::from_repr(*a).unwrap();
    let y = halo2_proofs::pasta::Fp::from_repr(*b).unwrap();
    (x * y).to_repr()
}

impl Fp {
    /// Every element holds a canonical encoding.
    #[verifier::type_invariant]
    spec fn canonical(self) -> bool {
        le_value(self.repr@) < pallas_modulus()
    }

    /// The bytes of the element's encoding.
    pub closed spec fn encoding(self) -> Seq<u8> {
        self.repr@
    }

    /// The field element congruent to `value`.
    pub fn from_u64(value: u64) -> (r: Fp)
        ensures
            r.residue() == value,
    {
        let repr = encode_u64(value);
        proof {
            lemma_small_mod(value as nat, pallas_modulus());
        }
        Fp { repr }
    }

    /// The element that 32 bytes encode, if they are a canonical encoding.
    pub fn from_repr(bytes: [u8; 32]) -> (r: Option<Fp>)
        ensures
            r.is_some() == (le_value(bytes@) < pallas_modulus()),
            r matches Some(x) ==> x.residue() == le_value(bytes@) && x.encoding() == bytes@,
    {
        if is_canonical(&bytes) {
            proof {
                lemma_small_mod(le_value(bytes@), pallas_modulus());
            }
            Some(Fp { repr: bytes })
        } else {
            None
        }
    }

    /// The element's canonical encoding: its residue, least significant byte
    /// first.
    pub fn to_repr(&self) -> (r: [u8; 32])
        ensures
            r@ == self.encoding(),
            le_value(r@) == self.residue(),
    {
        proof {
            use_type_invariant(self);
            lemma_small_mod(le_value(self.repr@), pallas_modulus());
        }
        self.repr
    }
}

impl Field for Fp {
    open spec fn modulus() -> nat {
        pallas_modulus()
    }

    closed spec fn residue(&self) -> nat {
        le_value(self.repr@) % pallas_modulus()
    }

    proof fn modulus_exceeds_one() {
    }

    proof fn residue_in_range(x: Self) {
    }

    fn zero() -> (r: Self) {
        Fp::from_u64(0)
    }

    fn one() -> (r: Self) {
        Fp::from_u64(1)
    }

    fn add(&self, rhs: &Self) -> (r: Self) {
        proof {
            use_type_invariant(self);
            use_type_invariant(rhs);
            lemma_small_mod(le_value(self.repr@), pallas_modulus());
            lemma_small_mod(le_value(rhs.repr@), pallas_modulus());
        }
        let repr = encoded_sum(&self.repr, &rhs.repr);
        proof {
            lemma_small_mod(le_value(repr@), pallas_modulus());
        }
        Fp { repr }
    }

    fn sub(&self, rhs: &Self) -> (r: Self) {
        proof {
            use_type_invariant(self);
            use_type_invariant(rhs);
            lemma_small_mod(le_value(self.repr@), pallas_modulus());
            lemma_small_mod(le_value(rhs.repr@), pallas_modulus());
        }
        let repr = encoded_difference(&self.repr, &rhs.repr);
        proof {
            lemma_small_mod(le_value(repr@), pallas_modulus());
        }
        Fp { repr }
    }

    fn mul(&self, rhs: &Self) -> (r: Self) {
        proof {
            use_type_invariant(self);
            use_type_invariant(rhs);
            lemma_small_mod(le_value(self.repr@), pallas_modulus());
            lemma_small_mod(le_value(rhs.repr@), pallas_modulus());
        }
        let repr = encoded_product(&self.repr, &rhs.repr);
        proof {
            lemma_small_mod(le_value(repr@), pallas_modulus());
        }
        Fp { repr }
    }

    fn is_zero(&self) -> (b: bool) {
        let mut i: usize = 0;
        while i < 32
            invariant
                i <= 32,
                forall|j: int| 0 <= j < i ==> self.repr@[j] == 0,
            decreases 32 - i,
        {
            if self.repr[i] != 0 {
                proof {
                    use_type_invariant(self);
                    lemma_zero_value(self.repr@);
                    lemma_small_mod(le_value(self.repr@), pallas_modulus());
                }
                return false;
            }
            i += 1;
        }
        proof {
            lemma_zero_value(self.repr@);
        }
        true
    }
}

} // verus!
