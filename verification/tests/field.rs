use calculator_circuit::field::Field;
use calculator_circuit::pallas::Fp;
use calculator_circuit::value::Value;
use halo2_proofs::pasta::group::ff::PrimeField;

/// The canonical encoding of `p - 1`, least significant byte first.
fn max_repr() -> [u8; 32] {
    [
        0x00, 0x00, 0x00, 0x00, 0xed, 0x30, 0x2d, 0x99, 0x1b, 0xf9, 0x4c, 0x09, 0xfc, 0x98, 0x46,
        0x22, 0x00, 0x00, 0x00, 0x00, 0x00, 0x00, 0x00, 0x00, 0x00, 0x00, 0x00, 0x00, 0x00, 0x00,
        0x00, 0x40,
    ]
}

/// The encoding of `p` itself, which is not canonical.
fn modulus_repr() -> [u8; 32] {
    let mut bytes = max_repr();
    bytes[0] = 0x01;
    bytes
}

fn repr_of(value: u64) -> [u8; 32] {
    let mut bytes = [0u8; 32];
    bytes[..8].copy_from_slice(&value.to_le_bytes());
    bytes
}

#[test]
fn from_u64_encodes_the_number() {
    assert_eq!(Fp::from_u64(0).to_repr(), [0u8; 32]);
    assert_eq!(Fp::from_u64(8).to_repr(), repr_of(8));
    assert_eq!(Fp::from_u64(u64::MAX).to_repr(), repr_of(u64::MAX));
    assert_eq!(
        Fp::from_u64(0x0123_4567_89ab_cdef).to_repr(),
        halo2_proofs::pasta::Fp::from(0x0123_4567_89ab_cdef).to_repr()
    );
}

#[test]
fn zero_and_one_are_the_identities() {
    assert_eq!(Fp::zero(), Fp::from_u64(0));
    assert_eq!(Fp::one(), Fp::from_u64(1));
    assert!(Fp::zero().is_zero());
    assert!(!Fp::one().is_zero());
    let x = Fp::from_u64(1234);
    assert_eq!(x.add(&Fp::zero()), x);
    assert_eq!(x.mul(&Fp::one()), x);
    assert_eq!(x.mul(&Fp::zero()), Fp::zero());
}

#[test]
fn add_is_addition_in_the_field() {
    assert_eq!(Fp::from_u64(3).add(&Fp::from_u64(5)), Fp::from_u64(8));
    assert_eq!(Fp::from_u64(3).add(&Fp::from_u64(5)).to_repr(), repr_of(8));
    let big = Fp::from_u64(u64::MAX).add(&Fp::from_u64(1));
    let mut expected = [0u8; 32];
    expected[8] = 1;
    assert_eq!(big.to_repr(), expected);
}

#[test]
fn add_wraps_at_the_modulus() {
    let max = Fp::from_repr(max_repr()).unwrap();
    assert_eq!(max.add(&Fp::one()), Fp::zero());
    assert!(max.add(&Fp::one()).is_zero());
    assert_eq!(max.add(&Fp::from_u64(6)), Fp::from_u64(5));
    assert_eq!(max.add(&max).to_repr(), {
        let mut bytes = max_repr();
        bytes[0] = 0xff;
        bytes[1] = 0xff;
        bytes[2] = 0xff;
        bytes[3] = 0xff;
        bytes[4] = 0xec;
        bytes
    });
}

#[test]
fn sub_is_subtraction_in_the_field() {
    assert_eq!(Fp::from_u64(8).sub(&Fp::from_u64(5)), Fp::from_u64(3));
    assert_eq!(Fp::from_u64(5).sub(&Fp::from_u64(5)), Fp::zero());
    assert_eq!(Fp::zero().sub(&Fp::one()).to_repr(), max_repr());
    assert_eq!(Fp::from_u64(3).sub(&Fp::from_u64(5)).add(&Fp::from_u64(2)), Fp::zero());
}

#[test]
fn mul_is_multiplication_in_the_field() {
    assert_eq!(Fp::from_u64(6).mul(&Fp::from_u64(7)), Fp::from_u64(42));
    let max = Fp::from_repr(max_repr()).unwrap();
    assert_eq!(max.mul(&max), Fp::one());
    assert_eq!(max.mul(&Fp::from_u64(2)), Fp::zero().sub(&Fp::from_u64(2)));
    let square = Fp::from_u64(1 << 40).mul(&Fp::from_u64(1 << 40));
    let mut expected = [0u8; 32];
    expected[10] = 1;
    assert_eq!(square.to_repr(), expected);
}

#[test]
fn arithmetic_agrees_with_the_pasta_field() {
    let pairs = [(3u64, 5u64), (0, 0), (u64::MAX, u64::MAX), (17, 1 << 63), (12345, 678)];
    for (x, y) in pairs {
        let (a, b) = (Fp::from_u64(x), Fp::from_u64(y));
        let (pa, pb) = (halo2_proofs::pasta::Fp::from(x), halo2_proofs::pasta::Fp::from(y));
        assert_eq!(a.add(&b).to_repr(), (pa + pb).to_repr());
        assert_eq!(a.sub(&b).to_repr(), (pa - pb).to_repr());
        assert_eq!(a.mul(&b).to_repr(), (pa * pb).to_repr());
    }
}

#[test]
fn from_repr_takes_canonical_encodings_only() {
    assert_eq!(Fp::from_repr(repr_of(8)), Some(Fp::from_u64(8)));
    assert_eq!(Fp::from_repr(max_repr()).map(|x| x.to_repr()), Some(max_repr()));
    assert_eq!(Fp::from_repr(modulus_repr()), None);
    assert_eq!(Fp::from_repr([0xff; 32]), None);
}

#[test]
fn is_zero_tells_zero_from_the_rest() {
    assert!(Fp::from_u64(0).is_zero());
    assert!(!Fp::from_u64(1).is_zero());
    assert!(!Fp::from_u64(1 << 40).is_zero());
    assert!(!Fp::from_repr(max_repr()).unwrap().is_zero());
    assert!(Fp::from_u64(7).sub(&Fp::from_u64(7)).is_zero());
}

#[test]
fn known_and_unknown_values() {
    assert_eq!(Value::known(7u8).into_option(), Some(7));
    assert_eq!(Value::<u8>::unknown().into_option(), None);
}

#[test]
fn zip_is_known_when_both_are() {
    assert_eq!(Value::known(1u8).zip(Value::known(2u16)).into_option(), Some((1, 2)));
    assert_eq!(Value::known(1u8).zip(Value::<u16>::unknown()).into_option(), None);
    assert_eq!(Value::<u8>::unknown().zip(Value::known(2u16)).into_option(), None);
    assert_eq!(Value::<u8>::unknown().zip(Value::<u16>::unknown()).into_option(), None);
}

#[test]
fn map_applies_to_known_values_only() {
    assert_eq!(Value::known(20u32).map(|x| x + 1).into_option(), Some(21));
    let mut called = false;
    let mapped = Value::<u32>::unknown().map(|x| {
        called = true;
        x + 1
    });
    assert_eq!(mapped.into_option(), None);
    assert!(!called);
}
