use num_bigint::BigInt;
use value_marshal::codec::{
    decode, encode, from_bits, i128_pre_matrix_to_uint_n, to_bits, uint_n_pre_matrix_to_i128,
};
use value_marshal::context::{ContextRef, DomainType, Stack};
use value_marshal::modulus::NatType;
use value_marshal::shape::Native;
use value_marshal::value::Value;

fn field(m: i128) -> NatType {
    NatType::with_modulus(BigInt::from(m)).unwrap()
}

fn residue_matrix(rows: &[&[i128]]) -> Vec<Value> {
    rows.iter()
        .map(|row| Value::list(row.iter().map(|x| BigInt::from(*x).write()).collect()))
        .collect()
}

fn bits_matrix(rows: &[&[i128]]) -> Vec<Value> {
    rows.iter()
        .map(|row| Value::list(row.iter().map(|x| to_bits(*x).write()).collect()))
        .collect()
}

fn signed_of_matrix(yss: &[Value]) -> Vec<Vec<i128>> {
    yss.iter()
        .map(|row| row.items().iter().map(|y| from_bits(u128::read(y))).collect())
        .collect()
}

fn ints_of_matrix(yss: &[Value]) -> Vec<Vec<BigInt>> {
    yss.iter()
        .map(|row| row.items().iter().map(|y| BigInt::read(y)).collect())
        .collect()
}

#[test]
fn decode_centers_residues_of_seventeen() {
    assert_eq!(decode(17, 3), 3);
    assert_eq!(decode(17, 9), -8);
    assert_eq!(decode(17, 16), -1);
    assert_eq!(decode(17, 0), 0);
    assert_eq!(decode(17, 7), 7);
    assert_eq!(decode(17, 8), -9);
}

#[test]
fn decode_of_an_even_modulus_splits_at_the_half() {
    assert_eq!(decode(16, 7), 7);
    assert_eq!(decode(16, 8), -8);
    assert_eq!(decode(16, 15), -1);
    assert_eq!(decode(1, 0), -1);
    assert_eq!(decode(2, 0), 0);
    assert_eq!(decode(2, 1), -1);
}

#[test]
fn decode_at_the_largest_modulus() {
    assert_eq!(decode(i128::MAX, i128::MAX - 1), -1);
    assert_eq!(decode(i128::MAX, 0), 0);
    assert_eq!(decode(i128::MAX, i128::MAX / 2), -(i128::MAX / 2) - 1);
    assert_eq!(decode(i128::MAX, i128::MAX / 2 - 1), i128::MAX / 2 - 1);
}

#[test]
fn encode_reduces_modulo_seventeen() {
    let m = field(17);
    assert_eq!(encode(&m, -1).as_int(), &BigInt::from(16));
    assert_eq!(encode(&m, 16).as_int(), &BigInt::from(16));
    assert_eq!(encode(&m, 17).as_int(), &BigInt::from(0));
    assert_eq!(encode(&m, -17).as_int(), &BigInt::from(0));
    assert_eq!(encode(&m, -18).as_int(), &BigInt::from(16));
    assert_eq!(encode(&m, 0).as_int(), &BigInt::from(0));
    assert_eq!(encode(&m, 35).as_int(), &BigInt::from(1));
}

#[test]
fn encode_without_a_modulus_keeps_the_integer() {
    let m = NatType::unbounded();
    assert_eq!(encode(&m, -5).as_int(), &BigInt::from(-5));
    assert_eq!(encode(&m, i128::MIN).as_int(), &BigInt::from(i128::MIN));
    assert_eq!(encode(&m, i128::MAX).as_int(), &BigInt::from(i128::MAX));
}

#[test]
fn encode_under_a_modulus_beyond_the_machine_width() {
    let big: BigInt = BigInt::from(1u8) << 200usize;
    let m = NatType::with_modulus(big.clone()).unwrap();
    assert_eq!(encode(&m, -1).as_int(), &(big - 1));
    assert_eq!(encode(&m, 5).as_int(), &BigInt::from(5));
}

#[test]
fn encode_undoes_decode_for_every_residue() {
    for modulus in 1..40i128 {
        let m = field(modulus);
        for x in 0..modulus {
            let y = decode(modulus, x);
            assert_eq!(encode(&m, y).as_int(), &BigInt::from(x));
        }
    }
}

#[test]
fn bits_are_twos_complement() {
    assert_eq!(to_bits(0), 0);
    assert_eq!(to_bits(1), 1);
    assert_eq!(to_bits(-1), u128::MAX);
    assert_eq!(to_bits(-8), u128::MAX - 7);
    assert_eq!(to_bits(i128::MIN), 1u128 << 127);
    assert_eq!(to_bits(i128::MAX), (1u128 << 127) - 1);
    assert_eq!(from_bits(u128::MAX), -1);
    assert_eq!(from_bits(1u128 << 127), i128::MIN);
    assert_eq!(from_bits((1u128 << 127) - 1), i128::MAX);
    assert_eq!(from_bits(0), 0);
    for y in [-3i128, 0, 77, i128::MIN, i128::MAX] {
        assert_eq!(from_bits(to_bits(y)), y);
        assert_eq!(to_bits(y), y as u128);
    }
}

#[test]
fn visible_matrix_decodes_to_centered_values() {
    let ctx = ContextRef::new(DomainType::Prover);
    let mut stack = Stack::new();
    let m = field(17);
    let xss = residue_matrix(&[&[3, 9, 16], &[0, 8, 7]]);
    let yss = uint_n_pre_matrix_to_i128(&ctx, &mut stack, &m, DomainType::Prover, &xss);
    assert_eq!(signed_of_matrix(&yss), vec![vec![3, -8, -1], vec![0, -9, 7]]);
    assert_eq!(u128::read(yss[0].item(1)), u128::MAX - 7);
    assert!(stack.slots.is_empty());
}

#[test]
fn hidden_matrix_of_unknowns_decodes_to_zeros() {
    let ctx = ContextRef::new(DomainType::Verifier);
    let mut stack = Stack::new();
    let m = field(17);
    let row = || Value::list(vec![Value::Unknown, Value::Unknown, Value::Unknown]);
    let xss = vec![row(), row()];
    let yss = uint_n_pre_matrix_to_i128(&ctx, &mut stack, &m, DomainType::Prover, &xss);
    assert_eq!(yss.len(), 2);
    assert_eq!(signed_of_matrix(&yss), vec![vec![0, 0, 0], vec![0, 0, 0]]);
}

#[test]
fn hidden_matrix_decodes_to_zeros_whatever_it_holds() {
    let ctx = ContextRef::new(DomainType::Public);
    let mut stack = Stack::new();
    let m = NatType::unbounded();
    let xss = vec![
        Value::list(vec![true.write(), "text".to_string().write()]),
        Value::list(vec![]),
        Value::list(vec![Value::Unit]),
    ];
    let yss = uint_n_pre_matrix_to_i128(&ctx, &mut stack, &m, DomainType::Verifier, &xss);
    assert_eq!(signed_of_matrix(&yss), vec![vec![0, 0], vec![], vec![0]]);
}

#[test]
fn visible_matrix_encodes_to_residues() {
    let ctx = ContextRef::new(DomainType::Prover);
    let mut stack = Stack::new();
    let m = field(17);
    let xss = bits_matrix(&[&[1, -1, 0], &[8, -8, 2]]);
    let yss = i128_pre_matrix_to_uint_n(&ctx, &mut stack, &m, DomainType::Verifier, &xss);
    let expected: Vec<Vec<BigInt>> = vec![
        vec![BigInt::from(1), BigInt::from(16), BigInt::from(0)],
        vec![BigInt::from(8), BigInt::from(9), BigInt::from(2)],
    ];
    assert_eq!(ints_of_matrix(&yss), expected);
}

#[test]
fn hidden_matrix_encodes_to_unknowns() {
    let ctx = ContextRef::new(DomainType::Public);
    let mut stack = Stack::new();
    let m = field(17);
    let xss = bits_matrix(&[&[1, -1, 0], &[8, -8, 2]]);
    let yss = i128_pre_matrix_to_uint_n(&ctx, &mut stack, &m, DomainType::Prover, &xss);
    assert_eq!(yss.len(), 2);
    for row in &yss {
        assert_eq!(row.len(), 3);
        for j in 0..3 {
            assert!(row.item(j).is_unknown());
        }
    }
}

#[test]
fn ragged_matrices_keep_their_shape() {
    let ctx = ContextRef::new(DomainType::Prover);
    let mut stack = Stack::new();
    let m = field(5);
    let xss = residue_matrix(&[&[4], &[], &[0, 1, 2, 3, 4]]);
    let yss = uint_n_pre_matrix_to_i128(&ctx, &mut stack, &m, DomainType::Public, &xss);
    assert_eq!(signed_of_matrix(&yss), vec![vec![-1], vec![], vec![0, 1, -3, -2, -1]]);
    let zss = i128_pre_matrix_to_uint_n(&ctx, &mut stack, &m, DomainType::Public, &yss);
    let back: Vec<Vec<BigInt>> = vec![
        vec![BigInt::from(4)],
        vec![],
        (0..5).map(BigInt::from).collect(),
    ];
    assert_eq!(ints_of_matrix(&zss), back);
    let none: Vec<Value> = Vec::new();
    assert!(uint_n_pre_matrix_to_i128(&ctx, &mut stack, &m, DomainType::Public, &none).is_empty());
    assert!(i128_pre_matrix_to_uint_n(&ctx, &mut stack, &m, DomainType::Public, &none).is_empty());
}

#[test]
fn matrix_round_trip_at_the_largest_modulus() {
    let ctx = ContextRef::new(DomainType::Verifier);
    let mut stack = Stack::new();
    let m = field(i128::MAX);
    let xss = residue_matrix(&[&[0, 1, i128::MAX / 2, i128::MAX / 2 + 1, i128::MAX - 1]]);
    let yss = uint_n_pre_matrix_to_i128(&ctx, &mut stack, &m, DomainType::Verifier, &xss);
    let zss = i128_pre_matrix_to_uint_n(&ctx, &mut stack, &m, DomainType::Verifier, &yss);
    assert_eq!(ints_of_matrix(&zss), ints_of_matrix(&xss));
}
