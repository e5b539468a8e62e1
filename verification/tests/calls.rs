use num_bigint::BigInt;
use value_marshal::adapter::{
    bind_type_params, call_i128_pre_matrix_to_uint_n, call_uint_n_pre_matrix_to_i128,
    modulus_and_domain, NativeParam, TypeParam,
};
use value_marshal::codec::{can_decode, can_encode, from_bits, to_bits};
use value_marshal::context::{ContextRef, DomainType, QualifiedType, Stack, StageType};
use value_marshal::modulus::NatType;
use value_marshal::shape::Native;
use value_marshal::value::Value;

fn field(m: i128) -> NatType {
    NatType::with_modulus(BigInt::from(m)).unwrap()
}

#[test]
fn lower_domains_are_visible_in_higher_ones() {
    let all = [DomainType::Public, DomainType::Verifier, DomainType::Prover];
    for (i, a) in all.iter().enumerate() {
        for (j, b) in all.iter().enumerate() {
            assert_eq!(a.visible_in(*b), i <= j);
        }
    }
}

#[test]
fn the_context_carries_the_running_domain() {
    let ctx = ContextRef::new(DomainType::Verifier);
    assert_eq!(ctx.current_domain, DomainType::Verifier);
    assert!(ctx.unknown().is_unknown());
    assert!(Stack::new().slots.is_empty());
}

#[test]
fn a_modulus_must_be_positive() {
    assert!(NatType::with_modulus(BigInt::from(0)).is_none());
    assert!(NatType::with_modulus(BigInt::from(-17)).is_none());
    let m = field(17);
    assert_eq!(m.modulus(), Some(&BigInt::from(17)));
    assert_eq!(field(1).modulus(), Some(&BigInt::from(1)));
    assert!(NatType::unbounded().modulus().is_none());
}

#[test]
fn the_descriptor_reads_and_reduces() {
    let m = field(17);
    assert_eq!(m.to_bigint(&BigInt::from(5).write()), BigInt::from(5));
    assert_eq!(m.from_bigint(&BigInt::from(40)).as_int(), &BigInt::from(6));
    assert_eq!(m.from_bigint(&BigInt::from(-40)).as_int(), &BigInt::from(11));
    assert_eq!(m.from_bigint(&BigInt::from(17)).as_int(), &BigInt::from(0));
    let huge: BigInt = BigInt::from(1u8) << 150usize;
    assert_eq!(m.from_bigint(&huge).as_int(), &(huge.clone() % 17));
    let free = NatType::unbounded();
    assert_eq!(free.from_bigint(&huge).as_int(), &huge);
    assert_eq!(free.from_bigint(&BigInt::from(-40)).as_int(), &BigInt::from(-40));
}

#[test]
fn unqualified_type_parameters_bind_nothing() {
    let params = vec![
        TypeParam::Unqualified,
        TypeParam::Nat(field(7)),
        TypeParam::Stage(StageType::Pre),
        TypeParam::Unqualified,
        TypeParam::Domain(DomainType::Prover),
        TypeParam::Qualified(QualifiedType::Committed),
    ];
    let bound = bind_type_params(&params);
    assert_eq!(bound.len(), 4);
    assert!(matches!(bound[0], NativeParam::Nat(m) if m.modulus() == Some(&BigInt::from(7))));
    assert!(matches!(bound[1], NativeParam::Stage(StageType::Pre)));
    assert!(matches!(bound[2], NativeParam::Domain(DomainType::Prover)));
    assert!(matches!(bound[3], NativeParam::Qualified(QualifiedType::Committed)));
    assert!(bind_type_params(&vec![]).is_empty());
    assert!(bind_type_params(&vec![TypeParam::Unqualified]).is_empty());
}

#[test]
fn the_matrix_functions_take_a_modulus_then_a_domain() {
    let good = vec![
        TypeParam::Nat(field(17)),
        TypeParam::Unqualified,
        TypeParam::Domain(DomainType::Verifier),
    ];
    let (m, d) = modulus_and_domain(&good).unwrap();
    assert_eq!(m.modulus(), Some(&BigInt::from(17)));
    assert_eq!(d, DomainType::Verifier);
    let swapped = vec![TypeParam::Domain(DomainType::Verifier), TypeParam::Nat(field(17))];
    assert!(modulus_and_domain(&swapped).is_none());
    let short = vec![TypeParam::Nat(field(17))];
    assert!(modulus_and_domain(&short).is_none());
    let long = vec![
        TypeParam::Nat(field(17)),
        TypeParam::Domain(DomainType::Verifier),
        TypeParam::Stage(StageType::Post),
    ];
    assert!(modulus_and_domain(&long).is_none());
    assert!(modulus_and_domain(&vec![]).is_none());
}

#[test]
fn a_call_site_decodes_and_encodes() {
    let ctx = ContextRef::new(DomainType::Prover);
    let mut stack = Stack::new();
    let params = vec![TypeParam::Nat(field(17)), TypeParam::Domain(DomainType::Prover)];
    let matrix = vec![
        vec![BigInt::from(3), BigInt::from(9), BigInt::from(16)],
        vec![BigInt::from(8)],
    ];
    let args = vec![matrix.clone().write()];
    let decoded = call_uint_n_pre_matrix_to_i128(&ctx, &mut stack, &params, &args);
    let bits: Vec<Vec<u128>> = Native::read(&decoded);
    let signed: Vec<Vec<i128>> =
        bits.iter().map(|row| row.iter().map(|u| from_bits(*u)).collect()).collect();
    assert_eq!(signed, vec![vec![3, -8, -1], vec![-9]]);
    let encoded = call_i128_pre_matrix_to_uint_n(&ctx, &mut stack, &params, &vec![decoded]);
    let back: Vec<Vec<BigInt>> = Native::read(&encoded);
    assert_eq!(back, matrix);
}

#[test]
fn a_hidden_call_site_yields_placeholders() {
    let ctx = ContextRef::new(DomainType::Public);
    let mut stack = Stack::new();
    let params = vec![TypeParam::Nat(field(17)), TypeParam::Domain(DomainType::Prover)];
    let args = vec![Value::list(vec![Value::list(vec![Value::Unknown, Value::Unknown])])];
    let decoded = call_uint_n_pre_matrix_to_i128(&ctx, &mut stack, &params, &args);
    assert_eq!(Vec::<Vec<u128>>::read(&decoded), vec![vec![0, 0]]);
    let encoded = call_i128_pre_matrix_to_uint_n(&ctx, &mut stack, &params, &args);
    assert_eq!(encoded.len(), 1);
    assert_eq!(encoded.item(0).len(), 2);
    assert!(encoded.item(0).item(0).is_unknown());
    assert!(encoded.item(0).item(1).is_unknown());
}

#[test]
fn decodability_is_decided_at_run_time() {
    let prover = ContextRef::new(DomainType::Prover);
    let public = ContextRef::new(DomainType::Public);
    let m = field(17);
    let d = DomainType::Verifier;
    let good = vec![vec![BigInt::from(3), BigInt::from(9)].write()];
    assert!(can_decode(&prover, &m, d, &good));
    assert!(can_decode(&public, &m, d, &good));
    let unknowns = vec![Value::list(vec![Value::Unknown])];
    assert!(!can_decode(&prover, &m, d, &unknowns));
    assert!(can_decode(&public, &m, d, &unknowns));
    let not_rows = vec![BigInt::from(3).write()];
    assert!(!can_decode(&prover, &m, d, &not_rows));
    assert!(!can_decode(&public, &m, d, &not_rows));
    let tuple_rows = vec![(1u64, 2u64).write()];
    assert!(!can_decode(&public, &m, d, &tuple_rows));
    assert!(!can_decode(&prover, &NatType::unbounded(), d, &good));
    assert!(can_decode(&public, &NatType::unbounded(), d, &good));
    let wide: BigInt = BigInt::from(1u8) << 127usize;
    let too_wide = NatType::with_modulus(wide.clone()).unwrap();
    assert!(!can_decode(&prover, &too_wide, d, &good));
    let widest = NatType::with_modulus(wide.clone() - 1).unwrap();
    assert!(can_decode(&prover, &widest, d, &good));
    let wide_element = vec![vec![wide.clone()].write()];
    assert!(!can_decode(&prover, &m, d, &wide_element));
    let lowest = vec![vec![-wide].write()];
    assert!(can_decode(&prover, &m, d, &lowest));
    assert!(can_decode(&prover, &m, d, &vec![]));
}

#[test]
fn encodability_is_decided_at_run_time() {
    let prover = ContextRef::new(DomainType::Prover);
    let public = ContextRef::new(DomainType::Public);
    let d = DomainType::Verifier;
    let good = vec![vec![to_bits(-1), to_bits(5)].write(), vec![0u128].write()];
    assert!(can_encode(&prover, d, &good));
    assert!(can_encode(&public, d, &good));
    let narrow = vec![vec![1u64].write()];
    assert!(!can_encode(&prover, d, &narrow));
    assert!(can_encode(&public, d, &narrow));
    let not_rows = vec![1u128.write()];
    assert!(!can_encode(&prover, d, &not_rows));
    assert!(!can_encode(&public, d, &not_rows));
    assert!(can_encode(&prover, d, &vec![]));
}
