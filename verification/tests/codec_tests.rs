use jail::codec::{decode, encode};
use jail::param::{DeclaredType, Ipv4Addr, Ipv6Addr, TypeTag, Value};
use jail::JailError;

fn v4(a: u8, b: u8, c: u8, d: u8) -> Ipv4Addr {
    Ipv4Addr::new([a, b, c, d])
}

fn v6_loopback_like(last: u8) -> Ipv6Addr {
    let mut o = [0u8; 16];
    o[0] = 0xfe;
    o[1] = 0x80;
    o[15] = last;
    Ipv6Addr::new(o)
}

fn round_trip(v: &Value, t: &DeclaredType) -> Value {
    let bytes = encode(v, t).expect("encode should succeed");
    decode(&bytes, t).expect("decode should succeed")
}

#[test]
fn round_trip_int() {
    assert_eq!(round_trip(&Value::Int(1), &DeclaredType::Int), Value::Int(1));
    assert_eq!(round_trip(&Value::Int(0), &DeclaredType::Int), Value::Int(0));
    assert_eq!(round_trip(&Value::Int(-1), &DeclaredType::Int), Value::Int(-1));
    assert_eq!(
        round_trip(&Value::Int(i32::MIN), &DeclaredType::Int),
        Value::Int(i32::MIN)
    );
    assert_eq!(
        round_trip(&Value::Int(i32::MAX), &DeclaredType::Int),
        Value::Int(i32::MAX)
    );
}

#[test]
fn round_trip_s64() {
    assert_eq!(
        round_trip(&Value::S64(-5_000_000_000), &DeclaredType::S64),
        Value::S64(-5_000_000_000)
    );
    assert_eq!(
        round_trip(&Value::S64(i64::MIN), &DeclaredType::S64),
        Value::S64(i64::MIN)
    );
}

#[test]
fn round_trip_u32_u64() {
    assert_eq!(
        round_trip(&Value::U32(u32::MAX), &DeclaredType::U32),
        Value::U32(u32::MAX)
    );
    assert_eq!(
        round_trip(&Value::U64(u64::MAX), &DeclaredType::U64),
        Value::U64(u64::MAX)
    );
}

#[test]
fn round_trip_bool() {
    assert_eq!(
        round_trip(&Value::Bool(true), &DeclaredType::Bool),
        Value::Bool(true)
    );
    assert_eq!(
        round_trip(&Value::Bool(false), &DeclaredType::Bool),
        Value::Bool(false)
    );
}

#[test]
fn round_trip_string() {
    let t = DeclaredType::String { max_len: 32 };
    assert_eq!(
        round_trip(&Value::String(String::from("t1.test")), &t),
        Value::String(String::from("t1.test"))
    );
    assert_eq!(
        round_trip(&Value::String(String::new()), &t),
        Value::String(String::new())
    );
}

#[test]
fn round_trip_struct_blob() {
    let t = DeclaredType::Struct { max_len: 8 };
    let blob = vec![1u8, 2, 3, 0, 255];
    assert_eq!(
        round_trip(&Value::Struct(blob.clone()), &t),
        Value::Struct(blob)
    );
}

#[test]
fn round_trip_ipv4_list() {
    let t = DeclaredType::Ipv4Addrs { max_len: 16 };
    let addrs = vec![v4(127, 0, 1, 2), v4(10, 0, 0, 1)];
    assert_eq!(
        round_trip(&Value::Ipv4Addrs(addrs.clone()), &t),
        Value::Ipv4Addrs(addrs)
    );
    assert_eq!(
        round_trip(&Value::Ipv4Addrs(Vec::new()), &t),
        Value::Ipv4Addrs(Vec::new())
    );
}

#[test]
fn round_trip_ipv6_list() {
    let t = DeclaredType::Ipv6Addrs { max_len: 64 };
    let addrs = vec![v6_loopback_like(2), v6_loopback_like(3)];
    assert_eq!(
        round_trip(&Value::Ipv6Addrs(addrs.clone()), &t),
        Value::Ipv6Addrs(addrs)
    );
}

#[test]
fn int_encodes_little_endian() {
    let b = encode(&Value::Int(1), &DeclaredType::Int).unwrap();
    assert_eq!(b, vec![1u8, 0, 0, 0]);
    let m = encode(&Value::Int(-1), &DeclaredType::Int).unwrap();
    assert_eq!(m, vec![255u8, 255, 255, 255]);
}

#[test]
fn string_encodes_terminated_and_padded() {
    let t = DeclaredType::String { max_len: 4 };
    let b = encode(&Value::String(String::from("ab")), &t).unwrap();
    assert_eq!(b, vec![97u8, 98, 0, 0, 0]);
}

#[test]
fn type_mismatch_is_rejected() {
    let r = encode(&Value::Int(1), &DeclaredType::String { max_len: 8 });
    match r {
        Err(JailError::UnexpectedParameterType { expected, got }) => {
            assert_eq!(expected, TypeTag::String);
            assert_eq!(got, TypeTag::Int);
        }
        other => panic!("expected a type mismatch, got {:?}", other),
    }
}

#[test]
fn string_at_capacity_fits_one_past_fails() {
    let t = DeclaredType::String { max_len: 4 };
    let at_max = encode(&Value::String(String::from("abcd")), &t).unwrap();
    assert_eq!(at_max, vec![97u8, 98, 99, 100, 0]);
    let over = encode(&Value::String(String::from("abcde")), &t);
    assert!(matches!(over, Err(JailError::SerializeFailed)));
}

#[test]
fn struct_over_capacity_fails() {
    let t = DeclaredType::Struct { max_len: 2 };
    let r = encode(&Value::Struct(vec![1u8, 2, 3]), &t);
    assert!(matches!(r, Err(JailError::SerializeFailed)));
}

#[test]
fn decode_rejects_wrong_scalar_width() {
    let r = decode(&[1u8, 0, 0], &DeclaredType::Int);
    assert!(matches!(r, Err(JailError::ParameterUnpackError)));
    let r64 = decode(&[1u8, 0, 0, 0], &DeclaredType::U64);
    assert!(matches!(r64, Err(JailError::ParameterUnpackError)));
}

#[test]
fn decode_rejects_invalid_utf8() {
    let t = DeclaredType::String { max_len: 8 };
    let r = decode(&[0xffu8, 0xfe, 0], &t);
    assert!(matches!(r, Err(JailError::ParameterUnpackError)));
}

#[test]
fn decode_trims_at_first_terminator() {
    let t = DeclaredType::String { max_len: 8 };
    let r = decode(&[104u8, 105, 0, 120, 121, 0], &t).unwrap();
    assert_eq!(r, Value::String(String::from("hi")));
}

#[test]
fn decode_rejects_partial_address() {
    let t = DeclaredType::Ipv4Addrs { max_len: 16 };
    let r = decode(&[127u8, 0, 0, 1, 10], &t);
    assert!(matches!(r, Err(JailError::ParameterUnpackError)));
    let t6 = DeclaredType::Ipv6Addrs { max_len: 64 };
    let r6 = decode(&[0u8; 17], &t6);
    assert!(matches!(r6, Err(JailError::ParameterUnpackError)));
}

#[test]
fn decode_keeps_buffer_order() {
    let t = DeclaredType::Ipv4Addrs { max_len: 16 };
    let r = decode(&[127u8, 0, 1, 2, 10, 0, 0, 1], &t).unwrap();
    assert_eq!(r, Value::Ipv4Addrs(vec![v4(127, 0, 1, 2), v4(10, 0, 0, 1)]));
}

#[test]
fn bool_decodes_any_nonzero_as_true() {
    let r = decode(&[2u8, 0, 0, 0], &DeclaredType::Bool).unwrap();
    assert_eq!(r, Value::Bool(true));
    let z = decode(&[0u8, 0, 0, 0], &DeclaredType::Bool).unwrap();
    assert_eq!(z, Value::Bool(false));
}
