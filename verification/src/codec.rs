//! Encoding typed values into the kernel's untyped byte buffers and
//! decoding such buffers back, driven by the declared type.
//!
//! Scalars travel as fixed-width little-endian words. A string is its
//! UTF-8 bytes, a terminator, and zero padding up to the declared
//! capacity. A structure blob passes through byte for byte. An address
//! list is its elements' octets concatenated in order; its length alone
//! tells how many addresses the buffer holds.

use vstd::prelude::*;
use vstd::bytes::*;
use vstd::utf8::*;
use vstd::string::StringSliceAdditionalSpecFns;
use vstd::string::StrSliceExecFns;
use vstd::slice::slice_subrange;
use vstd::slice::slice_to_vec;
use crate::JailError;
use crate::param::DeclaredType;
use crate::param::TypeTag;
use crate::param::Ipv4Addr;
use crate::param::Ipv6Addr;
use crate::param::Value;
use crate::param::ValueModel;

verus! {

/// `n` zero bytes.
pub open spec fn zeros(n: int) -> Seq<u8> {
    Seq::new(n as nat, |i: int| 0u8)
}

/// The concatenation of a sequence of byte sequences, in order.
pub open spec fn flat(a: Seq<Seq<u8>>) -> Seq<u8>
    decreases a.len(),
{
    if a.len() == 0 {
        Seq::empty()
    } else {
        flat(a.drop_last()) + a.last()
    }
}

/// The index of the first zero byte, or the length when there is none.
pub open spec fn first_nul(b: Seq<u8>) -> int
    decreases b.len(),
{
    if b.len() == 0 {
        0
    } else if b[0] == 0 {
        0
    } else {
        1 + first_nul(b.drop_first())
    }
}

/// No byte of `s` is zero.
pub open spec fn has_no_nul(s: Seq<u8>) -> bool {
    forall|j: int| 0 <= j < s.len() ==> s[j] != 0
}

/// The unsigned word with the same 32 bits as `x`.
pub open spec fn u32_of_i32(x: i32) -> u32 {
    if x >= 0 {
        x as u32
    } else {
        (x + 0x1_0000_0000) as u32
    }
}

/// The signed word with the same 32 bits as `u`.
pub open spec fn i32_of_u32(u: u32) -> i32 {
    if u < 0x8000_0000 {
        u as i32
    } else {
        (u - 0x1_0000_0000) as i32
    }
}

/// The unsigned word with the same 64 bits as `x`.
pub open spec fn u64_of_i64(x: i64) -> u64 {
    if x >= 0 {
        x as u64
    } else {
        (x + 0x1_0000_0000_0000_0000) as u64
    }
}

/// The signed word with the same 64 bits as `u`.
pub open spec fn i64_of_u64(u: u64) -> i64 {
    if u < 0x8000_0000_0000_0000 {
        u as i64
    } else {
        (u - 0x1_0000_0000_0000_0000) as i64
    }
}

/// The shape of a value model.
pub open spec fn model_tag(m: ValueModel) -> TypeTag {
    match m {
        ValueModel::Int(_) => TypeTag::Int,
        ValueModel::S64(_) => TypeTag::S64,
        ValueModel::U32(_) => TypeTag::U32,
        ValueModel::U64(_) => TypeTag::U64,
        ValueModel::Bool(_) => TypeTag::Bool,
        ValueModel::Str(_) => TypeTag::String,
        ValueModel::Blob(_) => TypeTag::Struct,
        ValueModel::V4(_) => TypeTag::Ipv4Addrs,
        ValueModel::V6(_) => TypeTag::Ipv6Addrs,
    }
}

/// A model an actual value can have: every address is whole.
pub open spec fn model_wf(m: ValueModel) -> bool {
    match m {
        ValueModel::V4(a) => forall|i: int| 0 <= i < a.len() ==> a[i].len() == 4,
        ValueModel::V6(a) => forall|i: int| 0 <= i < a.len() ==> a[i].len() == 16,
        _ => true,
    }
}

/// The value fits the capacity the declared type carries.
pub open spec fn spec_fits(m: ValueModel, t: DeclaredType) -> bool {
    match (m, t) {
        (ValueModel::Str(s), DeclaredType::String { max_len }) => encode_utf8(s).len() <= max_len,
        (ValueModel::Blob(b), DeclaredType::Struct { max_len }) => b.len() <= max_len,
        _ => true,
    }
}

/// The bytes that encode `m` against `t`, defined where the shapes match
/// and the value fits.
pub open spec fn spec_encode(m: ValueModel, t: DeclaredType) -> Seq<u8> {
    match m {
        ValueModel::Int(x) => spec_u32_to_le_bytes(u32_of_i32(x)),
        ValueModel::S64(x) => spec_u64_to_le_bytes(u64_of_i64(x)),
        ValueModel::U32(x) => spec_u32_to_le_bytes(x),
        ValueModel::U64(x) => spec_u64_to_le_bytes(x),
        ValueModel::Bool(b) => spec_u32_to_le_bytes(if b { 1u32 } else { 0u32 }),
        ValueModel::Str(s) => {
            let enc = encode_utf8(s);
            match t {
                DeclaredType::String { max_len } => enc + seq![0u8] + zeros(max_len - enc.len()),
                _ => enc,
            }
        },
        ValueModel::Blob(b) => b,
        ValueModel::V4(a) => flat(a),
        ValueModel::V6(a) => flat(a),
    }
}

/// The model a buffer decodes to against `t`, or `None` where the buffer
/// cannot hold a value of that type.
pub open spec fn spec_decode(b: Seq<u8>, t: DeclaredType) -> Option<ValueModel> {
    match t {
        DeclaredType::Int => if b.len() == 4 {
            Some(ValueModel::Int(i32_of_u32(spec_u32_from_le_bytes(b))))
        } else {
            None
        },
        DeclaredType::S64 => if b.len() == 8 {
            Some(ValueModel::S64(i64_of_u64(spec_u64_from_le_bytes(b))))
        } else {
            None
        },
        DeclaredType::U32 => if b.len() == 4 {
            Some(ValueModel::U32(spec_u32_from_le_bytes(b)))
        } else {
            None
        },
        DeclaredType::U64 => if b.len() == 8 {
            Some(ValueModel::U64(spec_u64_from_le_bytes(b)))
        } else {
            None
        },
        DeclaredType::Bool => if b.len() == 4 {
            Some(ValueModel::Bool(spec_u32_from_le_bytes(b) != 0))
        } else {
            None
        },
        DeclaredType::String { .. } => {
            let cut = b.take(first_nul(b));
            if valid_utf8(cut) {
                Some(ValueModel::Str(decode_utf8(cut)))
            } else {
                None
            }
        },
        DeclaredType::Struct { .. } => Some(ValueModel::Blob(b)),
        DeclaredType::Ipv4Addrs { .. } => if b.len() % 4 == 0 {
            Some(ValueModel::V4(Seq::new(b.len() / 4, |i: int| b.subrange(4 * i, 4 * i + 4))))
        } else {
            None
        },
        DeclaredType::Ipv6Addrs { .. } => if b.len() % 16 == 0 {
            Some(ValueModel::V6(Seq::new(b.len() / 16, |i: int| b.subrange(16 * i, 16 * i + 16))))
        } else {
            None
        },
    }
}

/// A string value without a zero byte in its encoding; only such a value
/// survives the wire, since decoding trims at the first terminator.
pub open spec fn no_interior_nul(m: ValueModel) -> bool {
    match m {
        ValueModel::Str(s) => has_no_nul(encode_utf8(s)),
        _ => true,
    }
}

proof fn lemma_first_nul_is(b: Seq<u8>, i: int)
    requires
        0 <= i <= b.len(),
        forall|j: int| 0 <= j < i ==> b[j] != 0,
        i < b.len() ==> b[i] == 0,
    ensures
        first_nul(b) == i,
    decreases i,
{
    if i == 0 {
        if b.len() > 0 {
            assert(b[0] == 0);
        }
    } else {
        assert(b[0] != 0);
        assert(b.drop_first().len() == b.len() - 1);
        assert(forall|j: int| 0 <= j < i - 1 ==> b.drop_first()[j] == b[j + 1] && b[j + 1] != 0);
        if i - 1 < b.drop_first().len() {
            assert(b.drop_first()[i - 1] == b[i]);
        }
        lemma_first_nul_is(b.drop_first(), i - 1);
    }
}

proof fn lemma_flat_len(a: Seq<Seq<u8>>, w: int)
    requires
        w >= 0,
        forall|i: int| 0 <= i < a.len() ==> a[i].len() == w,
    ensures
        flat(a).len() == a.len() * w,
    decreases a.len(),
{
    if a.len() == 0 {
    } else {
        lemma_flat_len(a.drop_last(), w);
        assert(a.last().len() == w);
        assert((a.len() - 1) * w + w == a.len() * w) by (nonlinear_arith);
    }
}

proof fn lemma_flat_index(a: Seq<Seq<u8>>, w: int, j: int)
    requires
        w >= 0,
        forall|i: int| 0 <= i < a.len() ==> a[i].len() == w,
        0 <= j < a.len(),
    ensures
        flat(a).len() == a.len() * w,
        j * w + w <= flat(a).len(),
        flat(a).subrange(j * w, j * w + w) == a[j],
    decreases a.len(),
{
    lemma_flat_len(a, w);
    assert(j * w + w <= a.len() * w) by (nonlinear_arith)
        requires 0 <= j < a.len(), w >= 0;
    let pre = a.drop_last();
    lemma_flat_len(pre, w);
    if j == a.len() - 1 {
        assert(j * w == flat(pre).len()) by (nonlinear_arith)
            requires flat(pre).len() == (a.len() - 1) * w, j == a.len() - 1;
        assert(flat(a) == flat(pre) + a.last());
        assert(flat(a).subrange(j * w, j * w + w) =~= a[j]);
    } else {
        lemma_flat_index(pre, w, j);
        assert(j * w + w <= flat(pre).len()) by (nonlinear_arith)
            requires flat(pre).len() == (a.len() - 1) * w, 0 <= j < a.len() - 1, w >= 0;
        assert(flat(a) == flat(pre) + a.last());
        assert(flat(a).subrange(j * w, j * w + w) =~= flat(pre).subrange(j * w, j * w + w));
        assert(pre[j] == a[j]);
    }
}

/// Round trip: a buffer encoded from a value decodes back to that value.
///
/// Holds for every value whose shape matches the declared type and which
/// fits the type's capacity; a string must not encode a zero byte, since
/// the wire format cannot carry bytes past a terminator.
pub proof fn lemma_round_trip(m: ValueModel, t: DeclaredType)
    requires
        model_wf(m),
        t.wf(),
        model_tag(m) == t.tag(),
        spec_fits(m, t),
        no_interior_nul(m),
    ensures
        spec_decode(spec_encode(m, t), t) == Some(m),
{
    lemma_auto_spec_u32_to_from_le_bytes();
    lemma_auto_spec_u64_to_from_le_bytes();
    match m {
        ValueModel::Int(x) => {
        },
        ValueModel::S64(x) => {
        },
        ValueModel::U32(x) => {
        },
        ValueModel::U64(x) => {
        },
        ValueModel::Bool(b) => {
        },
        ValueModel::Str(s) => {
            let enc = encode_utf8(s);
            match t {
                DeclaredType::String { max_len } => {
                    let buf = enc + seq![0u8] + zeros(max_len - enc.len());
                    assert(buf[enc.len() as int] == 0);
                    assert(forall|j: int| 0 <= j < enc.len() ==> buf[j] == enc[j] && enc[j] != 0);
                    lemma_first_nul_is(buf, enc.len() as int);
                    assert(buf.take(enc.len() as int) =~= enc);
                    encode_utf8_valid_utf8(s);
                    encode_utf8_decode_utf8(s);
                },
                _ => {
                },
            }
        },
        ValueModel::Blob(b) => {
        },
        ValueModel::V4(a) => {
            lemma_flat_len(a, 4);
            let b = flat(a);
            assert(b.len() % 4 == 0) by (nonlinear_arith)
                requires b.len() == a.len() * 4;
            assert(b.len() / 4 == a.len()) by (nonlinear_arith)
                requires b.len() == a.len() * 4;
            assert forall|i: int| 0 <= i < a.len() implies b.subrange(4 * i, 4 * i + 4) == a[i] by {
                lemma_flat_index(a, 4, i);
            }
            assert(Seq::new(b.len() / 4, |i: int| b.subrange(4 * i, 4 * i + 4)) =~= a);
        },
        ValueModel::V6(a) => {
            lemma_flat_len(a, 16);
            let b = flat(a);
            assert(b.len() % 16 == 0) by (nonlinear_arith)
                requires b.len() == a.len() * 16;
            assert(b.len() / 16 == a.len()) by (nonlinear_arith)
                requires b.len() == a.len() * 16;
            assert forall|i: int| 0 <= i < a.len() implies b.subrange(16 * i, 16 * i + 16) == a[i] by {
                lemma_flat_index(a, 16, i);
            }
            assert(Seq::new(b.len() / 16, |i: int| b.subrange(16 * i, 16 * i + 16)) =~= a);
        },
    }
}

/// What a buffer decodes to has the declared type's shape.
pub proof fn lemma_decode_tag(b: Seq<u8>, t: DeclaredType)
    ensures
        spec_decode(b, t) matches Some(m) ==> model_tag(m) == t.tag(),
{
}

/// Round trip for every supported value: what `encode` sends for a value
/// whose shape matches the declared type, `decode` brings back as the
/// same value, content for content.
pub proof fn lemma_value_round_trip(v: Value, t: DeclaredType)
    requires
        t.wf(),
        v.tag() == t.tag(),
        spec_fits(v.abs(), t),
        no_interior_nul(v.abs()),
    ensures
        spec_decode(spec_encode(v.abs(), t), t) == Some(v.abs()),
{
    match v {
        Value::Ipv4Addrs(list) => {
            let m = list@.map_values(|a: Ipv4Addr| a.octets@);
            assert forall|i: int| 0 <= i < m.len() implies (#[trigger] m[i]).len() == 4 by {
                assert(m[i] == list@[i].octets@);
            }
        },
        Value::Ipv6Addrs(list) => {
            let m = list@.map_values(|a: Ipv6Addr| a.octets@);
            assert forall|i: int| 0 <= i < m.len() implies (#[trigger] m[i]).len() == 16 by {
                assert(m[i] == list@[i].octets@);
            }
        },
        _ => {
        },
    }
    lemma_round_trip(v.abs(), t);
}

/// The truncation boundary: a string whose byte length is within the
/// declared capacity — the boundary case equal to it included — is sent
/// whole, terminator and padding added but nothing cut, and reads back
/// unchanged, provided its encoding holds no zero byte. One byte past
/// the capacity, `encode` refuses with `SerializeFailed` instead.
pub proof fn lemma_string_at_capacity_round_trip(s: Seq<char>, max_len: usize)
    requires
        encode_utf8(s).len() <= max_len,
        max_len < usize::MAX,
        has_no_nul(encode_utf8(s)),
    ensures
        spec_decode(
            spec_encode(ValueModel::Str(s), DeclaredType::String { max_len }),
            DeclaredType::String { max_len },
        ) == Some(ValueModel::Str(s)),
{
    lemma_round_trip(ValueModel::Str(s), DeclaredType::String { max_len });
}

/// Order preservation across the wire: each family's subsequence of an
/// IP list, encoded as its address-list parameter and decoded back,
/// comes back whole and in its original relative order.
pub proof fn lemma_ip_split_round_trip(
    ips: Seq<crate::param::IpAddr>,
    t4: DeclaredType,
    t6: DeclaredType,
)
    requires
        t4 is Ipv4Addrs,
        t4.wf(),
        t6 is Ipv6Addrs,
        t6.wf(),
    ensures
        spec_decode(spec_encode(crate::param::v4_model(ips), t4), t4) == Some(
            crate::param::v4_model(ips),
        ),
        spec_decode(spec_encode(crate::param::v6_model(ips), t6), t6) == Some(
            crate::param::v6_model(ips),
        ),
{
    lemma_round_trip(crate::param::v4_model(ips), t4);
    lemma_round_trip(crate::param::v6_model(ips), t6);
}

/// Relies on std's String::from_utf8: it succeeds exactly on valid
/// UTF-8 input, and the returned string's UTF-8 encoding is that input.
#[verifier::external_body]
fn utf8_decode(b: Vec<u8>) -> (r: Option<String>)
    ensures
        r is Some <==> valid_utf8(b@),
        r matches Some(s) ==> encode_utf8(s@) == b@,
{
    String::from_utf8(b).ok()
}

/// Encodes `value` into the byte buffer the kernel expects for a
/// parameter of type `declared`.
///
/// Fails with `UnexpectedParameterType` when the value's shape does not
/// match the declared type, and with `SerializeFailed` when a string or
/// structure exceeds the declared capacity; no partial buffer escapes
/// either way.
pub fn encode(value: &Value, declared: &DeclaredType) -> (r: Result<Vec<u8>, JailError>)
    requires
        declared.wf(),
    ensures
        value.tag() != declared.tag() ==> r == Err::<Vec<u8>, JailError>(
            JailError::UnexpectedParameterType { expected: declared.tag(), got: value.tag() },
        ),
        value.tag() == declared.tag() && !spec_fits(value.abs(), *declared) ==> r == Err::<
            Vec<u8>,
            JailError,
        >(JailError::SerializeFailed),
        value.tag() == declared.tag() && spec_fits(value.abs(), *declared) ==> (r matches Ok(b)
            && b@ == spec_encode(value.abs(), *declared)),
{
    let vt = value.tag_of();
    let dt = declared.tag_of();
    if vt != dt {
        return Err(JailError::UnexpectedParameterType { expected: dt, got: vt });
    }
    match value {
        Value::Int(x) => {
            let u: u32 = if *x >= 0 {
                *x as u32
            } else {
                ((*x as i64) + 0x1_0000_0000i64) as u32
            };
            Ok(u32_to_le_bytes(u))
        },
        Value::S64(x) => {
            let u: u64 = if *x >= 0 {
                *x as u64
            } else {
                ((*x as i128) + 0x1_0000_0000_0000_0000i128) as u64
            };
            Ok(u64_to_le_bytes(u))
        },
        Value::U32(x) => Ok(u32_to_le_bytes(*x)),
        Value::U64(x) => Ok(u64_to_le_bytes(*x)),
        Value::Bool(b) => Ok(u32_to_le_bytes(if *b { 1 } else { 0 })),
        Value::String(s) => {
            match declared {
                DeclaredType::String { max_len } => {
                    let mut out = s.as_str().as_bytes_vec();
                    if out.len() > *max_len {
                        return Err(JailError::SerializeFailed);
                    }
                    let ghost enc = encode_utf8(s@);
                    out.push(0);
                    proof {
                        assert(out@ =~= enc + seq![0u8] + zeros(0));
                    }
                    while out.len() < *max_len + 1
                        invariant
                            *max_len < usize::MAX,
                            enc.len() + 1 <= out@.len() <= *max_len + 1,
                            enc == encode_utf8(s@),
                            out@ == enc + seq![0u8] + zeros(out@.len() - enc.len() - 1),
                        decreases *max_len + 1 - out@.len(),
                    {
                        out.push(0);
                        proof {
                            assert(out@ =~= enc + seq![0u8] + zeros(out@.len() - enc.len() - 1));
                        }
                    }
                    Ok(out)
                },
                _ => Err(JailError::SerializeFailed),
            }
        },
        Value::Struct(b) => {
            match declared {
                DeclaredType::Struct { max_len } => {
                    if b.len() > *max_len {
                        return Err(JailError::SerializeFailed);
                    }
                    Ok(slice_to_vec(b.as_slice()))
                },
                _ => Err(JailError::SerializeFailed),
            }
        },
        Value::Ipv4Addrs(v) => {
            let ghost m = v@.map_values(|a: Ipv4Addr| a.octets@);
            let mut out: Vec<u8> = Vec::new();
            let mut i: usize = 0;
            while i < v.len()
                invariant
                    i <= v@.len(),
                    m == v@.map_values(|a: Ipv4Addr| a.octets@),
                    out@ == flat(m.take(i as int)),
                decreases v@.len() - i,
            {
                let a = v[i];
                out.push(a.octets[0]);
                out.push(a.octets[1]);
                out.push(a.octets[2]);
                out.push(a.octets[3]);
                proof {
                    assert(m.take(i + 1).drop_last() =~= m.take(i as int));
                    assert(m.take(i + 1).last() == a.octets@);
                    assert(out@ =~= flat(m.take(i as int)) + a.octets@);
                }
                i = i + 1;
            }
            proof {
                assert(m.take(i as int) =~= m);
            }
            Ok(out)
        },
        Value::Ipv6Addrs(v) => {
            let ghost m = v@.map_values(|a: Ipv6Addr| a.octets@);
            let mut out: Vec<u8> = Vec::new();
            let mut i: usize = 0;
            while i < v.len()
                invariant
                    i <= v@.len(),
                    m == v@.map_values(|a: Ipv6Addr| a.octets@),
                    out@ == flat(m.take(i as int)),
                decreases v@.len() - i,
            {
                let a = v[i];
                let mut k: usize = 0;
                while k < 16
                    invariant
                        k <= 16,
                        a.octets@.len() == 16,
                        out@ == flat(m.take(i as int)) + a.octets@.take(k as int),
                    decreases 16 - k,
                {
                    out.push(a.octets[k]);
                    proof {
                        assert(a.octets@.take(k + 1) =~= a.octets@.take(k as int).push(
                            a.octets@[k as int],
                        ));
                        assert(out@ =~= flat(m.take(i as int)) + a.octets@.take(k + 1));
                    }
                    k = k + 1;
                }
                proof {
                    assert(a.octets@.take(16) =~= a.octets@);
                    assert(m.take(i + 1).drop_last() =~= m.take(i as int));
                    assert(m.take(i + 1).last() == a.octets@);
                    assert(out@ =~= flat(m.take(i + 1)));
                }
                i = i + 1;
            }
            proof {
                assert(m.take(i as int) =~= m);
            }
            Ok(out)
        },
    }
}

/// Decodes the byte buffer the kernel returned for a parameter of type
/// `declared` back into a typed value.
///
/// Fails with `ParameterUnpackError` when the buffer cannot hold a value
/// of that type: a scalar buffer of the wrong width, invalid UTF-8 in a
/// string, or an address buffer that is not a whole number of addresses.
pub fn decode(bytes: &[u8], declared: &DeclaredType) -> (r: Result<Value, JailError>)
    requires
        declared.wf(),
    ensures
        spec_decode(bytes@, *declared) is None ==> r == Err::<Value, JailError>(
            JailError::ParameterUnpackError,
        ),
        spec_decode(bytes@, *declared) matches Some(m) ==> (r matches Ok(v) && v.abs() == m),
{
    match declared {
        DeclaredType::Int => {
            if bytes.len() != 4 {
                return Err(JailError::ParameterUnpackError);
            }
            let u = u32_from_le_bytes(bytes);
            let x: i32 = if u < 0x8000_0000 {
                u as i32
            } else {
                ((u as i64) - 0x1_0000_0000i64) as i32
            };
            Ok(Value::Int(x))
        },
        DeclaredType::S64 => {
            if bytes.len() != 8 {
                return Err(JailError::ParameterUnpackError);
            }
            let u = u64_from_le_bytes(bytes);
            let x: i64 = if u < 0x8000_0000_0000_0000 {
                u as i64
            } else {
                ((u as i128) - 0x1_0000_0000_0000_0000i128) as i64
            };
            Ok(Value::S64(x))
        },
        DeclaredType::U32 => {
            if bytes.len() != 4 {
                return Err(JailError::ParameterUnpackError);
            }
            Ok(Value::U32(u32_from_le_bytes(bytes)))
        },
        DeclaredType::U64 => {
            if bytes.len() != 8 {
                return Err(JailError::ParameterUnpackError);
            }
            Ok(Value::U64(u64_from_le_bytes(bytes)))
        },
        DeclaredType::Bool => {
            if bytes.len() != 4 {
                return Err(JailError::ParameterUnpackError);
            }
            let u = u32_from_le_bytes(bytes);
            Ok(Value::Bool(u != 0))
        },
        DeclaredType::String { .. } => {
            let mut i: usize = 0;
            while i < bytes.len() && bytes[i] != 0
                invariant
                    i <= bytes@.len(),
                    forall|j: int| 0 <= j < i ==> bytes@[j] != 0,
                decreases bytes@.len() - i,
            {
                i = i + 1;
            }
            proof {
                lemma_first_nul_is(bytes@, i as int);
            }
            let cut = slice_to_vec(slice_subrange(bytes, 0, i));
            match utf8_decode(cut) {
                Some(s) => {
                    proof {
                        encode_utf8_decode_utf8(s@);
                    }
                    Ok(Value::String(s))
                },
                None => Err(JailError::ParameterUnpackError),
            }
        },
        DeclaredType::Struct { .. } => Ok(Value::Struct(slice_to_vec(bytes))),
        DeclaredType::Ipv4Addrs { .. } => {
            if bytes.len() % 4 != 0 {
                return Err(JailError::ParameterUnpackError);
            }
            let n = bytes.len() / 4;
            let mut out: Vec<Ipv4Addr> = Vec::new();
            let mut i: usize = 0;
            while i < n
                invariant
                    i <= n,
                    n == bytes@.len() / 4,
                    bytes@.len() % 4 == 0,
                    4 * n <= bytes@.len(),
                    bytes@.len() <= usize::MAX,
                    out@.len() == i,
                    forall|j: int| 0 <= j < i ==> out@[j].octets@ == bytes@.subrange(
                        4 * j,
                        4 * j + 4,
                    ),
                decreases n - i,
            {
                proof {
                    assert(4 * (i + 1) <= 4 * n);
                }
                let off = 4 * i;
                let a = Ipv4Addr::new(
                    [bytes[off], bytes[off + 1], bytes[off + 2], bytes[off + 3]],
                );
                proof {
                    assert(a.octets@ =~= bytes@.subrange(4 * i as int, 4 * i as int + 4));
                }
                out.push(a);
                i = i + 1;
            }
            proof {
                assert(out@.map_values(|a: Ipv4Addr| a.octets@) =~= Seq::new(
                    bytes@.len() / 4,
                    |j: int| bytes@.subrange(4 * j, 4 * j + 4),
                ));
            }
            Ok(Value::Ipv4Addrs(out))
        },
        DeclaredType::Ipv6Addrs { .. } => {
            if bytes.len() % 16 != 0 {
                return Err(JailError::ParameterUnpackError);
            }
            let n = bytes.len() / 16;
            let mut out: Vec<Ipv6Addr> = Vec::new();
            let mut i: usize = 0;
            while i < n
                invariant
                    i <= n,
                    n == bytes@.len() / 16,
                    bytes@.len() % 16 == 0,
                    16 * n <= bytes@.len(),
                    bytes@.len() <= usize::MAX,
                    out@.len() == i,
                    forall|j: int| 0 <= j < i ==> out@[j].octets@ == bytes@.subrange(
                        16 * j,
                        16 * j + 16,
                    ),
                decreases n - i,
            {
                proof {
                    assert(16 * (i + 1) <= 16 * n);
                }
                let off = 16 * i;
                let a = Ipv6Addr::new(
                    [
                        bytes[off],
                        bytes[off + 1],
                        bytes[off + 2],
                        bytes[off + 3],
                        bytes[off + 4],
                        bytes[off + 5],
                        bytes[off + 6],
                        bytes[off + 7],
                        bytes[off + 8],
                        bytes[off + 9],
                        bytes[off + 10],
                        bytes[off + 11],
                        bytes[off + 12],
                        bytes[off + 13],
                        bytes[off + 14],
                        bytes[off + 15],
                    ],
                );
                proof {
                    assert(a.octets@ =~= bytes@.subrange(16 * i as int, 16 * i as int + 16));
                }
                out.push(a);
                i = i + 1;
            }
            proof {
                assert(out@.map_values(|a: Ipv6Addr| a.octets@) =~= Seq::new(
                    bytes@.len() / 16,
                    |j: int| bytes@.subrange(16 * j, 16 * j + 16),
                ));
            }
            Ok(Value::Ipv6Addrs(out))
        },
    }
}

} // verus!


