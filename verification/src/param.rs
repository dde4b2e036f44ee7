//! Typed jail parameter values and the kernel's declared types for them.
//!
//! A parameter travels to and from the kernel as an untyped byte buffer;
//! its interpretation is fixed by a [`DeclaredType`] discovered at run
//! time from the parameter's name. [`Value`] is the typed side of that
//! correspondence.

use vstd::prelude::*;
use crate::JailError;

verus! {

/// An IPv4 address, as its four octets in network order.
#[derive(Clone, Copy, PartialEq, Eq, Debug)]
pub struct Ipv4Addr {
    pub octets: [u8; 4],
}

/// An IPv6 address, as its sixteen octets in network order.
#[derive(Clone, Copy, PartialEq, Eq, Debug)]
pub struct Ipv6Addr {
    pub octets: [u8; 16],
}

/// An IP address of either family.
#[derive(Clone, Copy, PartialEq, Eq, Debug)]
pub enum IpAddr {
    V4(Ipv4Addr),
    V6(Ipv6Addr),
}

impl Ipv4Addr {
    pub fn new(octets: [u8; 4]) -> (r: Self)
        ensures
            r.octets@ == octets@,
    {
        Ipv4Addr { octets }
    }
}

impl Ipv6Addr {
    pub fn new(octets: [u8; 16]) -> (r: Self)
        ensures
            r.octets@ == octets@,
    {
        Ipv6Addr { octets }
    }
}

/// A typed parameter payload: one variant for every payload shape the
/// kernel's parameter interface supports.
#[derive(Clone, Debug, PartialEq)]
pub enum Value {
    /// A signed 32-bit integer.
    Int(i32),
    /// A signed 64-bit integer.
    S64(i64),
    /// An unsigned 32-bit integer.
    U32(u32),
    /// An unsigned 64-bit integer.
    U64(u64),
    /// A boolean flag, carried on the wire as a 32-bit integer 0 or 1.
    Bool(bool),
    /// A UTF-8 string.
    String(String),
    /// An opaque structure blob, passed through byte for byte.
    Struct(Vec<u8>),
    /// An ordered list of IPv4 addresses.
    Ipv4Addrs(Vec<Ipv4Addr>),
    /// An ordered list of IPv6 addresses.
    Ipv6Addrs(Vec<Ipv6Addr>),
}

/// The shape of a value or of a declared type, without lengths.
#[derive(Clone, Copy, PartialEq, Eq, Structural, Debug)]
pub enum TypeTag {
    Int,
    S64,
    U32,
    U64,
    Bool,
    String,
    Struct,
    Ipv4Addrs,
    Ipv6Addrs,
}

/// The kernel's declared type for a parameter name: a shape, and for the
/// variable-length shapes the byte capacity the registry reported.
///
/// For `String`, `max_len` is the greatest byte length a string value may
/// have; the wire buffer holds one byte more, for the terminator. For
/// `Struct`, `max_len` bounds the blob. For the address lists, `max_len`
/// is the buffer capacity in bytes, a multiple of the element width.
#[derive(Clone, Copy, PartialEq, Eq, Debug)]
pub enum DeclaredType {
    Int,
    S64,
    U32,
    U64,
    Bool,
    String { max_len: usize },
    Struct { max_len: usize },
    Ipv4Addrs { max_len: usize },
    Ipv6Addrs { max_len: usize },
}

/// The mathematical content of a [`Value`]: strings as character
/// sequences, address lists as sequences of octet sequences.
pub enum ValueModel {
    Int(i32),
    S64(i64),
    U32(u32),
    U64(u64),
    Bool(bool),
    Str(Seq<char>),
    Blob(Seq<u8>),
    V4(Seq<Seq<u8>>),
    V6(Seq<Seq<u8>>),
}

impl Value {
    /// What this value is, mathematically.
    pub open spec fn abs(self) -> ValueModel {
        match self {
            Value::Int(x) => ValueModel::Int(x),
            Value::S64(x) => ValueModel::S64(x),
            Value::U32(x) => ValueModel::U32(x),
            Value::U64(x) => ValueModel::U64(x),
            Value::Bool(b) => ValueModel::Bool(b),
            Value::String(s) => ValueModel::Str(s@),
            Value::Struct(b) => ValueModel::Blob(b@),
            Value::Ipv4Addrs(v) => ValueModel::V4(v@.map_values(|a: Ipv4Addr| a.octets@)),
            Value::Ipv6Addrs(v) => ValueModel::V6(v@.map_values(|a: Ipv6Addr| a.octets@)),
        }
    }

    /// The shape of this value.
    pub open spec fn tag(self) -> TypeTag {
        match self {
            Value::Int(_) => TypeTag::Int,
            Value::S64(_) => TypeTag::S64,
            Value::U32(_) => TypeTag::U32,
            Value::U64(_) => TypeTag::U64,
            Value::Bool(_) => TypeTag::Bool,
            Value::String(_) => TypeTag::String,
            Value::Struct(_) => TypeTag::Struct,
            Value::Ipv4Addrs(_) => TypeTag::Ipv4Addrs,
            Value::Ipv6Addrs(_) => TypeTag::Ipv6Addrs,
        }
    }

    /// The shape of this value, computed.
    pub fn tag_of(&self) -> (r: TypeTag)
        ensures
            r == self.tag(),
    {
        match self {
            Value::Int(_) => TypeTag::Int,
            Value::S64(_) => TypeTag::S64,
            Value::U32(_) => TypeTag::U32,
            Value::U64(_) => TypeTag::U64,
            Value::Bool(_) => TypeTag::Bool,
            Value::String(_) => TypeTag::String,
            Value::Struct(_) => TypeTag::Struct,
            Value::Ipv4Addrs(_) => TypeTag::Ipv4Addrs,
            Value::Ipv6Addrs(_) => TypeTag::Ipv6Addrs,
        }
    }

    /// The inner string, or `ParameterUnpackError` for any other shape.
    pub fn unpack_string(self) -> (r: Result<String, JailError>)
        ensures
            match self {
                Value::String(s) => r == Ok::<String, JailError>(s),
                _ => r == Err::<String, JailError>(JailError::ParameterUnpackError),
            },
    {
        match self {
            Value::String(s) => Ok(s),
            _ => Err(JailError::ParameterUnpackError),
        }
    }

    /// The inner IPv4 address list, or `ParameterUnpackError`.
    pub fn unpack_ipv4(self) -> (r: Result<Vec<Ipv4Addr>, JailError>)
        ensures
            match self {
                Value::Ipv4Addrs(v) => r == Ok::<Vec<Ipv4Addr>, JailError>(v),
                _ => r == Err::<Vec<Ipv4Addr>, JailError>(JailError::ParameterUnpackError),
            },
    {
        match self {
            Value::Ipv4Addrs(v) => Ok(v),
            _ => Err(JailError::ParameterUnpackError),
        }
    }

    /// The inner IPv6 address list, or `ParameterUnpackError`.
    pub fn unpack_ipv6(self) -> (r: Result<Vec<Ipv6Addr>, JailError>)
        ensures
            match self {
                Value::Ipv6Addrs(v) => r == Ok::<Vec<Ipv6Addr>, JailError>(v),
                _ => r == Err::<Vec<Ipv6Addr>, JailError>(JailError::ParameterUnpackError),
            },
    {
        match self {
            Value::Ipv6Addrs(v) => Ok(v),
            _ => Err(JailError::ParameterUnpackError),
        }
    }

    /// A copy of this value with the same mathematical content.
    pub fn duplicate(&self) -> (r: Value)
        ensures
            r.abs() == self.abs(),
    {
        match self {
            Value::Int(x) => Value::Int(*x),
            Value::S64(x) => Value::S64(*x),
            Value::U32(x) => Value::U32(*x),
            Value::U64(x) => Value::U64(*x),
            Value::Bool(b) => Value::Bool(*b),
            Value::String(s) => Value::String(s.clone()),
            Value::Struct(b) => {
                let mut out: Vec<u8> = Vec::new();
                let mut i: usize = 0;
                while i < b.len()
                    invariant
                        i <= b@.len(),
                        out@ == b@.take(i as int),
                    decreases b@.len() - i,
                {
                    out.push(b[i]);
                    i = i + 1;
                    proof {
                        assert(out@ =~= b@.take(i as int));
                    }
                }
                proof {
                    assert(out@ =~= b@);
                }
                Value::Struct(out)
            },
            Value::Ipv4Addrs(v) => {
                let mut out: Vec<Ipv4Addr> = Vec::new();
                let mut i: usize = 0;
                while i < v.len()
                    invariant
                        i <= v@.len(),
                        out@ == v@.take(i as int),
                    decreases v@.len() - i,
                {
                    out.push(v[i]);
                    i = i + 1;
                    proof {
                        assert(out@ =~= v@.take(i as int));
                    }
                }
                proof {
                    assert(out@ =~= v@);
                }
                Value::Ipv4Addrs(out)
            },
            Value::Ipv6Addrs(v) => {
                let mut out: Vec<Ipv6Addr> = Vec::new();
                let mut i: usize = 0;
                while i < v.len()
                    invariant
                        i <= v@.len(),
                        out@ == v@.take(i as int),
                    decreases v@.len() - i,
                {
                    out.push(v[i]);
                    i = i + 1;
                    proof {
                        assert(out@ =~= v@.take(i as int));
                    }
                }
                proof {
                    assert(out@ =~= v@);
                }
                Value::Ipv6Addrs(out)
            },
        }
    }
}

impl DeclaredType {
    /// The shape of this declared type.
    pub open spec fn tag(self) -> TypeTag {
        match self {
            DeclaredType::Int => TypeTag::Int,
            DeclaredType::S64 => TypeTag::S64,
            DeclaredType::U32 => TypeTag::U32,
            DeclaredType::U64 => TypeTag::U64,
            DeclaredType::Bool => TypeTag::Bool,
            DeclaredType::String { .. } => TypeTag::String,
            DeclaredType::Struct { .. } => TypeTag::Struct,
            DeclaredType::Ipv4Addrs { .. } => TypeTag::Ipv4Addrs,
            DeclaredType::Ipv6Addrs { .. } => TypeTag::Ipv6Addrs,
        }
    }

    /// The shape of this declared type, computed.
    pub fn tag_of(&self) -> (r: TypeTag)
        ensures
            r == self.tag(),
    {
        match self {
            DeclaredType::Int => TypeTag::Int,
            DeclaredType::S64 => TypeTag::S64,
            DeclaredType::U32 => TypeTag::U32,
            DeclaredType::U64 => TypeTag::U64,
            DeclaredType::Bool => TypeTag::Bool,
            DeclaredType::String { .. } => TypeTag::String,
            DeclaredType::Struct { .. } => TypeTag::Struct,
            DeclaredType::Ipv4Addrs { .. } => TypeTag::Ipv4Addrs,
            DeclaredType::Ipv6Addrs { .. } => TypeTag::Ipv6Addrs,
        }
    }

    /// A declared type the registry may hand out: capacities leave room
    /// for a terminator, and address buffers hold whole addresses.
    pub open spec fn wf(self) -> bool {
        match self {
            DeclaredType::String { max_len } => max_len < usize::MAX,
            DeclaredType::Ipv4Addrs { max_len } => max_len % 4 == 0,
            DeclaredType::Ipv6Addrs { max_len } => max_len % 16 == 0,
            _ => true,
        }
    }
}

/// The subsequence of IPv4 addresses in `ips`, in their original order.
pub open spec fn v4_of(ips: Seq<IpAddr>) -> Seq<Ipv4Addr>
    decreases ips.len(),
{
    if ips.len() == 0 {
        Seq::empty()
    } else {
        let rest = v4_of(ips.drop_last());
        match ips.last() {
            IpAddr::V4(a) => rest.push(a),
            IpAddr::V6(_) => rest,
        }
    }
}

/// The subsequence of IPv6 addresses in `ips`, in their original order.
pub open spec fn v6_of(ips: Seq<IpAddr>) -> Seq<Ipv6Addr>
    decreases ips.len(),
{
    if ips.len() == 0 {
        Seq::empty()
    } else {
        let rest = v6_of(ips.drop_last());
        match ips.last() {
            IpAddr::V4(_) => rest,
            IpAddr::V6(a) => rest.push(a),
        }
    }
}

/// Splits an IP list into its IPv4 and IPv6 subsequences, each in the
/// original relative order.
pub fn split_ips(ips: &Vec<IpAddr>) -> (r: (Vec<Ipv4Addr>, Vec<Ipv6Addr>))
    ensures
        r.0@ == v4_of(ips@),
        r.1@ == v6_of(ips@),
{
    let mut v4: Vec<Ipv4Addr> = Vec::new();
    let mut v6: Vec<Ipv6Addr> = Vec::new();
    let mut i: usize = 0;
    while i < ips.len()
        invariant
            i <= ips@.len(),
            v4@ == v4_of(ips@.take(i as int)),
            v6@ == v6_of(ips@.take(i as int)),
        decreases ips@.len() - i,
    {
        proof {
            assert(ips@.take(i + 1).drop_last() =~= ips@.take(i as int));
            assert(ips@.take(i + 1).last() == ips@[i as int]);
        }
        match ips[i] {
            IpAddr::V4(a) => v4.push(a),
            IpAddr::V6(a) => v6.push(a),
        }
        i = i + 1;
    }
    proof {
        assert(ips@.take(i as int) =~= ips@);
    }
    (v4, v6)
}

/// The value bound to `key` in an association list, if any: the last
/// binding wins, though a well-formed list binds each key once.
pub open spec fn assoc_lookup(params: Seq<(String, Value)>, key: Seq<char>) -> Option<Value>
    decreases params.len(),
{
    if params.len() == 0 {
        None
    } else if params.last().0@ == key {
        Some(params.last().1)
    } else {
        assoc_lookup(params.drop_last(), key)
    }
}

/// Each key is bound at most once.
pub open spec fn assoc_unique(params: Seq<(String, Value)>) -> bool {
    forall|i: int, j: int|
        0 <= i < j < params.len() ==> params[i].0@ != params[j].0@
}

/// The IPv4 subsequence of an IP list, as the content of an address-list
/// value.
pub open spec fn v4_model(ips: Seq<IpAddr>) -> ValueModel {
    ValueModel::V4(v4_of(ips).map_values(|a: Ipv4Addr| a.octets@))
}

/// The IPv6 subsequence of an IP list, as the content of an address-list
/// value.
pub open spec fn v6_model(ips: Seq<IpAddr>) -> ValueModel {
    ValueModel::V6(v6_of(ips).map_values(|a: Ipv6Addr| a.octets@))
}

/// In a list that binds each key once, the entry at `i` is what lookup
/// finds for its key.
pub proof fn lemma_lookup_found(params: Seq<(String, Value)>, i: int)
    requires
        assoc_unique(params),
        0 <= i < params.len(),
    ensures
        assoc_lookup(params, params[i].0@) == Some(params[i].1),
    decreases params.len(),
{
    if i == params.len() - 1 {
    } else {
        assert(params.last().0@ != params[i].0@);
        assert(params.drop_last()[i] == params[i]);
        lemma_lookup_found(params.drop_last(), i);
    }
}

/// A key no entry carries is not found.
pub proof fn lemma_lookup_absent(params: Seq<(String, Value)>, key: Seq<char>)
    requires
        forall|i: int| 0 <= i < params.len() ==> params[i].0@ != key,
    ensures
        assoc_lookup(params, key) is None,
    decreases params.len(),
{
    if params.len() > 0 {
        lemma_lookup_absent(params.drop_last(), key);
    }
}

/// Replacing the entry that holds a key leaves every other key's binding
/// unchanged.
pub proof fn lemma_lookup_update_other(
    params: Seq<(String, Value)>,
    i: int,
    p: (String, Value),
    q: Seq<char>,
)
    requires
        0 <= i < params.len(),
        p.0@ == params[i].0@,
        q != p.0@,
    ensures
        assoc_lookup(params.update(i, p), q) == assoc_lookup(params, q),
    decreases params.len(),
{
    let upd = params.update(i, p);
    if i == params.len() - 1 {
        assert(upd.last() == p);
        assert(upd.drop_last() =~= params.drop_last());
    } else {
        assert(upd.last() == params.last());
        assert(upd.drop_last() =~= params.drop_last().update(i, p));
        lemma_lookup_update_other(params.drop_last(), i, p, q);
    }
}

} // verus!
