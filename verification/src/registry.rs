//! Resolving a parameter name to the type the kernel declares for it.
//!
//! The kernel publishes one introspection entry per parameter under a
//! common prefix: the entry's type tag names the parameter's shape, and
//! for the variable-length shapes the entry's textual value is the
//! maximum byte length. Address lists are declared under two fixed
//! names, and their capacity comes from the per-family address limit.

use vstd::prelude::*;
use vstd::string::StringExecFns;
use crate::JailError;
use crate::param::DeclaredType;

verus! {

/// The prefix under which the kernel publishes parameter entries.
pub const PARAM_PREFIX: &'static str = "security.jail.param.";

/// The entry that holds the per-family address limit.
pub const MAX_AF_IPS: &'static str = "security.jail.jail_max_af_ips";

/// The kernel's raw tag for a 32-bit signed integer entry.
pub const CTL_INT: u32 = 2;

/// The kernel's raw tag for a string entry.
pub const CTL_STRING: u32 = 3;

/// The kernel's raw tag for a 64-bit signed integer entry.
pub const CTL_S64: u32 = 4;

/// The kernel's raw tag for an opaque structure entry.
pub const CTL_STRUCT: u32 = 5;

/// The kernel's raw tag for an unsigned machine integer entry.
pub const CTL_UINT: u32 = 6;

/// The kernel's raw tag for a 64-bit unsigned integer entry.
pub const CTL_U64: u32 = 9;

/// The kernel's raw tag for a 32-bit unsigned integer entry.
pub const CTL_U32: u32 = 15;

#[verifier::external_type_specification]
#[verifier::external_body]
pub struct ExCtl(sysctl::Ctl);

/// Why a control entry could not be had: the introspection interface
/// reported the name unknown, or the lookup itself failed and left these
/// words — two outcomes the error taxonomy keeps apart.
pub enum LookupFailure {
    Unknown,
    Failed(String),
}

/// Relies on sysctl's `Ctl::new` (through the `Sysctl` trait): it finds
/// the control entry of that name; a name it reports as not found comes
/// back apart from any other failure. Which names exist depends on the
/// running system, so nothing more is promised.
#[verifier::external_body]
fn ctl_lookup(name: &str) -> (r: Result<sysctl::Ctl, LookupFailure>) {
    match <sysctl::Ctl as sysctl::Sysctl>::new(name) {
        Ok(c) => Ok(c),
        Err(sysctl::SysctlError::NotFound(_)) => Err(LookupFailure::Unknown),
        Err(e) => Err(LookupFailure::Failed(format!("{}", e))),
    }
}

/// Relies on sysctl's `Ctl::value_type`: it reports the entry's type as
/// one of the crate's tags, whose numeric values are at most 16. The
/// tag itself depends on the running system.
#[verifier::external_body]
fn ctl_value_type(ctl: &sysctl::Ctl) -> (r: Result<u32, String>)
    ensures
        r matches Ok(t) ==> t <= 16,
{
    match <sysctl::Ctl as sysctl::Sysctl>::value_type(ctl) {
        Ok(t) => Ok(t as u32),
        Err(e) => Err(format!("{}", e)),
    }
}

/// Relies on sysctl's `Ctl::value_string`: it reads the entry's value as
/// text. The text depends on the running system, so nothing is promised
/// of it.
#[verifier::external_body]
fn ctl_value_string(ctl: &sysctl::Ctl) -> (r: Result<String, String>) {
    match <sysctl::Ctl as sysctl::Sysctl>::value_string(ctl) {
        Ok(s) => Ok(s),
        Err(e) => Err(format!("{}", e)),
    }
}

/// Every character is a decimal digit.
pub open spec fn all_digits(s: Seq<char>) -> bool {
    forall|i: int| 0 <= i < s.len() ==> '0' <= #[trigger] s[i] <= '9'
}

/// The number the digit string denotes.
pub open spec fn digits_val(s: Seq<char>) -> nat
    decreases s.len(),
{
    if s.len() == 0 {
        0
    } else {
        (digits_val(s.drop_last()) * 10 + (s.last() as int - '0' as int)) as nat
    }
}

proof fn lemma_digits_prefix_le(s: Seq<char>, i: int)
    requires
        all_digits(s),
        0 <= i <= s.len(),
    ensures
        digits_val(s.take(i)) <= digits_val(s),
    decreases s.len() - i,
{
    if i < s.len() {
        assert(s.take(i + 1).drop_last() =~= s.take(i));
        assert(s.take(i + 1).last() == s[i]);
        assert(digits_val(s.take(i)) <= digits_val(s.take(i)) * 10 + (s[i] as nat - '0' as nat));
        lemma_digits_prefix_le(s, i + 1);
    } else {
        assert(s.take(i) =~= s);
    }
}

/// Parses a length entry's textual value as a number.
///
/// Succeeds exactly on a nonempty all-digit text whose value fits the
/// machine; anything else fails with `ParameterLengthNaN` carrying the
/// text.
pub fn parse_len(text: &str) -> (r: Result<usize, JailError>)
    ensures
        r is Ok <==> text@.len() > 0 && all_digits(text@) && digits_val(text@) <= usize::MAX,
        r matches Ok(v) ==> v == digits_val(text@),
        r matches Err(e) ==> (e matches JailError::ParameterLengthNaN(m) && m@ == text@),
{
    let n = text.unicode_len();
    if n == 0 {
        return Err(JailError::ParameterLengthNaN(text.to_owned()));
    }
    let mut acc: usize = 0;
    let mut i: usize = 0;
    while i < n
        invariant
            n == text@.len(),
            i <= n,
            all_digits(text@.take(i as int)),
            acc == digits_val(text@.take(i as int)),
        decreases n - i,
    {
        let c = text.get_char(i);
        let code = c as u32;
        if code < ('0' as u32) || code > ('9' as u32) {
            return Err(JailError::ParameterLengthNaN(text.to_owned()));
        }
        let d = code - ('0' as u32);
        proof {
            assert(text@.take(i + 1).drop_last() =~= text@.take(i as int));
            assert(text@.take(i + 1).last() == text@[i as int]);
        }
        let scaled = match acc.checked_mul(10) {
            Some(v) => v,
            None => {
                proof {
                    if all_digits(text@) {
                        lemma_digits_prefix_le(text@, i + 1);
                        assert(text@.take(text@.len() as int) =~= text@);
                    }
                }
                return Err(JailError::ParameterLengthNaN(text.to_owned()));
            },
        };
        let next = match scaled.checked_add(d as usize) {
            Some(v) => v,
            None => {
                proof {
                    if all_digits(text@) {
                        lemma_digits_prefix_le(text@, i + 1);
                        assert(text@.take(text@.len() as int) =~= text@);
                    }
                }
                return Err(JailError::ParameterLengthNaN(text.to_owned()));
            },
        };
        acc = next;
        i = i + 1;
    }
    proof {
        assert(text@.take(i as int) =~= text@);
    }
    Ok(acc)
}

/// The declared type of a fixed-width entry, from the kernel's raw tag;
/// `None` for the tags that carry no scalar or that this library has no
/// shape for.
pub fn scalar_type_of(raw: u32) -> (r: Option<DeclaredType>)
    ensures
        raw == CTL_INT ==> r == Some(DeclaredType::Int),
        raw == CTL_S64 ==> r == Some(DeclaredType::S64),
        raw == CTL_UINT || raw == CTL_U32 ==> r == Some(DeclaredType::U32),
        raw == CTL_U64 ==> r == Some(DeclaredType::U64),
        raw != CTL_INT && raw != CTL_S64 && raw != CTL_UINT && raw != CTL_U32 && raw != CTL_U64
            ==> r is None,
        r matches Some(t) ==> t.wf(),
{
    if raw == CTL_INT {
        Some(DeclaredType::Int)
    } else if raw == CTL_S64 {
        Some(DeclaredType::S64)
    } else if raw == CTL_UINT || raw == CTL_U32 {
        Some(DeclaredType::U32)
    } else if raw == CTL_U64 {
        Some(DeclaredType::U64)
    } else {
        None
    }
}

/// The errors resolution can surface.
pub open spec fn resolve_error(e: JailError) -> bool {
    ||| e is NoSuchParameter
    ||| e is ParameterTypeError
    ||| e is ParameterStringLengthError
    ||| e is ParameterStructLengthError
    ||| e is ParameterLengthNaN
    ||| e is ParameterTypeUnsupported
    ||| e is JailMaxAfIpsFailed
}

/// Resolves a parameter name to the type the kernel declares for it.
///
/// Fails with `NoSuchParameter` exactly when the introspection interface
/// reports the name unknown; with `ParameterTypeError`,
/// `ParameterStringLengthError` or `ParameterStructLengthError` when an
/// introspection call itself fails, or a string length cannot be used;
/// with `ParameterLengthNaN` when a length entry's text is not a number;
/// with `JailMaxAfIpsFailed` when the per-family address limit cannot be
/// read; and with `ParameterTypeUnsupported` when the declared tag has
/// no typed representation.
pub fn resolve(name: &str) -> (r: Result<DeclaredType, JailError>)
    ensures
        r matches Ok(t) ==> t.wf(),
        r matches Err(e) ==> resolve_error(e),
        r matches Err(e) ==> (e matches JailError::NoSuchParameter(m) ==> m@ == name@),
        name@ == "ip4.addr"@ ==> (r matches Ok(t) ==> t is Ipv4Addrs),
        name@ == "ip6.addr"@ ==> (r matches Ok(t) ==> t is Ipv6Addrs),
{
    let full = String::from_str(PARAM_PREFIX).concat(name);
    let ctl = match ctl_lookup(full.as_str()) {
        Ok(c) => c,
        Err(LookupFailure::Unknown) => {
            return Err(JailError::NoSuchParameter(name.to_owned()));
        },
        Err(LookupFailure::Failed(m)) => {
            return Err(JailError::ParameterTypeError(m));
        },
    };
    proof {
        reveal_strlit("ip4.addr");
        reveal_strlit("ip6.addr");
        assert("ip4.addr"@[2] == '4');
        assert("ip6.addr"@[2] == '6');
        assert("ip4.addr"@ != "ip6.addr"@);
    }
    let owned = name.to_owned();
    if owned == String::from_str("ip4.addr") {
        return resolve_addr_list(4);
    }
    if owned == String::from_str("ip6.addr") {
        return resolve_addr_list(16);
    }
    let raw = match ctl_value_type(&ctl) {
        Ok(t) => t,
        Err(m) => {
            return Err(JailError::ParameterTypeError(m));
        },
    };
    if let Some(t) = scalar_type_of(raw) {
        Ok(t)
    } else if raw == CTL_STRING {
        let text = match ctl_value_string(&ctl) {
            Ok(s) => s,
            Err(m) => {
                return Err(JailError::ParameterStringLengthError(m));
            },
        };
        let len = parse_len(text.as_str())?;
        if len == usize::MAX {
            // the text did parse; a capacity this machine cannot give one
            // more byte for the terminator is a length failure, no NaN
            return Err(JailError::ParameterStringLengthError(text));
        }
        Ok(DeclaredType::String { max_len: len })
    } else if raw == CTL_STRUCT {
        let text = match ctl_value_string(&ctl) {
            Ok(s) => s,
            Err(m) => {
                return Err(JailError::ParameterStructLengthError(m));
            },
        };
        let len = parse_len(text.as_str())?;
        Ok(DeclaredType::Struct { max_len: len })
    } else {
        Err(JailError::ParameterTypeUnsupported(raw))
    }
}

/// Resolves the capacity of an address-list parameter from the
/// per-family address limit, as a buffer of whole addresses of the
/// given element width.
fn resolve_addr_list(elem: usize) -> (r: Result<DeclaredType, JailError>)
    requires
        elem == 4 || elem == 16,
    ensures
        r matches Ok(t) ==> t.wf() && (elem == 4 ==> t is Ipv4Addrs) && (elem == 16
            ==> t is Ipv6Addrs),
        r matches Err(e) ==> e is JailMaxAfIpsFailed,
{
    let ctl = match ctl_lookup(MAX_AF_IPS) {
        Ok(c) => c,
        Err(LookupFailure::Unknown) => {
            return Err(JailError::JailMaxAfIpsFailed(String::from_str(MAX_AF_IPS)));
        },
        Err(LookupFailure::Failed(m)) => {
            return Err(JailError::JailMaxAfIpsFailed(m));
        },
    };
    let text = match ctl_value_string(&ctl) {
        Ok(s) => s,
        Err(m) => {
            return Err(JailError::JailMaxAfIpsFailed(m));
        },
    };
    let count = match parse_len(text.as_str()) {
        Ok(v) => v,
        Err(_) => {
            return Err(JailError::JailMaxAfIpsFailed(text));
        },
    };
    let max_len = match count.checked_mul(elem) {
        Some(v) => v,
        None => {
            return Err(JailError::JailMaxAfIpsFailed(text));
        },
    };
    if elem == 4 {
        Ok(DeclaredType::Ipv4Addrs { max_len })
    } else {
        Ok(DeclaredType::Ipv6Addrs { max_len })
    }
}

/// The byte capacity a read buffer needs for a parameter of this type:
/// the scalar widths, one byte past a string's capacity for the
/// terminator, and the declared capacity for the rest.
pub fn read_buffer_len(t: &DeclaredType) -> (r: usize)
    requires
        t.wf(),
    ensures
        match *t {
            DeclaredType::Int => r == 4,
            DeclaredType::S64 => r == 8,
            DeclaredType::U32 => r == 4,
            DeclaredType::U64 => r == 8,
            DeclaredType::Bool => r == 4,
            DeclaredType::String { max_len } => r == max_len + 1,
            DeclaredType::Struct { max_len } => r == max_len,
            DeclaredType::Ipv4Addrs { max_len } => r == max_len,
            DeclaredType::Ipv6Addrs { max_len } => r == max_len,
        },
{
    match t {
        DeclaredType::Int => 4,
        DeclaredType::S64 => 8,
        DeclaredType::U32 => 4,
        DeclaredType::U64 => 8,
        DeclaredType::Bool => 4,
        DeclaredType::String { max_len } => *max_len + 1,
        DeclaredType::Struct { max_len } => *max_len,
        DeclaredType::Ipv4Addrs { max_len } => *max_len,
        DeclaredType::Ipv6Addrs { max_len } => *max_len,
    }
}

} // verus!
