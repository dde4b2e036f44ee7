//! The kernel-facing face of the library: building the name/value
//! argument lists the jail calls take, and interpreting what the calls
//! return.
//!
//! The raw calls themselves are platform primitives that only a FreeBSD
//! host can issue; a caller performs them and hands back a
//! [`SyscallOutcome`] or [`ReadOutcome`], captured immediately after the
//! call, before anything can overwrite the OS error state.

use vstd::prelude::*;
use vstd::utf8::encode_utf8;
use vstd::string::StringSliceAdditionalSpecFns;
use vstd::string::StrSliceExecFns;
use vstd::string::StringExecFns;
use crate::JailError;

verus! {

/// One (name, buffer) argument of a kernel jail call.
pub struct WirePair {
    pub name: String,
    pub bytes: Vec<u8>,
}

impl WirePair {
    /// The mathematical content of the pair.
    pub open spec fn model(self) -> (Seq<char>, Seq<u8>) {
        (self.name@, self.bytes@)
    }
}

/// The contents of a pair list.
pub open spec fn pairs_model(v: Seq<WirePair>) -> Seq<(Seq<char>, Seq<u8>)> {
    v.map_values(|p: WirePair| p.model())
}

/// What one kernel call returned: its raw return value, the text the
/// kernel left in its error slot (empty when it left none), and the OS
/// error message captured right after the call.
pub struct SyscallOutcome {
    pub ret: i32,
    pub errmsg: String,
    pub os_error: String,
}

/// What a kernel read call returned: on success `buffer` holds the data
/// and `actual_len` is the byte count the kernel reported for it.
pub struct ReadOutcome {
    pub ret: i32,
    pub buffer: Vec<u8>,
    pub actual_len: usize,
    pub errmsg: String,
    pub os_error: String,
}

/// How a failed create or modify call surfaces: the kernel's own words
/// verbatim when it left any, else the OS error message.
pub open spec fn set_failure_matches(errmsg: Seq<char>, os_error: Seq<char>, e: JailError) -> bool {
    if errmsg.len() > 0 {
        e matches JailError::JailSetError(m) && m@ == errmsg
    } else {
        e matches JailError::IoError(m) && m@ == os_error
    }
}

/// How a failed read or lookup call surfaces: the kernel's own words
/// verbatim when it left any, else the OS error message.
pub open spec fn get_failure_matches(errmsg: Seq<char>, os_error: Seq<char>, e: JailError) -> bool {
    if errmsg.len() > 0 {
        e matches JailError::JailGetError(m) && m@ == errmsg
    } else {
        e matches JailError::IoError(m) && m@ == os_error
    }
}

/// The bytes of `s` with the terminator the kernel requires.
pub fn cstr_bytes(s: &str) -> (r: Vec<u8>)
    ensures
        r@ == encode_utf8(s@) + seq![0u8],
{
    let mut b = s.as_bytes_vec();
    b.push(0);
    proof {
        assert(b@ =~= encode_utf8(s@) + seq![0u8]);
    }
    b
}

/// The expected argument list of a create call: the root path, the
/// optional name and hostname as terminated strings, and the flag that
/// keeps the jail alive without processes. The performer appends the two
/// reserved in/out control slots for the handle and the error text.
pub open spec fn spec_create_pairs(
    path: Seq<char>,
    name: Option<Seq<char>>,
    hostname: Option<Seq<char>>,
) -> Seq<(Seq<char>, Seq<u8>)> {
    let base = seq![("path"@, encode_utf8(path) + seq![0u8])];
    let with_name = match name {
        Some(n) => base.push(("name"@, encode_utf8(n) + seq![0u8])),
        None => base,
    };
    let with_host = match hostname {
        Some(h) => with_name.push(("host.hostname"@, encode_utf8(h) + seq![0u8])),
        None => with_name,
    };
    with_host.push(("persist"@, Seq::empty()))
}

/// Builds the argument list of a create call.
pub fn create_pairs(path: &str, name: &Option<String>, hostname: &Option<String>) -> (r: Vec<
    WirePair,
>)
    ensures
        pairs_model(r@) == spec_create_pairs(
            path@,
            match name {
                Some(n) => Some(n@),
                None => None,
            },
            match hostname {
                Some(h) => Some(h@),
                None => None,
            },
        ),
{
    let mut pairs: Vec<WirePair> = Vec::new();
    pairs.push(WirePair { name: String::from_str("path"), bytes: cstr_bytes(path) });
    match name {
        Some(n) => {
            pairs.push(WirePair { name: String::from_str("name"), bytes: cstr_bytes(n.as_str()) });
        },
        None => {},
    }
    match hostname {
        Some(h) => {
            pairs.push(
                WirePair {
                    name: String::from_str("host.hostname"),
                    bytes: cstr_bytes(h.as_str()),
                },
            );
        },
        None => {},
    }
    pairs.push(WirePair { name: String::from_str("persist"), bytes: Vec::new() });
    proof {
        assert(pairs_model(pairs@) =~= spec_create_pairs(
            path@,
            match name {
                Some(n) => Some(n@),
                None => None,
            },
            match hostname {
                Some(h) => Some(h@),
                None => None,
            },
        ));
    }
    pairs
}

/// Interprets what a create or modify call returned: a non-negative
/// return value is the jail handle; otherwise the kernel's error text,
/// or the OS error when the kernel left none.
pub fn set_outcome(o: &SyscallOutcome) -> (r: Result<i32, JailError>)
    ensures
        o.ret >= 0 ==> r == Ok::<i32, JailError>(o.ret),
        o.ret < 0 ==> (r matches Err(e) && set_failure_matches(o.errmsg@, o.os_error@, e)),
{
    if o.ret >= 0 {
        Ok(o.ret)
    } else if !o.errmsg.as_str().is_empty() {
        Err(JailError::JailSetError(o.errmsg.clone()))
    } else {
        Err(JailError::IoError(o.os_error.clone()))
    }
}

/// Interprets what a lookup-by-name call returned: a non-negative return
/// value is the jail handle; otherwise the kernel's error text, or the
/// OS error when the kernel left none.
pub fn get_outcome(o: &SyscallOutcome) -> (r: Result<i32, JailError>)
    ensures
        o.ret >= 0 ==> r == Ok::<i32, JailError>(o.ret),
        o.ret < 0 ==> (r matches Err(e) && get_failure_matches(o.errmsg@, o.os_error@, e)),
{
    if o.ret >= 0 {
        Ok(o.ret)
    } else if !o.errmsg.as_str().is_empty() {
        Err(JailError::JailGetError(o.errmsg.clone()))
    } else {
        Err(JailError::IoError(o.os_error.clone()))
    }
}

/// Interprets what a remove call returned: zero is the success sentinel,
/// minus one means the call could not be issued, anything else is an
/// unexpected status.
pub fn remove_outcome(o: &SyscallOutcome) -> (r: Result<(), JailError>)
    ensures
        o.ret == 0 ==> r == Ok::<(), JailError>(()),
        o.ret == -1 ==> (r matches Err(e) && e matches JailError::IoError(m) && m@
            == o.os_error@),
        o.ret != 0 && o.ret != -1 ==> r == Err::<(), JailError>(JailError::JailRemoveFailed),
{
    if o.ret == 0 {
        Ok(())
    } else if o.ret == -1 {
        Err(JailError::IoError(o.os_error.clone()))
    } else {
        Err(JailError::JailRemoveFailed)
    }
}

/// A kernel rejection surfaces through name lookup exactly as it does
/// through a parameter read: given the same failed outcome, both report
/// the same error.
pub proof fn lemma_lookup_read_same_error(
    errmsg: Seq<char>,
    os_error: Seq<char>,
    e1: JailError,
    e2: JailError,
)
    requires
        get_failure_matches(errmsg, os_error, e1),
        get_failure_matches(errmsg, os_error, e2),
    ensures
        e1 is JailGetError <==> e2 is JailGetError,
        e1 is IoError <==> e2 is IoError,
        e1 matches JailError::JailGetError(m1) ==> (e2 matches JailError::JailGetError(m2) && m1@
            == m2@),
        e1 matches JailError::IoError(m1) ==> (e2 matches JailError::IoError(m2) && m1@ == m2@),
{
}

} // verus!
