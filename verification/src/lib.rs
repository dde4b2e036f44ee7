//! A typed interface to FreeBSD's jail facility.
//!
//! A jail is either a fully specified but not yet running descriptor
//! ([`StoppedJail`]) or a live kernel object addressed by an integer
//! handle ([`RunningJail`]). Parameter payloads travel to and from the
//! kernel as untyped byte buffers; this crate marshals them against the
//! type that the kernel declares for each parameter name.

use vstd::prelude::*;
use vstd::pervasive::VecAdditionalExecFns;
use vstd::string::StringExecFns;

pub mod codec;
pub mod param;
pub mod registry;
pub mod sys;

verus! {

/// The errors this library reports.
#[derive(Debug)]
pub enum JailError {
    /// The OS reported a failure on a raw syscall; carries its message.
    IoError(String),
    /// The kernel rejected a read request; carries its message verbatim.
    JailGetError(String),
    /// The kernel rejected a create or modify request; carries its message verbatim.
    JailSetError(String),
    /// The remove call returned an unexpected status.
    JailRemoveFailed,
    /// `start` was invoked without a root path.
    PathNotGiven,
    /// The introspection interface does not know the parameter name.
    NoSuchParameter(String),
    /// The introspection call for a parameter's type failed; carries its message.
    ParameterTypeError(String),
    /// The introspection call for a string parameter's length failed.
    ParameterStringLengthError(String),
    /// The introspection call for a structure parameter's length failed.
    ParameterStructLengthError(String),
    /// The maximum number of addresses per family could not be determined.
    JailMaxAfIpsFailed(String),
    /// A length entry's textual value did not parse as a number; carries the text.
    ParameterLengthNaN(String),
    /// The declared kernel type has no typed representation; carries its raw tag.
    ParameterTypeUnsupported(u32),
    /// A value's shape does not match the declared type it was used against.
    UnexpectedParameterType { expected: param::TypeTag, got: param::TypeTag },
    /// A buffer could not be decoded against its declared type.
    ParameterUnpackError,
    /// A value could not be encoded against its declared type.
    SerializeFailed,
}

/// A jail that is fully specified but not yet running: everything a
/// create call needs, and nothing the kernel has seen.
#[derive(Clone, Debug)]
pub struct StoppedJail {
    /// The root file system path of the jail.
    pub path: Option<String>,
    /// The jail name.
    pub name: Option<String>,
    /// The jail hostname.
    pub hostname: Option<String>,
    /// The jail parameters, each name bound once; insertion order kept.
    pub params: Vec<(String, param::Value)>,
    /// The IP addresses to assign, in an order that is preserved.
    pub ips: Vec<param::IpAddr>,
}

/// A running jail: nothing but the handle the kernel assigned. Every
/// read goes back to the kernel, so the view is never stale. Not a copy
/// type: `kill` consumes the one value, and with it the last way to
/// address the jail through this instance.
#[derive(Clone, PartialEq, Eq, PartialOrd, Ord, Hash, Debug)]
pub struct RunningJail {
    /// The kernel's handle for the jail.
    pub jid: i32,
}

/// A jail in either lifecycle state.
pub enum Jail {
    Stopped(StoppedJail),
    Running(RunningJail),
}

/// A pending read of one parameter from a running jail: the kernel read
/// call takes a buffer of `buf_len` bytes for `name`, and what it fills
/// is decoded against `declared`.
pub struct ParamRead {
    pub jid: i32,
    pub name: String,
    pub declared: param::DeclaredType,
    pub buf_len: usize,
}

/// A pending write of one parameter to a running jail: `bytes` already
/// encodes the value against the type the kernel declares for `name`.
pub struct SetRequest {
    pub jid: i32,
    pub name: String,
    pub declared: param::DeclaredType,
    pub bytes: Vec<u8>,
}

/// A pending removal of a running jail. Building it consumes the
/// `RunningJail`, so no handle survives a kill.
pub struct RemoveRequest {
    pub jid: i32,
}

/// The two pending reads behind an address query: one per family.
pub struct IpsRead {
    pub v4: ParamRead,
    pub v6: ParamRead,
}

/// Everything a start needs from the kernel, in order: the create call's
/// argument list, then one parameter write per entry of `writes` —
/// first both address lists, written even when empty so that starting
/// with no addresses clears any default, then the caller's parameters.
pub struct StartPlan {
    pub create: Vec<sys::WirePair>,
    pub writes: Vec<(String, param::Value)>,
}

/// What starting a jail in an unknown state yields: a handle when it was
/// already running, else the plan for the kernel calls.
pub enum JailStart {
    Started(RunningJail),
    Pending(StartPlan),
}

/// A queried property: at hand locally for a stopped jail, or a pending
/// kernel read for a running one.
pub enum Lookup<T> {
    Local(T),
    Kernel(ParamRead),
}

/// An address query: at hand locally for a stopped jail, or two pending
/// kernel reads for a running one.
pub enum IpsLookup {
    Local(Vec<param::IpAddr>),
    Kernel(IpsRead),
}

/// The view of an optional string.
pub open spec fn opt_view(o: Option<String>) -> Option<Seq<char>> {
    match o {
        Some(s) => Some(s@),
        None => None,
    }
}

/// The plan `start` owes for a stopped jail: the create arguments built
/// from path, name and hostname, then the two address-list writes in
/// family order, then the caller's parameters unchanged and in order.
pub open spec fn start_plan_matches(s: StoppedJail, p: StartPlan) -> bool {
    &&& match s.path {
        Some(path) => sys::pairs_model(p.create@) == sys::spec_create_pairs(
            path@,
            opt_view(s.name),
            opt_view(s.hostname),
        ),
        None => false,
    }
    &&& p.writes@.len() == 2 + s.params@.len()
    &&& p.writes@[0].0@ == "ip4.addr"@
    &&& p.writes@[0].1.abs() == param::v4_model(s.ips@)
    &&& p.writes@[1].0@ == "ip6.addr"@
    &&& p.writes@[1].1.abs() == param::v6_model(s.ips@)
    &&& p.writes@.skip(2) == s.params@
}

/// A started jail's address parameters read back exactly the subsets
/// given to the builder, each family in its original order: the plan a
/// start owes carries the IPv4 list in its first write and the IPv6 list
/// in its second, and each list's wire round trip returns it unchanged.
pub proof fn lemma_start_reads_back_families(
    s: StoppedJail,
    p: StartPlan,
    t4: param::DeclaredType,
    t6: param::DeclaredType,
)
    requires
        start_plan_matches(s, p),
        t4 is Ipv4Addrs,
        t4.wf(),
        t6 is Ipv6Addrs,
        t6.wf(),
    ensures
        codec::spec_decode(codec::spec_encode(p.writes@[0].1.abs(), t4), t4) == Some(
            param::v4_model(s.ips@),
        ),
        codec::spec_decode(codec::spec_encode(p.writes@[1].1.abs(), t6), t6) == Some(
            param::v6_model(s.ips@),
        ),
{
    codec::lemma_ip_split_round_trip(s.ips@, t4, t6);
}

/// Finds the entry that binds `key`, if any.
fn find_key(params: &Vec<(String, param::Value)>, key: &String) -> (r: Option<usize>)
    ensures
        r matches Some(i) ==> i < params@.len() && params@[i as int].0@ == key@,
        r is None ==> forall|j: int| 0 <= j < params@.len() ==> params@[j].0@ != key@,
{
    let mut i: usize = 0;
    while i < params.len()
        invariant
            i <= params@.len(),
            forall|j: int| 0 <= j < i ==> params@[j].0@ != key@,
        decreases params@.len() - i,
    {
        if params[i].0 == *key {
            return Some(i);
        }
        i = i + 1;
    }
    None
}

/// A copy of an address list.
fn copy_ips(ips: &Vec<param::IpAddr>) -> (r: Vec<param::IpAddr>)
    ensures
        r@ == ips@,
{
    let mut out: Vec<param::IpAddr> = Vec::new();
    let mut i: usize = 0;
    while i < ips.len()
        invariant
            i <= ips@.len(),
            out@ == ips@.take(i as int),
        decreases ips@.len() - i,
    {
        out.push(ips[i]);
        proof {
            assert(out@ =~= ips@.take(i + 1));
        }
        i = i + 1;
    }
    proof {
        assert(out@ =~= ips@);
    }
    out
}

impl Default for StoppedJail {
    /// A descriptor with nothing set.
    fn default() -> (r: StoppedJail)
        ensures
            r.path is None,
            r.name is None,
            r.hostname is None,
            r.params@ == Seq::<(String, param::Value)>::empty(),
            r.ips@ == Seq::<param::IpAddr>::empty(),
            r.wf(),
    {
        StoppedJail {
            path: None,
            name: None,
            hostname: None,
            params: Vec::new(),
            ips: Vec::new(),
        }
    }
}

impl StoppedJail {
    /// Each parameter name is bound once.
    pub open spec fn wf(self) -> bool {
        param::assoc_unique(self.params@)
    }

    /// A descriptor for a jail rooted at `path`, with nothing else set.
    pub fn new(path: String) -> (r: StoppedJail)
        ensures
            r.path == Some(path),
            r.name is None,
            r.hostname is None,
            r.params@ == Seq::<(String, param::Value)>::empty(),
            r.ips@ == Seq::<param::IpAddr>::empty(),
            r.wf(),
    {
        StoppedJail {
            path: Some(path),
            name: None,
            hostname: None,
            params: Vec::new(),
            ips: Vec::new(),
        }
    }

    /// The same descriptor with the jail name set.
    pub fn name(self, name: String) -> (r: StoppedJail)
        ensures
            r.name == Some(name),
            r.path == self.path,
            r.hostname == self.hostname,
            r.params == self.params,
            r.ips == self.ips,
    {
        StoppedJail { name: Some(name), ..self }
    }

    /// The same descriptor with the hostname set.
    pub fn hostname(self, hostname: String) -> (r: StoppedJail)
        ensures
            r.hostname == Some(hostname),
            r.path == self.path,
            r.name == self.name,
            r.params == self.params,
            r.ips == self.ips,
    {
        StoppedJail { hostname: Some(hostname), ..self }
    }

    /// The same descriptor with `param` bound to `value`: a fresh name is
    /// appended, a name already bound keeps its place and gets the new
    /// value; every other binding stays.
    pub fn param(self, name: String, value: param::Value) -> (r: StoppedJail)
        requires
            self.wf(),
        ensures
            r.wf(),
            param::assoc_lookup(r.params@, name@) == Some(value),
            forall|q: Seq<char>|
                q != name@ ==> param::assoc_lookup(r.params@, q) == param::assoc_lookup(
                    self.params@,
                    q,
                ),
            r.path == self.path,
            r.name == self.name,
            r.hostname == self.hostname,
            r.ips == self.ips,
    {
        let mut s = self;
        let ghost before = s.params@;
        match find_key(&s.params, &name) {
            Some(i) => {
                s.params.set(i, (name, value));
                proof {
                    assert(s.params@ == before.update(i as int, s.params@[i as int]));
                    assert(forall|j: int|
                        0 <= j < s.params@.len() ==> s.params@[j].0@ == before[j].0@);
                    param::lemma_lookup_found(s.params@, i as int);
                    assert forall|q: Seq<char>| q != name@ implies param::assoc_lookup(
                        s.params@,
                        q,
                    ) == param::assoc_lookup(before, q) by {
                        param::lemma_lookup_update_other(
                            before,
                            i as int,
                            s.params@[i as int],
                            q,
                        );
                    }
                }
                s
            },
            None => {
                s.params.push((name, value));
                proof {
                    assert(s.params@.drop_last() =~= before);
                    assert forall|q: Seq<char>| q != name@ implies param::assoc_lookup(
                        s.params@,
                        q,
                    ) == param::assoc_lookup(before, q) by {
                        assert(s.params@.last().0@ == name@);
                    }
                }
                s
            },
        }
    }

    /// The same descriptor with `ip` appended to the address list.
    pub fn ip(self, ip: param::IpAddr) -> (r: StoppedJail)
        ensures
            r.ips@ == self.ips@.push(ip),
            r.path == self.path,
            r.name == self.name,
            r.hostname == self.hostname,
            r.params == self.params,
    {
        let mut s = self;
        s.ips.push(ip);
        s
    }

    /// Turns the descriptor into the calls that start the jail.
    ///
    /// Fails with `PathNotGiven`, before anything reaches the kernel,
    /// when no root path was set. Otherwise the plan carries the create
    /// arguments and the parameter writes: the IPv4 then the IPv6 list —
    /// each family in the order the addresses were given, and written
    /// even when empty — then the caller's parameters.
    pub fn start(self) -> (r: Result<StartPlan, JailError>)
        ensures
            self.path is None ==> r == Err::<StartPlan, JailError>(JailError::PathNotGiven),
            self.path is Some ==> (r matches Ok(p) && start_plan_matches(self, p)),
    {
        let path = match &self.path {
            None => {
                return Err(JailError::PathNotGiven);
            },
            Some(p) => p,
        };
        let create = sys::create_pairs(path.as_str(), &self.name, &self.hostname);
        let (v4, v6) = param::split_ips(&self.ips);
        let mut writes: Vec<(String, param::Value)> = Vec::new();
        writes.push((String::from_str("ip4.addr"), param::Value::Ipv4Addrs(v4)));
        writes.push((String::from_str("ip6.addr"), param::Value::Ipv6Addrs(v6)));
        let mut rest = self.params;
        writes.append(&mut rest);
        proof {
            assert(writes@.skip(2) =~= self.params@);
        }
        Ok(StartPlan { create, writes })
    }
}

impl RunningJail {
    /// A handle taken on trust: no check is performed.
    pub fn from_jid(jid: i32) -> (r: RunningJail)
        ensures
            r.jid == jid,
    {
        RunningJail { jid }
    }

    /// The arguments of the lookup call that resolves a name to a handle.
    /// The performer appends the out-slots for the handle and the error
    /// text, and hands the outcome to [`RunningJail::from_name`].
    pub fn from_name_pairs(name: &str) -> (r: Vec<sys::WirePair>)
        ensures
            sys::pairs_model(r@) == seq![
                ("name"@, vstd::utf8::encode_utf8(name@) + seq![0u8]),
            ],
    {
        let mut pairs: Vec<sys::WirePair> = Vec::new();
        pairs.push(sys::WirePair { name: String::from_str("name"), bytes: sys::cstr_bytes(name) });
        proof {
            assert(sys::pairs_model(pairs@) =~= seq![
                ("name"@, vstd::utf8::encode_utf8(name@) + seq![0u8]),
            ]);
        }
        pairs
    }

    /// The jail whose handle a lookup by name returned: the kernel's
    /// non-negative return value is the handle; a rejection surfaces as
    /// the kernel's own error text, or the OS error when it left none —
    /// exactly as a failed read does.
    pub fn from_name(o: &sys::SyscallOutcome) -> (r: Result<RunningJail, JailError>)
        ensures
            o.ret >= 0 ==> (r matches Ok(j) && j.jid == o.ret),
            o.ret < 0 ==> (r matches Err(e) && sys::get_failure_matches(o.errmsg@, o.os_error@, e)),
    {
        match sys::get_outcome(o) {
            Ok(jid) => Ok(RunningJail::from_jid(jid)),
            Err(e) => Err(e),
        }
    }

    /// The pending read of one parameter: resolves the name's declared
    /// type and sizes the read buffer from the registry. The two
    /// address-list names resolve to their address-list types.
    pub fn param(&self, name: &str) -> (r: Result<ParamRead, JailError>)
        ensures
            r matches Ok(p) ==> p.jid == self.jid && p.name@ == name@ && p.declared.wf()
                && p.buf_len == spec_buffer_len(p.declared),
            name@ == "ip4.addr"@ ==> (r matches Ok(p) ==> p.declared is Ipv4Addrs),
            name@ == "ip6.addr"@ ==> (r matches Ok(p) ==> p.declared is Ipv6Addrs),
            r matches Err(e) ==> registry::resolve_error(e),
    {
        let declared = registry::resolve(name)?;
        let buf_len = registry::read_buffer_len(&declared);
        Ok(ParamRead { jid: self.jid, name: name.to_owned(), declared, buf_len })
    }

    /// The pending read of the jail's name parameter.
    pub fn name(&self) -> (r: Result<ParamRead, JailError>)
        ensures
            r matches Ok(p) ==> p.jid == self.jid && p.name@ == "name"@ && p.declared.wf()
                && p.buf_len == spec_buffer_len(p.declared),
            r matches Err(e) ==> registry::resolve_error(e),
    {
        self.param("name")
    }

    /// The pending read of the jail's hostname parameter.
    pub fn hostname(&self) -> (r: Result<ParamRead, JailError>)
        ensures
            r matches Ok(p) ==> p.jid == self.jid && p.name@ == "host.hostname"@
                && p.declared.wf() && p.buf_len == spec_buffer_len(p.declared),
            r matches Err(e) ==> registry::resolve_error(e),
    {
        self.param("host.hostname")
    }

    /// The two pending reads of the jail's address lists, each already of
    /// its family's address-list type, so that their `finish` applies.
    pub fn ips(&self) -> (r: Result<IpsRead, JailError>)
        ensures
            r matches Ok(q) ==> q.v4.jid == self.jid && q.v4.name@ == "ip4.addr"@
                && q.v4.declared.wf() && q.v4.declared is Ipv4Addrs && q.v6.jid == self.jid
                && q.v6.name@ == "ip6.addr"@ && q.v6.declared.wf()
                && q.v6.declared is Ipv6Addrs,
            r matches Err(e) ==> registry::resolve_error(e),
    {
        let v4 = self.param("ip4.addr")?;
        let v6 = self.param("ip6.addr")?;
        Ok(IpsRead { v4, v6 })
    }

    /// The pending write of one parameter: resolves the name's declared
    /// type and encodes the value against it, so that a mismatched shape
    /// fails here with `UnexpectedParameterType` and an oversized value
    /// with `SerializeFailed`, before anything reaches the kernel.
    pub fn param_set(&self, name: &str, value: &param::Value) -> (r: Result<SetRequest, JailError>)
        ensures
            r matches Ok(s) ==> s.jid == self.jid && s.name@ == name@ && s.declared.wf()
                && value.tag() == s.declared.tag() && codec::spec_fits(value.abs(), s.declared)
                && s.bytes@ == codec::spec_encode(value.abs(), s.declared),
            r matches Err(e) ==> (registry::resolve_error(e) || e is UnexpectedParameterType
                || e is SerializeFailed),
    {
        let declared = registry::resolve(name)?;
        let bytes = codec::encode(value, &declared)?;
        Ok(SetRequest { jid: self.jid, name: name.to_owned(), declared, bytes })
    }

    /// Consumes the handle into a pending removal: after this, the
    /// `RunningJail` is gone, so nothing can address the jail again
    /// through it.
    pub fn kill(self) -> (r: RemoveRequest)
        ensures
            r.jid == self.jid,
    {
        RemoveRequest { jid: self.jid }
    }
}

/// The byte capacity a read buffer needs for a declared type.
pub open spec fn spec_buffer_len(t: param::DeclaredType) -> int {
    match t {
        param::DeclaredType::Int => 4,
        param::DeclaredType::S64 => 8,
        param::DeclaredType::U32 => 4,
        param::DeclaredType::U64 => 8,
        param::DeclaredType::Bool => 4,
        param::DeclaredType::String { max_len } => max_len + 1,
        param::DeclaredType::Struct { max_len } => max_len as int,
        param::DeclaredType::Ipv4Addrs { max_len } => max_len as int,
        param::DeclaredType::Ipv6Addrs { max_len } => max_len as int,
    }
}

impl ParamRead {
    /// The declared type is one the registry can hand out.
    pub open spec fn wf(self) -> bool {
        self.declared.wf()
    }

    /// The typed value the kernel's read outcome holds.
    ///
    /// A rejected call surfaces the kernel's error text, or the OS error
    /// when it left none. On success the buffer, cut to the length the
    /// kernel reported, is decoded against the declared type; a length
    /// past the buffer is a malformed reply and fails like an
    /// undecodable buffer.
    pub fn finish(&self, o: &sys::ReadOutcome) -> (r: Result<param::Value, JailError>)
        requires
            self.wf(),
        ensures
            o.ret < 0 ==> (r matches Err(e) && sys::get_failure_matches(o.errmsg@, o.os_error@, e)),
            o.ret >= 0 && o.actual_len > o.buffer@.len() ==> r == Err::<param::Value, JailError>(
                JailError::ParameterUnpackError,
            ),
            o.ret >= 0 && o.actual_len <= o.buffer@.len() ==> {
                let data = o.buffer@.take(o.actual_len as int);
                match codec::spec_decode(data, self.declared) {
                    Some(m) => r matches Ok(v) && v.abs() == m && v.tag() == self.declared.tag(),
                    None => r == Err::<param::Value, JailError>(JailError::ParameterUnpackError),
                }
            },
    {
        if o.ret < 0 {
            if !o.errmsg.as_str().is_empty() {
                return Err(JailError::JailGetError(o.errmsg.clone()));
            }
            return Err(JailError::IoError(o.os_error.clone()));
        }
        if o.actual_len > o.buffer.len() {
            return Err(JailError::ParameterUnpackError);
        }
        let data = vstd::slice::slice_subrange(o.buffer.as_slice(), 0, o.actual_len);
        let v = codec::decode(data, &self.declared)?;
        proof {
            crate::codec::lemma_decode_tag(o.buffer@.take(o.actual_len as int), self.declared);
        }
        Ok(v)
    }
}

/// The kernel read succeeded and what it filled decodes against the
/// read's declared type.
pub open spec fn read_ok(p: ParamRead, o: sys::ReadOutcome) -> bool {
    &&& o.ret >= 0
    &&& o.actual_len <= o.buffer@.len()
    &&& codec::spec_decode(o.buffer@.take(o.actual_len as int), p.declared) is Some
}

impl IpsRead {
    /// The address list the two read outcomes hold: the IPv4 addresses
    /// in buffer order, then the IPv6 addresses in buffer order.
    ///
    /// A rejected or undecodable IPv4 read fails first, exactly as the
    /// single-parameter read does; then the IPv6 read likewise; only two
    /// good reads yield the combined list.
    pub fn finish(&self, o4: &sys::ReadOutcome, o6: &sys::ReadOutcome) -> (r: Result<
        Vec<param::IpAddr>,
        JailError,
    >)
        requires
            self.v4.wf(),
            self.v6.wf(),
            self.v4.declared is Ipv4Addrs,
            self.v6.declared is Ipv6Addrs,
        ensures
            o4.ret < 0 ==> (r matches Err(e) && sys::get_failure_matches(
                o4.errmsg@,
                o4.os_error@,
                e,
            )),
            o4.ret >= 0 && !read_ok(self.v4, *o4) ==> r == Err::<Vec<param::IpAddr>, JailError>(
                JailError::ParameterUnpackError,
            ),
            read_ok(self.v4, *o4) && o6.ret < 0 ==> (r matches Err(e)
                && sys::get_failure_matches(o6.errmsg@, o6.os_error@, e)),
            read_ok(self.v4, *o4) && o6.ret >= 0 && !read_ok(self.v6, *o6) ==> r == Err::<
                Vec<param::IpAddr>,
                JailError,
            >(JailError::ParameterUnpackError),
            read_ok(self.v4, *o4) && read_ok(self.v6, *o6) ==> (r matches Ok(list) && {
                let d4 = codec::spec_decode(
                    o4.buffer@.take(o4.actual_len as int),
                    self.v4.declared,
                );
                let d6 = codec::spec_decode(
                    o6.buffer@.take(o6.actual_len as int),
                    self.v6.declared,
                );
                match (d4, d6) {
                    (Some(param::ValueModel::V4(a4)), Some(param::ValueModel::V6(a6))) => {
                        &&& list@.len() == a4.len() + a6.len()
                        &&& forall|i: int|
                            0 <= i < a4.len() ==> ((#[trigger] list@[i]) matches param::IpAddr::V4(
                                x,
                            ) && x.octets@ == a4[i])
                        &&& forall|i: int|
                            0 <= i < a6.len() ==> ((#[trigger] list@[a4.len() + i]) matches
                                param::IpAddr::V6(x) && x.octets@ == a6[i])
                    },
                    _ => false,
                }
            }),
    {
        proof {
            codec::lemma_decode_tag(o4.buffer@.take(o4.actual_len as int), self.v4.declared);
            codec::lemma_decode_tag(o6.buffer@.take(o6.actual_len as int), self.v6.declared);
        }
        let val4 = self.v4.finish(o4)?;
        let val6 = self.v6.finish(o6)?;
        let a4 = val4.unpack_ipv4()?;
        let a6 = val6.unpack_ipv6()?;
        let mut out: Vec<param::IpAddr> = Vec::new();
        let mut i: usize = 0;
        while i < a4.len()
            invariant
                i <= a4@.len(),
                out@.len() == i,
                forall|j: int|
                    0 <= j < i ==> ((#[trigger] out@[j]) matches param::IpAddr::V4(x) && x
                        == a4@[j]),
            decreases a4@.len() - i,
        {
            out.push(param::IpAddr::V4(a4[i]));
            i = i + 1;
        }
        let mut k: usize = 0;
        while k < a6.len()
            invariant
                k <= a6@.len(),
                out@.len() == a4@.len() + k,
                forall|j: int|
                    0 <= j < a4@.len() ==> ((#[trigger] out@[j]) matches param::IpAddr::V4(x) && x
                        == a4@[j]),
                forall|j: int|
                    0 <= j < k ==> ((#[trigger] out@[a4@.len() + j]) matches param::IpAddr::V6(x)
                        && x == a6@[j]),
            decreases a6@.len() - k,
        {
            out.push(param::IpAddr::V6(a6[k]));
            k = k + 1;
        }
        Ok(out)
    }
}

impl core::convert::From<StoppedJail> for Jail {
    /// A stopped jail, held as a jail.
    fn from(stopped: StoppedJail) -> (r: Jail) {
        Jail::Stopped(stopped)
    }
}

impl vstd::std_specs::convert::FromSpecImpl<StoppedJail> for Jail {
    open spec fn obeys_from_spec() -> bool {
        true
    }

    open spec fn from_spec(t: StoppedJail) -> Jail {
        Jail::Stopped(t)
    }
}

impl core::convert::From<RunningJail> for Jail {
    /// A running jail, held as a jail.
    fn from(running: RunningJail) -> (r: Jail) {
        Jail::Running(running)
    }
}

impl vstd::std_specs::convert::FromSpecImpl<RunningJail> for Jail {
    open spec fn obeys_from_spec() -> bool {
        true
    }

    open spec fn from_spec(t: RunningJail) -> Jail {
        Jail::Running(t)
    }
}

impl Jail {
    /// The stopped variant's parameter names are each bound once.
    pub open spec fn wf(self) -> bool {
        match self {
            Jail::Stopped(s) => s.wf(),
            Jail::Running(_) => true,
        }
    }

    /// Whether the jail is running.
    pub fn is_started(&self) -> (r: bool)
        ensures
            r == (self is Running),
    {
        match self {
            Jail::Running(_) => true,
            Jail::Stopped(_) => false,
        }
    }

    /// Starts the jail: a handle at once when it already runs, else the
    /// plan a stopped jail's `start` owes, or its `PathNotGiven`.
    pub fn start(self) -> (r: Result<JailStart, JailError>)
        ensures
            self matches Jail::Running(j) ==> r == Ok::<JailStart, JailError>(
                JailStart::Started(j),
            ),
            self matches Jail::Stopped(s) ==> {
                &&& s.path is None ==> r == Err::<JailStart, JailError>(JailError::PathNotGiven)
                &&& s.path is Some ==> (r matches Ok(js) && js matches JailStart::Pending(p)
                    && start_plan_matches(s, p))
            },
    {
        match self {
            Jail::Running(j) => Ok(JailStart::Started(j)),
            Jail::Stopped(s) => {
                match s.start() {
                    Ok(p) => Ok(JailStart::Pending(p)),
                    Err(e) => Err(e),
                }
            },
        }
    }

    /// The jail's name: the stored one for a stopped jail — missing, it
    /// is reported like an unknown parameter — or the pending read of
    /// the name parameter for a running one.
    pub fn name(&self) -> (r: Result<Lookup<String>, JailError>)
        ensures
            self matches Jail::Stopped(s) ==> {
                match s.name {
                    Some(n) => r matches Ok(l) && l matches Lookup::Local(v) && v@ == n@,
                    None => r matches Err(e) && (e matches JailError::NoSuchParameter(m) && m@
                        == "name"@),
                }
            },
            self matches Jail::Running(j) ==> (r matches Ok(l) ==> (l matches Lookup::Kernel(p)
                && p.jid == j.jid && p.name@ == "name"@ && p.wf())),
            self is Running ==> (r matches Err(e) ==> registry::resolve_error(e)),
    {
        match self {
            Jail::Running(j) => {
                match j.name() {
                    Ok(p) => Ok(Lookup::Kernel(p)),
                    Err(e) => Err(e),
                }
            },
            Jail::Stopped(s) => {
                match &s.name {
                    Some(n) => Ok(Lookup::Local(n.clone())),
                    None => Err(JailError::NoSuchParameter(String::from_str("name"))),
                }
            },
        }
    }

    /// The jail's hostname, like [`Jail::name`].
    pub fn hostname(&self) -> (r: Result<Lookup<String>, JailError>)
        ensures
            self matches Jail::Stopped(s) ==> {
                match s.hostname {
                    Some(h) => r matches Ok(l) && l matches Lookup::Local(v) && v@ == h@,
                    None => r matches Err(e) && (e matches JailError::NoSuchParameter(m) && m@
                        == "hostname"@),
                }
            },
            self matches Jail::Running(j) ==> (r matches Ok(l) ==> (l matches Lookup::Kernel(p)
                && p.jid == j.jid && p.name@ == "host.hostname"@ && p.wf())),
            self is Running ==> (r matches Err(e) ==> registry::resolve_error(e)),
    {
        match self {
            Jail::Running(j) => {
                match j.hostname() {
                    Ok(p) => Ok(Lookup::Kernel(p)),
                    Err(e) => Err(e),
                }
            },
            Jail::Stopped(s) => {
                match &s.hostname {
                    Some(h) => Ok(Lookup::Local(h.clone())),
                    None => Err(JailError::NoSuchParameter(String::from_str("hostname"))),
                }
            },
        }
    }

    /// The jail's addresses: the stored list for a stopped jail, or the
    /// two pending family reads for a running one.
    pub fn ips(&self) -> (r: Result<IpsLookup, JailError>)
        ensures
            self matches Jail::Stopped(s) ==> (r matches Ok(l) && l matches IpsLookup::Local(v)
                && v@ == s.ips@),
            self matches Jail::Running(j) ==> (r matches Ok(l) ==> (l matches IpsLookup::Kernel(q)
                && q.v4.jid == j.jid && q.v6.jid == j.jid && q.v4.name@ == "ip4.addr"@
                && q.v6.name@ == "ip6.addr"@ && q.v4.wf() && q.v6.wf())),
            self is Running ==> (r matches Err(e) ==> registry::resolve_error(e)),
    {
        match self {
            Jail::Running(j) => {
                match j.ips() {
                    Ok(q) => Ok(IpsLookup::Kernel(q)),
                    Err(e) => Err(e),
                }
            },
            Jail::Stopped(s) => Ok(IpsLookup::Local(copy_ips(&s.ips))),
        }
    }

    /// One parameter of the jail: for a stopped jail the stored binding
    /// — a name not bound is `NoSuchParameter` — and for a running one
    /// the pending kernel read.
    pub fn param(&self, name: &str) -> (r: Result<Lookup<param::Value>, JailError>)
        requires
            self.wf(),
        ensures
            self matches Jail::Stopped(s) ==> {
                match param::assoc_lookup(s.params@, name@) {
                    Some(w) => r matches Ok(l) && (l matches Lookup::Local(v) && v.abs()
                        == w.abs()),
                    None => r matches Err(e) && (e matches JailError::NoSuchParameter(m) && m@
                        == name@),
                }
            },
            self matches Jail::Running(j) ==> (r matches Ok(l) ==> (l matches Lookup::Kernel(p)
                && p.jid == j.jid && p.name@ == name@ && p.wf())),
            self is Running ==> (r matches Err(e) ==> registry::resolve_error(e)),
    {
        match self {
            Jail::Running(j) => {
                match j.param(name) {
                    Ok(p) => Ok(Lookup::Kernel(p)),
                    Err(e) => Err(e),
                }
            },
            Jail::Stopped(s) => {
                let key = name.to_owned();
                match find_key(&s.params, &key) {
                    Some(i) => {
                        proof {
                            param::lemma_lookup_found(s.params@, i as int);
                        }
                        Ok(Lookup::Local(s.params[i].1.duplicate()))
                    },
                    None => {
                        proof {
                            param::lemma_lookup_absent(s.params@, name@);
                        }
                        Err(JailError::NoSuchParameter(key))
                    },
                }
            },
        }
    }
}

} // verus!
