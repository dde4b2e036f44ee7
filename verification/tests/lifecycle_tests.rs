use jail::codec::{decode, encode};
use jail::param::{split_ips, DeclaredType, IpAddr, Ipv4Addr, Ipv6Addr, Value};
use jail::registry::{parse_len, read_buffer_len, resolve, scalar_type_of};
use jail::sys::{cstr_bytes, get_outcome, remove_outcome, set_outcome, ReadOutcome, SyscallOutcome};
use jail::{IpsRead, Jail, JailError, JailStart, Lookup, ParamRead, RunningJail, StoppedJail};

fn a4(a: u8, b: u8, c: u8, d: u8) -> IpAddr {
    IpAddr::V4(Ipv4Addr::new([a, b, c, d]))
}

fn a6(last: u8) -> IpAddr {
    let mut o = [0u8; 16];
    o[0] = 0xfe;
    o[1] = 0x80;
    o[15] = last;
    IpAddr::V6(Ipv6Addr::new(o))
}

#[test]
fn split_preserves_each_family_order() {
    let ips = vec![a4(127, 0, 1, 2), a6(2), a4(10, 0, 0, 1), a6(3)];
    let (v4, v6) = split_ips(&ips);
    assert_eq!(v4, vec![Ipv4Addr::new([127, 0, 1, 2]), Ipv4Addr::new([10, 0, 0, 1])]);
    assert_eq!(v6.len(), 2);
    assert_eq!(v6[0].octets[15], 2);
    assert_eq!(v6[1].octets[15], 3);
}

#[test]
fn start_without_path_fails_before_any_kernel_work() {
    let stopped = StoppedJail::default();
    let r = stopped.start();
    assert!(matches!(r, Err(JailError::PathNotGiven)));
}

#[test]
fn start_plan_holds_create_args_and_ordered_writes() {
    let stopped = StoppedJail::new(String::from("/rescue"))
        .name(String::from("t1"))
        .hostname(String::from("t1.test"))
        .ip(a4(127, 0, 1, 2))
        .ip(a6(2));
    let plan = stopped.start().expect("a path was given");

    assert_eq!(plan.create[0].name, "path");
    assert_eq!(plan.create[0].bytes, cstr_bytes("/rescue"));
    assert_eq!(plan.create[1].name, "name");
    assert_eq!(plan.create[1].bytes, cstr_bytes("t1"));
    assert_eq!(plan.create[2].name, "host.hostname");
    assert_eq!(plan.create[2].bytes, cstr_bytes("t1.test"));
    assert_eq!(plan.create[3].name, "persist");
    assert!(plan.create[3].bytes.is_empty());

    assert_eq!(plan.writes[0].0, "ip4.addr");
    assert_eq!(
        plan.writes[0].1,
        Value::Ipv4Addrs(vec![Ipv4Addr::new([127, 0, 1, 2])])
    );
    assert_eq!(plan.writes[1].0, "ip6.addr");
    match &plan.writes[1].1 {
        Value::Ipv6Addrs(list) => {
            assert_eq!(list.len(), 1);
            assert_eq!(list[0].octets[15], 2);
        }
        other => panic!("expected the IPv6 list, got {:?}", other),
    }
    assert_eq!(plan.writes.len(), 2);
}

#[test]
fn start_writes_address_lists_even_when_empty() {
    let plan = StoppedJail::new(String::from("/rescue")).start().unwrap();
    assert_eq!(plan.writes[0].1, Value::Ipv4Addrs(Vec::new()));
    assert_eq!(plan.writes[1].1, Value::Ipv6Addrs(Vec::new()));
}

#[test]
fn started_jail_reads_back_v4_subset_in_order() {
    let stopped = StoppedJail::new(String::from("/rescue"))
        .ip(a4(127, 0, 1, 2))
        .ip(a6(2))
        .ip(a4(10, 0, 0, 1));
    let expected_v4 = vec![Ipv4Addr::new([127, 0, 1, 2]), Ipv4Addr::new([10, 0, 0, 1])];
    let plan = stopped.start().unwrap();
    // The write that start issues for the v4 family, sent over the wire
    // and read back, is exactly the v4 subset in its original order.
    let t = DeclaredType::Ipv4Addrs { max_len: 16 };
    let wire = encode(&plan.writes[0].1, &t).unwrap();
    let back = decode(&wire, &t).unwrap();
    assert_eq!(back, Value::Ipv4Addrs(expected_v4));
}

#[test]
fn param_binds_and_replaces() {
    let stopped = StoppedJail::new(String::from("/rescue"))
        .param(String::from("allow.raw_sockets"), Value::Int(0))
        .param(String::from("securelevel"), Value::Int(2))
        .param(String::from("allow.raw_sockets"), Value::Int(1));
    assert_eq!(stopped.params.len(), 2);
    let jail = Jail::from(stopped);
    match jail.param("allow.raw_sockets").unwrap() {
        Lookup::Local(v) => assert_eq!(v, Value::Int(1)),
        Lookup::Kernel(_) => panic!("a stopped jail answers locally"),
    }
    match jail.param("securelevel").unwrap() {
        Lookup::Local(v) => assert_eq!(v, Value::Int(2)),
        Lookup::Kernel(_) => panic!("a stopped jail answers locally"),
    }
    let missing = jail.param("persist");
    match missing {
        Err(JailError::NoSuchParameter(name)) => assert_eq!(name, "persist"),
        other => panic!("expected an unknown parameter, got {:?}", other.is_ok()),
    }
}

#[test]
fn jail_dispatch_on_stopped_state() {
    let stopped = StoppedJail::new(String::from("/rescue"))
        .name(String::from("t1"))
        .hostname(String::from("t1.test"))
        .ip(a4(127, 0, 1, 2));
    let jail = Jail::from(stopped);
    assert!(!jail.is_started());
    match jail.name().unwrap() {
        Lookup::Local(n) => assert_eq!(n, "t1"),
        Lookup::Kernel(_) => panic!("a stopped jail answers locally"),
    }
    match jail.hostname().unwrap() {
        Lookup::Local(h) => assert_eq!(h, "t1.test"),
        Lookup::Kernel(_) => panic!("a stopped jail answers locally"),
    }
    match jail.ips().unwrap() {
        jail::IpsLookup::Local(ips) => assert_eq!(ips, vec![a4(127, 0, 1, 2)]),
        jail::IpsLookup::Kernel(_) => panic!("a stopped jail answers locally"),
    }
}

#[test]
fn jail_name_missing_is_reported_like_a_parameter() {
    let jail = Jail::from(StoppedJail::new(String::from("/rescue")));
    match jail.name() {
        Err(JailError::NoSuchParameter(n)) => assert_eq!(n, "name"),
        other => panic!("expected a missing name, got {:?}", other.is_ok()),
    }
}

#[test]
fn jail_start_on_running_is_a_no_op() {
    let jail = Jail::from(RunningJail::from_jid(7));
    assert!(jail.is_started());
    match jail.start().unwrap() {
        JailStart::Started(j) => assert_eq!(j.jid, 7),
        JailStart::Pending(_) => panic!("a running jail needs no plan"),
    }
}

#[test]
fn kill_consumes_the_handle_into_a_removal() {
    let running = RunningJail::from_jid(42);
    let req = running.kill();
    assert_eq!(req.jid, 42);
    // `running` is gone here: the type system leaves nothing to address
    // the jail through after a kill.
}

#[test]
fn from_name_unknown_fails_like_a_rejected_read() {
    let rejected = SyscallOutcome {
        ret: -1,
        errmsg: String::from("jail \"nosuch\" not found"),
        os_error: String::from("No such process"),
    };
    let lookup_err = RunningJail::from_name(&rejected).unwrap_err();
    let read = ParamRead {
        jid: 9999,
        name: String::from("name"),
        declared: DeclaredType::String { max_len: 8 },
        buf_len: 9,
    };
    let read_err = read
        .finish(&ReadOutcome {
            ret: -1,
            buffer: Vec::new(),
            actual_len: 0,
            errmsg: String::from("jail \"nosuch\" not found"),
            os_error: String::from("No such process"),
        })
        .unwrap_err();
    match (lookup_err, read_err) {
        (JailError::JailGetError(m1), JailError::JailGetError(m2)) => assert_eq!(m1, m2),
        other => panic!("both must be kernel read rejections, got {:?}", other),
    }
}

#[test]
fn from_name_success_wraps_the_handle() {
    let ok = SyscallOutcome { ret: 3, errmsg: String::new(), os_error: String::new() };
    let j = RunningJail::from_name(&ok).unwrap();
    assert_eq!(j, RunningJail::from_jid(3));
}

#[test]
fn lookup_without_kernel_words_surfaces_the_os_error() {
    let rejected = SyscallOutcome {
        ret: -1,
        errmsg: String::new(),
        os_error: String::from("Operation not permitted"),
    };
    match RunningJail::from_name(&rejected) {
        Err(JailError::IoError(m)) => assert_eq!(m, "Operation not permitted"),
        other => panic!("expected the OS error, got {:?}", other.is_ok()),
    }
}

#[test]
fn set_outcome_keeps_kernel_words_verbatim() {
    let o = SyscallOutcome {
        ret: -1,
        errmsg: String::from("jail 4 already exists"),
        os_error: String::from("File exists"),
    };
    match set_outcome(&o) {
        Err(JailError::JailSetError(m)) => assert_eq!(m, "jail 4 already exists"),
        other => panic!("expected the kernel's words, got {:?}", other.is_ok()),
    }
    let ok = SyscallOutcome { ret: 11, errmsg: String::new(), os_error: String::new() };
    assert_eq!(set_outcome(&ok).unwrap(), 11);
}

#[test]
fn get_outcome_mirrors_set_outcome_shape() {
    let ok = SyscallOutcome { ret: 2, errmsg: String::new(), os_error: String::new() };
    assert_eq!(get_outcome(&ok).unwrap(), 2);
}

#[test]
fn remove_outcome_cases() {
    let ok = SyscallOutcome { ret: 0, errmsg: String::new(), os_error: String::new() };
    assert!(remove_outcome(&ok).is_ok());
    let io = SyscallOutcome {
        ret: -1,
        errmsg: String::new(),
        os_error: String::from("Operation not permitted"),
    };
    match remove_outcome(&io) {
        Err(JailError::IoError(m)) => assert_eq!(m, "Operation not permitted"),
        other => panic!("expected the OS error, got {:?}", other.is_ok()),
    }
    let odd = SyscallOutcome { ret: 7, errmsg: String::new(), os_error: String::new() };
    assert!(matches!(remove_outcome(&odd), Err(JailError::JailRemoveFailed)));
}

#[test]
fn read_finish_decodes_to_the_reported_length() {
    let read = ParamRead {
        jid: 1,
        name: String::from("securelevel"),
        declared: DeclaredType::Int,
        buf_len: 4,
    };
    let o = ReadOutcome {
        ret: 0,
        buffer: vec![7, 0, 0, 0, 99, 99],
        actual_len: 4,
        errmsg: String::new(),
        os_error: String::new(),
    };
    assert_eq!(read.finish(&o).unwrap(), Value::Int(7));
}

#[test]
fn read_finish_rejects_a_length_past_the_buffer() {
    let read = ParamRead {
        jid: 1,
        name: String::from("securelevel"),
        declared: DeclaredType::Int,
        buf_len: 4,
    };
    let o = ReadOutcome {
        ret: 0,
        buffer: vec![7, 0],
        actual_len: 4,
        errmsg: String::new(),
        os_error: String::new(),
    };
    assert!(matches!(read.finish(&o), Err(JailError::ParameterUnpackError)));
}

#[test]
fn ips_finish_combines_families_in_order() {
    let reads = IpsRead {
        v4: ParamRead {
            jid: 1,
            name: String::from("ip4.addr"),
            declared: DeclaredType::Ipv4Addrs { max_len: 16 },
            buf_len: 16,
        },
        v6: ParamRead {
            jid: 1,
            name: String::from("ip6.addr"),
            declared: DeclaredType::Ipv6Addrs { max_len: 64 },
            buf_len: 64,
        },
    };
    let o4 = ReadOutcome {
        ret: 0,
        buffer: vec![127, 0, 1, 2, 10, 0, 0, 1],
        actual_len: 8,
        errmsg: String::new(),
        os_error: String::new(),
    };
    let mut six = vec![0u8; 16];
    six[0] = 0xfe;
    six[1] = 0x80;
    six[15] = 2;
    let o6 = ReadOutcome {
        ret: 0,
        buffer: six,
        actual_len: 16,
        errmsg: String::new(),
        os_error: String::new(),
    };
    let ips = reads.finish(&o4, &o6).unwrap();
    assert_eq!(ips, vec![a4(127, 0, 1, 2), a4(10, 0, 0, 1), a6(2)]);
}

fn ips_reads() -> IpsRead {
    IpsRead {
        v4: ParamRead {
            jid: 1,
            name: String::from("ip4.addr"),
            declared: DeclaredType::Ipv4Addrs { max_len: 16 },
            buf_len: 16,
        },
        v6: ParamRead {
            jid: 1,
            name: String::from("ip6.addr"),
            declared: DeclaredType::Ipv6Addrs { max_len: 64 },
            buf_len: 64,
        },
    }
}

fn good_read(buffer: Vec<u8>) -> ReadOutcome {
    let actual_len = buffer.len();
    ReadOutcome { ret: 0, buffer, actual_len, errmsg: String::new(), os_error: String::new() }
}

#[test]
fn ips_finish_propagates_a_rejected_v4_read() {
    let rejected = ReadOutcome {
        ret: -1,
        buffer: Vec::new(),
        actual_len: 0,
        errmsg: String::from("jail 1 not found"),
        os_error: String::new(),
    };
    match ips_reads().finish(&rejected, &good_read(Vec::new())) {
        Err(JailError::JailGetError(m)) => assert_eq!(m, "jail 1 not found"),
        other => panic!("expected the kernel's words, got {:?}", other.is_ok()),
    }
}

#[test]
fn ips_finish_propagates_a_rejected_v6_read() {
    let rejected = ReadOutcome {
        ret: -1,
        buffer: Vec::new(),
        actual_len: 0,
        errmsg: String::new(),
        os_error: String::from("Operation not permitted"),
    };
    match ips_reads().finish(&good_read(vec![127, 0, 1, 2]), &rejected) {
        Err(JailError::IoError(m)) => assert_eq!(m, "Operation not permitted"),
        other => panic!("expected the OS error, got {:?}", other.is_ok()),
    }
}

#[test]
fn ips_finish_rejects_a_partial_address_buffer() {
    let r = ips_reads().finish(&good_read(vec![127, 0, 1]), &good_read(Vec::new()));
    assert!(matches!(r, Err(JailError::ParameterUnpackError)));
}

#[test]
fn parse_len_accepts_digits_only() {
    assert_eq!(parse_len("256").unwrap(), 256);
    assert_eq!(parse_len("0").unwrap(), 0);
    match parse_len("") {
        Err(JailError::ParameterLengthNaN(t)) => assert_eq!(t, ""),
        other => panic!("an empty text is not a number, got {:?}", other.is_ok()),
    }
    match parse_len("12a") {
        Err(JailError::ParameterLengthNaN(t)) => assert_eq!(t, "12a"),
        other => panic!("a letter is not a digit, got {:?}", other.is_ok()),
    }
    assert!(matches!(
        parse_len("999999999999999999999999999999"),
        Err(JailError::ParameterLengthNaN(_))
    ));
}

#[test]
fn read_buffer_len_leaves_room_for_the_terminator() {
    assert_eq!(read_buffer_len(&DeclaredType::String { max_len: 5 }), 6);
    assert_eq!(read_buffer_len(&DeclaredType::Int), 4);
    assert_eq!(read_buffer_len(&DeclaredType::Ipv4Addrs { max_len: 16 }), 16);
}

#[test]
fn resolve_unknown_name_is_no_such_parameter() {
    match resolve("definitely.not.a.jail.parameter") {
        Err(JailError::NoSuchParameter(n)) => {
            assert_eq!(n, "definitely.not.a.jail.parameter")
        }
        other => panic!("expected an unknown parameter, got {:?}", other.is_ok()),
    }
}

#[test]
fn scenario_name_reads_back_trimmed() {
    let read = ParamRead {
        jid: 1,
        name: String::from("name"),
        declared: DeclaredType::String { max_len: 256 },
        buf_len: 257,
    };
    let mut buffer = vec![116u8, 49, 0];
    buffer.extend([7u8, 8]);
    let o = ReadOutcome {
        ret: 0,
        buffer,
        actual_len: 3,
        errmsg: String::new(),
        os_error: String::new(),
    };
    let v = read.finish(&o).unwrap();
    assert_eq!(v.unpack_string().unwrap(), "t1");
}

#[test]
fn lookup_pairs_hold_the_terminated_name() {
    let pairs = RunningJail::from_name_pairs("t1");
    assert_eq!(pairs.len(), 1);
    assert_eq!(pairs[0].name, "name");
    assert_eq!(pairs[0].bytes, vec![116u8, 49, 0]);
}

#[test]
fn param_set_surfaces_an_unknown_name() {
    let running = RunningJail::from_jid(1);
    match running.param_set("definitely.not.a.jail.parameter", &Value::Int(1)) {
        Err(JailError::NoSuchParameter(n)) => {
            assert_eq!(n, "definitely.not.a.jail.parameter")
        }
        other => panic!("expected an unknown parameter, got {:?}", other.is_ok()),
    }
}

#[test]
fn scalar_tags_map_to_their_widths() {
    assert_eq!(scalar_type_of(2), Some(DeclaredType::Int));
    assert_eq!(scalar_type_of(4), Some(DeclaredType::S64));
    assert_eq!(scalar_type_of(6), Some(DeclaredType::U32));
    assert_eq!(scalar_type_of(15), Some(DeclaredType::U32));
    assert_eq!(scalar_type_of(9), Some(DeclaredType::U64));
    assert_eq!(scalar_type_of(1), None);
    assert_eq!(scalar_type_of(3), None);
    assert_eq!(scalar_type_of(5), None);
}

#[test]
fn cstr_bytes_terminates() {
    assert_eq!(cstr_bytes("ab"), vec![97u8, 98, 0]);
    assert_eq!(cstr_bytes(""), vec![0u8]);
}

#[test]
fn value_duplicate_preserves_content() {
    let v = Value::Ipv4Addrs(vec![Ipv4Addr::new([1, 2, 3, 4])]);
    assert_eq!(v.duplicate(), v);
    let s = Value::String(String::from("x"));
    assert_eq!(s.duplicate(), s);
}

#[test]
fn unpack_rejects_other_shapes() {
    assert!(matches!(
        Value::Int(1).unpack_string(),
        Err(JailError::ParameterUnpackError)
    ));
    assert_eq!(
        Value::String(String::from("n")).unpack_string().unwrap(),
        "n"
    );
}
