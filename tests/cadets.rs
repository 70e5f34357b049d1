use pvm::cadets::{handler_for, has_flag, AuditEvent, FBTEvent, Handler, TraceEvent};
use pvm::data::{Name, Node, PVMDataType, PVMOps, Rel};
use pvm::db::DBTr;
use pvm::pvm::{PVMError, PVM};

const H: u128 = 0x6ba7b8109dad11d180b400c04fd430c8;
const U1: u128 = 0x11111111111111111111111111111111;
const U2: u128 = 0x22222222222222222222222222222222;

fn ev(name: &str, subj: u128) -> AuditEvent {
    AuditEvent {
        offset: None,
        event: format!("audit:event:{}:", name),
        time: 0,
        pid: 100,
        ppid: 1,
        tid: 100,
        uid: 0,
        exec_name: "sh".to_string(),
        retval: 0,
        subjprocuuid: subj,
        subjthruuid: subj,
        host: Some(H),
        fd: None,
        cpu_id: None,
        cmdline: None,
        upath1: None,
        upath2: None,
        flags: None,
        fdpath: None,
        arg_objuuid1: None,
        arg_objuuid2: None,
        ret_objuuid1: None,
        ret_objuuid2: None,
        ret_fd1: None,
        ret_fd2: None,
        arg_mem_flags: None,
        arg_sharing_flags: None,
        address: None,
        port: None,
        arg_uid: None,
        arg_euid: None,
        arg_ruid: None,
        arg_suid: None,
        arg_gid: None,
        arg_egid: None,
        arg_rgid: None,
        arg_sgid: None,
        login: None,
        mode: None,
    }
}

fn setup() -> PVM {
    let mut p = PVM::new();
    TraceEvent::init(&mut p);
    p.db.take_events();
    p
}

fn apply(p: PVM, e: &AuditEvent) -> PVM {
    let (p, r) = e.parse(p);
    r.ok().unwrap();
    p
}

fn named_end(p: &PVM, obj: u128, path: &str) -> Option<u64> {
    let id = p.uuid_cache.map[&obj];
    let nid = p
        .name_cache
        .iter()
        .find(|n| matches!(&n.name, Name::Path(q) if q == path))?
        .id;
    p.rel_cache.map.values().find_map(|r| match r {
        Rel::Named(n) if n.src == id && n.dst == nid => Some(n.end),
        _ => None,
    })
}

#[test]
fn fork_scenario() {
    let p = setup();
    let mut e = ev("aue_fork", U1);
    e.ret_objuuid1 = Some(U2);
    e.retval = 4242;
    let (mut p, r) = e.parse(p);
    r.ok().unwrap();
    let evs = p.db.take_events();
    assert_eq!(evs.len(), 5);
    assert!(matches!(&evs[0], DBTr::CreateNode(Node::Ctx(_))));
    match &evs[1] {
        DBTr::CreateNode(Node::Data(n)) => assert_eq!(n.uuid, U1),
        other => panic!("unexpected {:?}", other),
    }
    match &evs[2] {
        DBTr::CreateNode(Node::Data(n)) => {
            assert_eq!(n.uuid, U2);
            assert_eq!(n.meta.cur("pid"), Some("4242".to_string()));
        }
        other => panic!("unexpected {:?}", other),
    }
    let u1 = p.uuid_cache.map[&U1];
    let u2 = p.uuid_cache.map[&U2];
    match &evs[3] {
        DBTr::CreateRel(Rel::Inf(i)) => {
            assert_eq!((i.pvm_op, i.src, i.dst), (PVMOps::Version, u1, u2));
        }
        other => panic!("unexpected {:?}", other),
    }
    match &evs[4] {
        DBTr::CreateRel(Rel::Inf(i)) => {
            assert_eq!((i.pvm_op, i.src, i.dst), (PVMOps::Source, u1, u2));
        }
        other => panic!("unexpected {:?}", other),
    }
}

#[test]
fn write_close_round_trip_scenario() {
    let p = setup();
    let f: u128 = 0xf;
    let mut open = ev("aue_open_rwtc", U1);
    open.ret_objuuid1 = Some(f);
    open.upath1 = Some("/tmp/a".to_string());
    let p = apply(p, &open);
    let f0 = p.uuid_cache.map[&f];
    assert_eq!(named_end(&p, f, "/tmp/a"), Some(0));
    let mut w = ev("aue_write", U1);
    w.arg_objuuid1 = Some(f);
    w.retval = 7;
    let p = apply(p, &w);
    let f1 = p.uuid_cache.map[&f];
    assert_ne!(f1, f0);
    assert_eq!(p.node_cache.map[&f1].pvm_ty, PVMDataType::EditSession);
    let pro = p.uuid_cache.map[&U1];
    let sink = p.rel_cache.map.values().find_map(|r| match r {
        Rel::Inf(i) if i.src == pro && i.dst == f1 && i.pvm_op == PVMOps::Sink => Some(i.byte_count),
        _ => None,
    });
    assert_eq!(sink, Some(7));
    assert!(p.open_cache.map.contains_key(&f));
    let mut c = ev("aue_close", U1);
    c.arg_objuuid1 = Some(f);
    let p = apply(p, &c);
    let f2 = p.uuid_cache.map[&f];
    assert_ne!(f2, f1);
    assert_eq!(p.node_cache.map[&f2].pvm_ty, PVMDataType::Store);
    assert!(!p.open_cache.map.contains_key(&f));
}

#[test]
fn rename_with_overwrite_scenario() {
    let a: u128 = 0xa;
    let b: u128 = 0xb;
    let p = setup();
    let mut o1 = ev("aue_open_rwtc", U1);
    o1.ret_objuuid1 = Some(a);
    o1.upath1 = Some("/a".to_string());
    let p = apply(p, &o1);
    let mut o2 = ev("aue_open_rwtc", U1);
    o2.ret_objuuid1 = Some(b);
    o2.upath1 = Some("/b".to_string());
    let p = apply(p, &o2);
    let mut rn = ev("aue_rename", U1);
    rn.arg_objuuid1 = Some(a);
    rn.arg_objuuid2 = Some(b);
    rn.upath1 = Some("/a".to_string());
    rn.upath2 = Some("/b".to_string());
    let p = apply(p, &rn);
    assert!(named_end(&p, a, "/a").unwrap() > 0);
    assert!(named_end(&p, b, "/b").unwrap() > 0);
    assert_eq!(named_end(&p, a, "/b"), Some(0));
}

#[test]
fn socketpair_scenario() {
    let p = setup();
    let mut e = ev("aue_socketpair", U1);
    e.ret_objuuid1 = Some(0x51);
    e.ret_objuuid2 = Some(0x52);
    let p = apply(p, &e);
    let s1 = p.uuid_cache.map[&0x51];
    let s2 = p.uuid_cache.map[&0x52];
    assert_eq!(p.node_cache.map[&s1].pvm_ty, PVMDataType::Conduit);
    let edges: Vec<(u64, u64)> = p
        .rel_cache
        .map
        .values()
        .filter_map(|r| match r {
            Rel::Inf(i) if i.pvm_op == PVMOps::Connect => Some((i.src, i.dst)),
            _ => None,
        })
        .collect();
    assert_eq!(edges.len(), 2);
    assert!(edges.contains(&(s1, s2)));
    assert!(edges.contains(&(s2, s1)));
}

#[test]
fn missing_field_rolls_back_scenario() {
    let p = setup();
    let before = p.id.store;
    let mut e = ev("aue_chmod", U1);
    e.arg_objuuid1 = Some(0xf);
    e.mode = Some(0o644);
    let (mut p, r) = e.parse(p);
    match r {
        Err(PVMError::MissingField { evt, field }) => {
            assert_eq!(evt, "audit:event:aue_chmod:");
            assert_eq!(field, "upath1");
        }
        _ => panic!("expected a missing field"),
    }
    assert!(p.db.take_events().is_empty());
    assert_eq!(p.id.store, before);
    assert!(p.uuid_cache.map.is_empty());
    assert!(p.unparsed_events.is_empty());
    let mut next = ev("aue_chmod", U1);
    next.arg_objuuid1 = Some(0xf);
    next.mode = Some(0o644);
    next.upath1 = Some("/f".to_string());
    let p = apply(p, &next);
    let f = p.uuid_cache.map[&0xf];
    assert_eq!(p.node_cache.map[&f].meta.cur("mode"), Some("644".to_string()));
}

#[test]
fn missing_host_is_reported() {
    let p = setup();
    let mut e = ev("aue_exit", U1);
    e.host = None;
    let (_, r) = e.parse(p);
    match r {
        Err(PVMError::MissingField { field, .. }) => assert_eq!(field, "host"),
        _ => panic!("expected a missing host"),
    }
}

#[test]
fn exit_releases_the_process() {
    let p = setup();
    let p = apply(p, &ev("aue_dup2", U1));
    assert!(p.uuid_cache.map.contains_key(&U1));
    let p = apply(p, &ev("aue_exit", U1));
    assert!(!p.uuid_cache.map.contains_key(&U1));
}

#[test]
fn unknown_events_are_noted_once() {
    let p = setup();
    let p = apply(p, &ev("aue_frob", U1));
    let p = apply(p, &ev("aue_frob", U1));
    assert_eq!(p.unparsed_events, vec!["audit:event:aue_frob:".to_string()]);
}

fn open_read_close(interleave: bool) -> (PVMDataType, i64, usize) {
    let f: u128 = 0xf;
    let mut p = setup();
    let mut o = ev("aue_open_rwtc", U1);
    o.ret_objuuid1 = Some(f);
    o.upath1 = Some("/f".to_string());
    p = apply(p, &o);
    let mut r = ev("aue_read", U1);
    r.arg_objuuid1 = Some(f);
    r.retval = 9;
    p = apply(p, &r);
    if interleave {
        let mut other = ev("aue_close", U1);
        other.arg_objuuid1 = Some(0x99);
        p = apply(p, &other);
    }
    let mut c = ev("aue_close", U1);
    c.arg_objuuid1 = Some(f);
    p = apply(p, &c);
    let fid = p.uuid_cache.map[&f];
    let pro = p.uuid_cache.map[&U1];
    let bytes = p
        .rel_cache
        .map
        .values()
        .find_map(|x| match x {
            Rel::Inf(i) if i.src == fid && i.dst == pro => Some(i.byte_count),
            _ => None,
        })
        .unwrap();
    let named = named_end(&p, f, "/f").map(|_| 1).unwrap_or(0);
    (p.node_cache.map[&fid].pvm_ty, bytes, named)
}

#[test]
fn unrelated_close_does_not_change_a_read_session() {
    assert_eq!(open_read_close(false), open_read_close(true));
    assert_eq!(open_read_close(false), (PVMDataType::Store, 9, 1));
}

#[test]
fn unrelated_close_does_not_change_a_write_session() {
    let run = |interleave: bool| {
        let f: u128 = 0xf;
        let mut p = setup();
        let mut w = ev("aue_write", U1);
        w.arg_objuuid1 = Some(f);
        w.retval = 3;
        p = apply(p, &w);
        if interleave {
            let mut other = ev("aue_close", U1);
            other.arg_objuuid1 = Some(0x99);
            p = apply(p, &other);
        }
        let mut c = ev("aue_close", U1);
        c.arg_objuuid1 = Some(f);
        p = apply(p, &c);
        let fid = p.uuid_cache.map[&f];
        (p.node_cache.map[&fid].pvm_ty, p.open_cache.map.contains_key(&f))
    };
    assert_eq!(run(false), run(true));
    assert_eq!(run(false), (PVMDataType::Store, false));
}

#[test]
fn handler_table() {
    assert_eq!(handler_for("audit:event:aue_fork:"), Handler::Fork);
    assert_eq!(handler_for("audit:event:aue_vfork:"), Handler::Fork);
    assert_eq!(handler_for("audit:event:aue_writev:"), Handler::Write);
    assert_eq!(handler_for("audit:event:aue_dup2:"), Handler::Ignore);
    assert_eq!(handler_for("audit:event:aue_nothing:"), Handler::Unparsed);
}

#[test]
fn socket_names() {
    let mut e = ev("aue_bind", U1);
    assert!(e.opt_sock_name().ok().unwrap().is_none());
    match e.sock_name() {
        Err(PVMError::MissingField { field, .. }) => assert_eq!(field, "upath1, port"),
        _ => panic!("expected failure"),
    }
    e.port = Some(80);
    match e.sock_name() {
        Err(PVMError::MissingField { field, .. }) => assert_eq!(field, "address"),
        _ => panic!("expected failure"),
    }
    e.address = Some("10.0.0.1".to_string());
    match e.sock_name().ok().unwrap() {
        Name::Net(a, p) => assert_eq!((a.as_str(), p), ("10.0.0.1", 80)),
        _ => panic!("expected a net name"),
    }
    e.upath1 = Some("/sock".to_string());
    assert!(matches!(e.sock_name().ok().unwrap(), Name::Path(p) if p == "/sock"));
}

#[test]
fn flags_lookup() {
    let f = vec!["PROT_READ".to_string(), "PROT_WRITE".to_string()];
    assert!(has_flag(&f, "PROT_WRITE"));
    assert!(!has_flag(&f, "MAP_PRIVATE"));
}

#[test]
fn update_rehosts_uuids() {
    let mut e = ev("aue_fork", U1);
    e.ret_objuuid1 = Some(U1);
    let mut t = TraceEvent::Audit(e);
    t.update();
    t.set_offset(12);
    match &t {
        TraceEvent::Audit(a) => {
            assert_eq!(a.subjprocuuid, 0xb2dcb394b2635a7393bcc860d502ec2f);
            assert_eq!(a.ret_objuuid1, Some(0xb2dcb394b2635a7393bcc860d502ec2f));
            assert_eq!(a.arg_objuuid1, None);
            assert_eq!(a.offset, Some(12));
        }
        _ => panic!("not audit"),
    }
}

#[test]
fn fbt_records_change_nothing() {
    let p = setup();
    let t = TraceEvent::FBT(FBTEvent {
        offset: None,
        event: "fbt".to_string(),
        host: H,
        time: 0,
        so_uuid: U1,
        lport: 1,
        fport: 2,
        laddr: "a".to_string(),
        faddr: "b".to_string(),
    });
    let (mut p, r) = t.process(p);
    assert!(r.is_ok());
    assert!(p.db.take_events().is_empty());
}

#[test]
fn mmap_shared_write_and_read() {
    let p = setup();
    let mut e = ev("aue_mmap", U1);
    e.arg_objuuid1 = Some(0xf);
    e.arg_mem_flags = Some(vec!["PROT_READ".to_string(), "PROT_WRITE".to_string()]);
    let p = apply(p, &e);
    let f = p.uuid_cache.map[&0xf];
    assert_eq!(p.node_cache.map[&f].pvm_ty, PVMDataType::EditSession);
    let mut e2 = ev("aue_mmap", U1);
    e2.arg_objuuid1 = Some(0xe);
    e2.arg_mem_flags = Some(vec!["PROT_WRITE".to_string()]);
    e2.arg_sharing_flags = Some(vec!["MAP_PRIVATE".to_string()]);
    let p = apply(p, &e2);
    let g = p.uuid_cache.map[&0xe];
    assert_eq!(p.node_cache.map[&g].pvm_ty, PVMDataType::Store);
}

#[test]
fn setresuid_skips_minus_one() {
    let p = setup();
    let mut e = ev("aue_setresuid", U1);
    e.arg_ruid = Some(5);
    e.arg_euid = Some(-1);
    e.arg_suid = Some(6);
    let p = apply(p, &e);
    let pro = p.uuid_cache.map[&U1];
    let m = &p.node_cache.map[&pro].meta;
    assert_eq!(m.cur("ruid"), Some("5".to_string()));
    assert_eq!(m.cur("euid"), None);
    assert_eq!(m.cur("suid"), Some("6".to_string()));
}

#[test]
fn chown_records_owner_values() {
    let p = setup();
    let mut e = ev("aue_chown", U1);
    e.arg_objuuid1 = Some(0xf);
    e.upath1 = Some("/f".to_string());
    e.arg_uid = Some(-2);
    e.arg_gid = Some(20);
    let p = apply(p, &e);
    let f = p.uuid_cache.map[&0xf];
    let m = &p.node_cache.map[&f].meta;
    assert_eq!(m.cur("owner_uid"), Some("-2".to_string()));
    assert_eq!(m.cur("owner_gid"), Some("20".to_string()));
}
