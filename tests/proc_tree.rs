use pvm::cadets::{AuditEvent, TraceEvent};
use pvm::proc_tree::{ProcTree, TreeRecord};
use pvm::pvm::PVM;

fn fork_event() -> AuditEvent {
    AuditEvent {
        offset: Some(3),
        event: "audit:event:aue_fork:".to_string(),
        time: 0,
        pid: 100,
        ppid: 1,
        tid: 100,
        uid: 0,
        exec_name: "sh".to_string(),
        retval: 4242,
        subjprocuuid: 1,
        subjthruuid: 1,
        host: Some(0x6ba7b8109dad11d180b400c04fd430c8),
        fd: None,
        cpu_id: None,
        cmdline: None,
        upath1: None,
        upath2: None,
        flags: None,
        fdpath: None,
        arg_objuuid1: None,
        arg_objuuid2: None,
        ret_objuuid1: Some(2),
        ret_objuuid2: None,
        ret_fd1: None,
        ret_fd2: None,
        arg_mem_flags: None,
        arg_sharing_flags: None,
        address: None,
        port: None,
        arg_uid: None,
        arg_euid: None,
        arg_ruid: None,
        arg_suid: None,
        arg_gid: None,
        arg_egid: None,
        arg_rgid: None,
        arg_sgid: None,
        login: None,
        mode: None,
    }
}

#[test]
fn process_tree_of_a_fork() {
    let mut p = PVM::new();
    TraceEvent::init(&mut p);
    p.db.take_events();
    let (mut p, r) = fork_event().parse(p);
    assert!(r.is_ok());
    let events = p.db.take_events();
    let mut tree = ProcTree::new("cmdline");
    let out: Vec<Vec<TreeRecord>> = events.iter().map(|e| tree.step(e)).collect();
    assert!(out[0].is_empty());
    match (&out[1][0], &out[1][1]) {
        (TreeRecord::HostVal { uuid, idx }, TreeRecord::Node { cmd, host, trace_idx, ts, .. }) => {
            assert_eq!(uuid, "6ba7b810-9dad-11d1-80b4-00c04fd430c8");
            assert_eq!(*idx, 1);
            assert_eq!(cmd.as_deref(), Some("sh"));
            assert_eq!(*host, Some(1));
            assert_eq!(trace_idx.as_deref(), Some("3"));
            assert_eq!(ts.as_deref(), Some("1970-01-01T00:00:00+00:00"));
        }
        other => panic!("unexpected {:?}", other),
    }
    assert_eq!(out[2].len(), 1);
    assert!(matches!(&out[3][..], [TreeRecord::Edge { .. }]));
    assert!(matches!(&out[4][..], [TreeRecord::Edge { .. }]));
    let again = tree.step(&events[2]);
    assert!(again.is_empty());
}
