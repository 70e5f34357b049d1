use pvm::cadets::{ctx_type, file_type, process_type, socket_type, TraceEvent};
use pvm::data::{ContextType, Name, Node, PVMDataType, PVMOps, Rel};
use pvm::db::DBTr;
use pvm::pvm::{ConnectDir, PVMError, PVMTransaction, PVM};

fn setup() -> PVM {
    let mut p = PVM::new();
    TraceEvent::init(&mut p);
    p
}

fn begin(p: PVM) -> PVMTransaction {
    match p.transaction(&ctx_type(), vec![("event".to_string(), "e".to_string())]) {
        Ok(t) => t,
        Err(_) => panic!("context type not registered"),
    }
}

fn creates(events: &[DBTr]) -> usize {
    events
        .iter()
        .filter(|e| matches!(e, DBTr::CreateNode(Node::Data(_))))
        .count()
}

#[test]
fn init_registers_five_types_and_a_context_type() {
    let mut p = setup();
    assert_eq!(p.type_cache.len(), 5);
    assert_eq!(p.ctx_type_cache.len(), 1);
    assert_eq!(p.id.store, 7);
    assert_eq!(p.db.take_events().len(), 6);
}

#[test]
fn unregistered_context_type_hands_the_graph_back() {
    let p = setup();
    let other = ContextType { name: "other".to_string(), props: vec![] };
    match p.transaction(&other, vec![]) {
        Ok(_) => panic!("accepted"),
        Err(q) => assert_eq!(q.id.store, 7),
    }
}

#[test]
fn declare_twice_gives_one_node_and_one_creation() {
    let mut p = setup();
    p.db.take_events();
    let mut t = begin(p);
    let a = t.declare(&file_type(), 0xaa, None).ok().unwrap();
    let b = t.declare(&file_type(), 0xaa, None).ok().unwrap();
    assert_eq!(a, b);
    let mut p = t.commit();
    let ev = p.db.take_events();
    assert_eq!(creates(&ev), 1);
}

#[test]
fn declare_of_unregistered_type_fails() {
    let p = PVM::new();
    let mut p = p;
    p.register_ctx_type(ctx_type());
    let mut t = begin(p);
    match t.declare(&file_type(), 1, None) {
        Err(PVMError::AssertionFailure { .. }) => {}
        _ => panic!("expected failure"),
    }
}

#[test]
fn release_drops_the_uuid_and_a_later_declare_is_fresh() {
    let p = setup();
    let mut t = begin(p);
    let a = t.declare(&process_type(), 0x11, None).ok().unwrap();
    t.release(0x11);
    assert!(!t.pvm.uuid_cache.map.contains_key(&0x11));
    assert!(!t.pvm.node_cache.map.contains_key(&a));
    let b = t.declare(&process_type(), 0x11, None).ok().unwrap();
    assert_ne!(a, b);
    assert_eq!(t.pvm.uuid_cache.map[&0x11], b);
}

#[test]
fn uuid_index_names_each_current_node_once() {
    let p = setup();
    let mut t = begin(p);
    let a = t.declare(&process_type(), 1, None).ok().unwrap();
    let f = t.declare(&file_type(), 2, None).ok().unwrap();
    t.sinkstart(a, f).ok().unwrap();
    let p = t.commit();
    let mut ids: Vec<u64> = p.uuid_cache.map.values().cloned().collect();
    ids.sort();
    let mut nodes: Vec<u64> = p.node_cache.map.keys().cloned().collect();
    nodes.sort();
    assert_eq!(ids, nodes);
    assert_eq!(ids.len(), 2);
}

#[test]
fn one_relationship_per_kind_source_and_destination() {
    let p = setup();
    let mut t = begin(p);
    let a = t.declare(&process_type(), 1, None).ok().unwrap();
    let f = t.declare(&file_type(), 2, None).ok().unwrap();
    let r1 = t.source(a, f).ok().unwrap();
    let r2 = t.source(a, f).ok().unwrap();
    assert_eq!(r1, r2);
    let n1 = t.name(f, Name::Path("/f".to_string())).ok().unwrap();
    let n2 = t.name(f, Name::Path("/f".to_string())).ok().unwrap();
    assert_eq!(n1, n2);
    let named = t.pvm.rel_cache.map.values().filter(|r| matches!(r, Rel::Named(_))).count();
    assert_eq!(named, 1);
    assert_eq!(t.pvm.name_cache.len(), 1);
}

#[test]
fn source_requires_an_actor_and_a_current_node() {
    let p = setup();
    let mut t = begin(p);
    let f = t.declare(&file_type(), 2, None).ok().unwrap();
    let g = t.declare(&file_type(), 3, None).ok().unwrap();
    assert!(t.source(f, g).is_err());
    let a = t.declare(&process_type(), 1, None).ok().unwrap();
    assert!(t.source(a, 999).is_err());
    assert!(t.sink(a, 999).is_err());
    assert!(t.sinkend(f, g).is_err());
}

#[test]
fn empty_transaction_logs_nothing_and_keeps_the_counter() {
    let mut p = setup();
    p.db.take_events();
    let before = p.id.store;
    let mut t = begin(p);
    t.declare(&process_type(), 5, None).ok().unwrap();
    let mut p = t.commit();
    p.db.take_events();
    let before2 = p.id.store;
    assert!(before2 > before);
    let mut t = begin(p);
    t.declare(&process_type(), 5, None).ok().unwrap();
    let mut p = t.commit();
    assert_eq!(p.id.store, before2);
    assert!(p.db.take_events().is_empty());
}

#[test]
fn context_node_comes_first_with_the_lowest_id() {
    let mut p = setup();
    p.db.take_events();
    let mut t = begin(p);
    let a = t.declare(&process_type(), 1, None).ok().unwrap();
    let f = t.declare(&file_type(), 2, None).ok().unwrap();
    t.sink(a, f).ok().unwrap();
    let mut p = t.commit();
    let ev = p.db.take_events();
    let ctx_id = match &ev[0] {
        DBTr::CreateNode(Node::Ctx(c)) => c.id,
        other => panic!("unexpected {:?}", other),
    };
    for e in &ev[1..] {
        match e {
            DBTr::CreateNode(n) => assert!(n.get_db_id() > ctx_id),
            DBTr::CreateRel(r) => assert!(r.get_db_id() > ctx_id),
            _ => {}
        }
    }
}

#[test]
fn rollback_restores_the_graph() {
    let mut p = setup();
    p.db.take_events();
    let mut t = begin(p);
    let a = t.declare(&process_type(), 1, None).ok().unwrap();
    let f = t.declare(&file_type(), 2, None).ok().unwrap();
    t.sinkstart(a, f).ok().unwrap();
    t.name(f, Name::Path("/x".to_string())).ok().unwrap();
    let mut p = t.rollback();
    assert!(p.uuid_cache.map.is_empty());
    assert!(p.node_cache.map.is_empty());
    assert!(p.rel_cache.map.is_empty());
    assert!(p.open_cache.map.is_empty());
    assert!(p.name_cache.is_empty());
    assert_eq!(p.id.store, 7);
    assert!(p.db.take_events().is_empty());
}

#[test]
fn write_session_opens_closes_and_reopens() {
    let p = setup();
    let mut t = begin(p);
    let a = t.declare(&process_type(), 1, None).ok().unwrap();
    let f = t.declare(&file_type(), 2, None).ok().unwrap();
    t.sinkstart(a, f).ok().unwrap();
    let es = t.pvm.uuid_cache.map[&2];
    assert_eq!(t.pvm.node_cache.map[&es].pvm_ty, PVMDataType::EditSession);
    assert_eq!(t.pvm.open_cache.map[&2], vec![1]);
    t.sinkend(a, es).ok().unwrap();
    assert!(!t.pvm.open_cache.map.contains_key(&2));
    let st = t.pvm.uuid_cache.map[&2];
    assert_eq!(t.pvm.node_cache.map[&st].pvm_ty, PVMDataType::Store);
    t.sinkstart(a, st).ok().unwrap();
    let es2 = t.pvm.uuid_cache.map[&2];
    assert_ne!(es2, es);
    assert_eq!(t.pvm.node_cache.map[&es2].pvm_ty, PVMDataType::EditSession);
}

#[test]
fn two_writers_keep_the_session_open_until_both_leave() {
    let p = setup();
    let mut t = begin(p);
    let a = t.declare(&process_type(), 1, None).ok().unwrap();
    let b = t.declare(&process_type(), 3, None).ok().unwrap();
    let f = t.declare(&file_type(), 2, None).ok().unwrap();
    t.sinkstart(a, f).ok().unwrap();
    let es = t.pvm.uuid_cache.map[&2];
    t.sinkstart(b, es).ok().unwrap();
    t.sinkend(a, es).ok().unwrap();
    assert_eq!(t.pvm.uuid_cache.map[&2], es);
    assert_eq!(t.pvm.open_cache.map[&2], vec![3]);
    t.sinkend(b, es).ok().unwrap();
    assert_ne!(t.pvm.uuid_cache.map[&2], es);
    assert!(!t.pvm.open_cache.map.contains_key(&2));
}

#[test]
fn byte_counters_grow() {
    let p = setup();
    let mut t = begin(p);
    let a = t.declare(&process_type(), 1, None).ok().unwrap();
    let s = t.declare(&socket_type(), 2, None).ok().unwrap();
    let r = t.source_nbytes(a, s, 5).ok().unwrap();
    let r2 = t.source_nbytes(a, s, 7).ok().unwrap();
    assert_eq!(r, r2);
    match t.pvm.rel_cache.map[&r] {
        Rel::Inf(i) => {
            assert_eq!(i.byte_count, 12);
            assert_eq!(i.pvm_op, PVMOps::Source);
        }
        _ => panic!("not an Inf"),
    }
    let w = t.sinkstart_nbytes(a, s, 3).ok().unwrap();
    match t.pvm.rel_cache.map[&w] {
        Rel::Inf(i) => assert_eq!(i.byte_count, 3),
        _ => panic!("not an Inf"),
    }
}

#[test]
fn byte_counter_saturates() {
    let p = setup();
    let mut t = begin(p);
    let a = t.declare(&process_type(), 1, None).ok().unwrap();
    let s = t.declare(&socket_type(), 2, None).ok().unwrap();
    t.source_nbytes(a, s, i64::MAX).ok().unwrap();
    let r = t.source_nbytes(a, s, 1).ok().unwrap();
    match t.pvm.rel_cache.map[&r] {
        Rel::Inf(i) => assert_eq!(i.byte_count, i64::MAX),
        _ => panic!("not an Inf"),
    }
}

#[test]
fn connect_needs_two_conduits() {
    let p = setup();
    let mut t = begin(p);
    let s1 = t.declare(&socket_type(), 1, None).ok().unwrap();
    let s2 = t.declare(&socket_type(), 2, None).ok().unwrap();
    let f = t.declare(&file_type(), 3, None).ok().unwrap();
    assert!(t.connect(s1, f, ConnectDir::Mono).is_err());
    assert!(t.connect(f, s1, ConnectDir::Mono).is_err());
    t.connect(s1, s2, ConnectDir::Mono).unwrap();
    let n = t.pvm.rel_cache.map.len();
    assert_eq!(n, 1);
    t.connect(s1, s2, ConnectDir::BiDirectional).unwrap();
    assert_eq!(t.pvm.rel_cache.map.len(), 2);
}

#[test]
fn meta_records_values_and_rejects_unknown_keys() {
    let p = setup();
    let mut t = begin(p);
    let a = t.declare(
        &process_type(),
        1,
        Some(vec![("cmdline".to_string(), "sh".to_string()), ("pid".to_string(), "7".to_string())]),
    )
    .ok()
    .unwrap();
    t.meta(a, "euid", "0").unwrap();
    let n = &t.pvm.node_cache.map[&a];
    assert_eq!(n.meta.cur("euid"), Some("0".to_string()));
    assert_eq!(n.meta.cur("cmdline"), Some("sh".to_string()));
    assert!(!n.meta.entries[1].heritable);
    assert!(t.meta(a, "mode", "1").is_err());
    assert!(t.meta(999, "euid", "1").is_err());
}

#[test]
fn derive_inherits_heritable_values() {
    let p = setup();
    let mut t = begin(p);
    let a = t.declare(
        &process_type(),
        1,
        Some(vec![("cmdline".to_string(), "sh".to_string()), ("pid".to_string(), "7".to_string())]),
    )
    .ok()
    .unwrap();
    let c = t.derive(a, 2).ok().unwrap();
    let n = &t.pvm.node_cache.map[&c];
    assert_eq!(n.meta.cur("cmdline"), Some("sh".to_string()));
    assert_eq!(n.meta.cur("pid"), None);
    assert_eq!(n.pvm_ty, PVMDataType::Actor);
    assert!(t.derive(999, 3).is_err());
}

#[test]
fn unname_closes_the_naming() {
    let p = setup();
    let mut t = begin(p);
    let f = t.declare(&file_type(), 2, None).ok().unwrap();
    let r = t.name(f, Name::Path("/a".to_string())).ok().unwrap();
    let r2 = t.unname(f, Name::Path("/a".to_string())).ok().unwrap();
    assert_eq!(r, r2);
    match t.pvm.rel_cache.map[&r] {
        Rel::Named(n) => assert_eq!(n.end, t.ctx),
        _ => panic!("not Named"),
    }
}

#[test]
fn add_supplants_the_current_node() {
    let p = setup();
    let mut t = begin(p);
    let a = t.declare(&file_type(), 2, None).ok().unwrap();
    let b = t.add(PVMDataType::Store, &file_type(), 2, None).ok().unwrap();
    assert_ne!(a, b);
    assert!(!t.pvm.node_cache.map.contains_key(&a));
    assert_eq!(t.pvm.uuid_cache.map[&2], b);
}

#[test]
fn source_accepts_any_allocated_entity() {
    let p = setup();
    let mut t = begin(p);
    let a = t.declare(&process_type(), 1, None).ok().unwrap();
    let f = t.declare(&file_type(), 2, None).ok().unwrap();
    t.sink(a, f).ok().unwrap();
    assert!(!t.pvm.node_cache.map.contains_key(&f));
    let r = t.source(a, f).ok().unwrap();
    match t.pvm.rel_cache.map[&r] {
        Rel::Inf(i) => assert_eq!((i.src, i.dst, i.pvm_op), (f, a, PVMOps::Source)),
        _ => panic!("not an Inf"),
    }
}

#[test]
fn repeated_connect_buffers_nothing() {
    let p = setup();
    let mut t = begin(p);
    let s1 = t.declare(&socket_type(), 1, None).ok().unwrap();
    let s2 = t.declare(&socket_type(), 2, None).ok().unwrap();
    t.connect(s1, s2, ConnectDir::BiDirectional).unwrap();
    let before = t.db.ops.len();
    let rels = t.pvm.rel_cache.map.len();
    t.connect(s1, s2, ConnectDir::BiDirectional).unwrap();
    assert_eq!(t.db.ops.len(), before);
    assert_eq!(t.pvm.rel_cache.map.len(), rels);
}
