use pvm::data::{Inf, Named, NameNode, Name, Node, PVMOps, Rel, SchemaNode};
use pvm::db::{DBTr, DB};
use pvm::id_counter::{IDCounter, IDWrap};

fn schema(id: u64, name: &str) -> Node {
    Node::Schema(SchemaNode { id, name: name.to_string(), is_ctx: false })
}

fn inf(id: u64, bytes: i64) -> Rel {
    Rel::Inf(Inf { id, src: 1, dst: 2, pvm_op: PVMOps::Source, ctx: 3, byte_count: bytes })
}

#[test]
fn update_merges_into_buffered_create() {
    let db = DB::create();
    let mut st = db.store();
    st.create_node(schema(5, "a"));
    st.update_node(schema(5, "b"));
    assert_eq!(st.len(), 1);
    match &st.ops[0] {
        DBTr::CreateNode(Node::Schema(s)) => assert_eq!(s.name, "b"),
        other => panic!("unexpected {:?}", other),
    }
}

#[test]
fn updates_merge_and_order_is_kept() {
    let db = DB::create();
    let mut st = db.store();
    st.update_rel(inf(7, 1));
    st.create_rel(inf(8, 0));
    st.update_rel(inf(7, 9));
    assert_eq!(st.len(), 2);
    match (&st.ops[0], &st.ops[1]) {
        (DBTr::UpdateRel(Rel::Inf(a)), DBTr::CreateRel(Rel::Inf(b))) => {
            assert_eq!(a.id, 7);
            assert_eq!(a.byte_count, 9);
            assert_eq!(b.id, 8);
        }
        other => panic!("unexpected {:?}", other),
    }
}

#[test]
fn node_and_relationship_of_one_id_stay_apart() {
    let db = DB::create();
    let mut st = db.store();
    st.create_node(schema(4, "a"));
    st.update_rel(Rel::Named(Named { id: 4, src: 1, dst: 2, start: 3, end: 0 }));
    assert_eq!(st.len(), 2);
}

#[test]
fn commit_appends_in_order_and_head_goes_first() {
    let mut db = DB::create();
    db.create_node(schema(1, "s"));
    let mut st = db.store();
    st.create_node(Node::Name(NameNode { id: 3, name: Name::Path("/x".to_string()) }));
    st._create_node_head(schema(2, "ctx"));
    st.commit(&mut db);
    let ev = db.take_events();
    let ids: Vec<u64> = ev
        .iter()
        .map(|e| match e {
            DBTr::CreateNode(n) => n.get_db_id(),
            _ => 0,
        })
        .collect();
    assert_eq!(ids, vec![1, 2, 3]);
    assert!(db.take_events().is_empty());
}

#[test]
fn counter_hands_out_in_order_and_snapshots_commit() {
    let mut c = IDCounter::new(1);
    assert_eq!(c.get(), 1);
    assert_eq!(c.get(), 2);
    let mut w = IDWrap::new(&c);
    assert_eq!(w.get(), 3);
    assert_eq!(w.get(), 4);
    assert_eq!(c.store, 3);
    w.commit(&mut c);
    assert_eq!(c.store, 5);
    let s = c.snapshot();
    assert_eq!(s.store, 5);
}
