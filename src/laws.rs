//! Properties of the graph that hold across operations.
use vstd::prelude::*;
use crate::data::{ConcreteType, Name, PVMDataType};
use crate::pvm::{writers, PVMResult, PVMTransaction, PVM};

verus! {

/// Between transactions the UUID index is a bijection between the known UUIDs
/// and the current nodes: distinct UUIDs name distinct nodes, every current
/// node is named by its own UUID.
pub proof fn uuid_index_is_bijection(p: PVM)
    requires
        p.wf(),
    ensures
        forall|u1: u128, u2: u128|
            p.uuid_cache@.contains_key(u1) && p.uuid_cache@.contains_key(u2) && p.uuid_cache@[u1] == p.uuid_cache@[u2]
                ==> u1 == u2,
        forall|u: u128| p.uuid_cache@.contains_key(u)
            ==> #[trigger] p.node_cache@.contains_key(p.uuid_cache@[u]),
        forall|id: u64| #[trigger] p.node_cache@.contains_key(id)
            ==> exists|u: u128| p.uuid_cache@.contains_key(u) && p.uuid_cache@[u] == id,
{
    assert forall|u1: u128, u2: u128|
        p.uuid_cache@.contains_key(u1) && p.uuid_cache@.contains_key(u2) && p.uuid_cache@[u1] == p.uuid_cache@[u2] implies u1 == u2 by {
        assert(p.uuid_cache@.contains_key(u1));
        assert(p.uuid_cache@.contains_key(u2));
    }
    assert forall|id: u64| #[trigger] p.node_cache@.contains_key(id) implies exists|u: u128| p.uuid_cache@.contains_key(u) && p.uuid_cache@[u] == id by {
        let u = p.node_cache@[id].uuid;
        assert(p.uuid_cache@.contains_key(u) && p.uuid_cache@[u] == id);
    }
}

/// Between transactions no two relationships of one kind (for `Inf`, of one
/// operation) share their source and destination.
pub proof fn one_rel_per_triple(p: PVM)
    requires
        p.wf(),
    ensures
        forall|i: u64, j: u64|
            p.rel_cache@.contains_key(i) && p.rel_cache@.contains_key(j) && #[trigger] p.rel_cache@[i] is Inf && #[trigger] p.rel_cache@[j] is Inf
                && p.rel_cache@[i]->Inf_0.pvm_op == p.rel_cache@[j]->Inf_0.pvm_op
                && p.rel_cache@[i]->Inf_0.src == p.rel_cache@[j]->Inf_0.src && p.rel_cache@[i]->Inf_0.dst == p.rel_cache@[j]->Inf_0.dst
                    ==> i == j,
        forall|i: u64, j: u64|
            p.rel_cache@.contains_key(i) && p.rel_cache@.contains_key(j) && #[trigger] p.rel_cache@[i] is Named && #[trigger] p.rel_cache@[j] is Named
                && p.rel_cache@[i]->Named_0.src == p.rel_cache@[j]->Named_0.src && p.rel_cache@[i]->Named_0.dst == p.rel_cache@[j]->Named_0.dst
                    ==> i == j,
{
    assert forall|i: u64, j: u64|
        p.rel_cache@.contains_key(i) && p.rel_cache@.contains_key(j) && #[trigger] p.rel_cache@[i] is Inf && #[trigger] p.rel_cache@[j] is Inf
            && p.rel_cache@[i]->Inf_0.pvm_op == p.rel_cache@[j]->Inf_0.pvm_op
                && p.rel_cache@[i]->Inf_0.src == p.rel_cache@[j]->Inf_0.src && p.rel_cache@[i]->Inf_0.dst == p.rel_cache@[j]->Inf_0.dst implies i == j by {
        assert(p.rel_cache@.contains_key(i));
        assert(p.rel_cache@.contains_key(j));
    }
    assert forall|i: u64, j: u64|
        p.rel_cache@.contains_key(i) && p.rel_cache@.contains_key(j) && #[trigger] p.rel_cache@[i] is Named && #[trigger] p.rel_cache@[j] is Named
            && p.rel_cache@[i]->Named_0.src == p.rel_cache@[j]->Named_0.src && p.rel_cache@[i]->Named_0.dst == p.rel_cache@[j]->Named_0.dst implies i == j by {
        assert(p.rel_cache@.contains_key(i));
        assert(p.rel_cache@.contains_key(j));
    }
}

/// Declaring a UUID a second time, with no release between, returns the
/// first call's ID and changes nothing: one node, one creation event.
pub proof fn declare_is_idempotent(
    t0: PVMTransaction,
    t1: PVMTransaction,
    t2: PVMTransaction,
    ty: &ConcreteType,
    uuid: u128,
    init1: Option<Vec<(String, String)>>,
    init2: Option<Vec<(String, String)>>,
    r1: PVMResult<u64>,
    r2: PVMResult<u64>,
)
    requires
        t0.inv(),
        t1.declared(&t0, ty, uuid, init1, r1),
        t2.declared(&t1, ty, uuid, init2, r2),
        r1 is Ok,
    ensures
        r2 == r1,
        t2 == t1,
        t2.ops() == t1.ops(),
{
}

/// Naming an object with a name a second time returns the first call's
/// relationship and changes nothing: one naming relationship.
pub proof fn name_is_idempotent(
    t0: PVMTransaction,
    t1: PVMTransaction,
    t2: PVMTransaction,
    obj: u64,
    n: Name,
    r1: u64,
    r2: u64,
)
    requires
        t1.named_post(&t0, obj, n, r1),
        t2.named_post(&t1, obj, n, r2),
    ensures
        r2 == r1,
        t2 == t1,
{
}

/// A write session that one actor opens on a store and then closes leaves no
/// writers entry and a current store version of the file; a later write
/// session on that version makes a fresh edit session again.
pub proof fn write_session_round_trip(
    t0: PVMTransaction,
    t1: PVMTransaction,
    t2: PVMTransaction,
    t3: PVMTransaction,
    act: u64,
    ent: u64,
    r1: u64,
    r3: u64,
)
    requires
        t0.inv(),
        t0.is_live(act, PVMDataType::Actor),
        t0.is_live(ent, PVMDataType::Store),
        t1.sinkstart_post(&t0, act, ent, r1),
        t2.sinkend_post(&t1, act, t0.next()),
        t3.sinkstart_post(&t2, act, t1.next(), r3),
    ensures
        ({
            let u = t0.nodes()[ent].uuid;
            &&& !t2.opens().contains_key(u)
            &&& t2.is_live(t2.uuids()[u], PVMDataType::Store)
            &&& t2.uuids()[u] == t1.next()
            &&& t3.is_live(t3.uuids()[u], PVMDataType::EditSession)
            &&& t3.uuids()[u] == t2.next()
            &&& writers(t3.opens(), u) == set![t0.nodes()[act].uuid]
        }),
{
    let u = t0.nodes()[ent].uuid;
    let a = t0.nodes()[act].uuid;
    let es = t0.next();
    assert(act != ent);
    assert(t0.pvm.node_cache@.contains_key(act));
    assert(act < es);
    assert(t1.nodes()[act] == t0.nodes()[act]);
    assert(t1.nodes()[es].uuid == u);
    assert(writers(t1.opens(), u).remove(a) =~= Set::<u128>::empty());
    assert(act != t1.next());
    assert(t2.nodes()[act] == t1.nodes()[act]);
}

} // verus!
