//! The change-event sink: a transaction's events are coalesced by ID in a
//! buffer and handed, in order, to the event log on commit.
use vstd::prelude::*;
use crate::data::{node_id, rel_id, Node, Rel};

verus! {

/// A change to the graph, as the views receive it.
#[derive(Debug)]
pub enum DBTr {
    CreateNode(Node),
    CreateRel(Rel),
    UpdateNode(Node),
    UpdateRel(Rel),
}

/// What an event is about: whether a node (`true`) or a relationship, and its ID.
pub open spec fn op_key(op: DBTr) -> (bool, u64) {
    match op {
        DBTr::CreateNode(n) => (true, node_id(n)),
        DBTr::UpdateNode(n) => (true, node_id(n)),
        DBTr::CreateRel(r) => (false, rel_id(r)),
        DBTr::UpdateRel(r) => (false, rel_id(r)),
    }
}

pub open spec fn is_create(op: DBTr) -> bool {
    op is CreateNode || op is CreateRel
}

/// The event `cur` carrying the payload of `new` (both about one entity).
pub open spec fn with_payload(cur: DBTr, new: DBTr) -> DBTr {
    match (cur, new) {
        (DBTr::CreateNode(_), DBTr::CreateNode(n)) => DBTr::CreateNode(n),
        (DBTr::CreateNode(_), DBTr::UpdateNode(n)) => DBTr::CreateNode(n),
        (DBTr::UpdateNode(_), DBTr::CreateNode(n)) => DBTr::UpdateNode(n),
        (DBTr::UpdateNode(_), DBTr::UpdateNode(n)) => DBTr::UpdateNode(n),
        (DBTr::CreateRel(_), DBTr::CreateRel(r)) => DBTr::CreateRel(r),
        (DBTr::CreateRel(_), DBTr::UpdateRel(r)) => DBTr::CreateRel(r),
        (DBTr::UpdateRel(_), DBTr::CreateRel(r)) => DBTr::UpdateRel(r),
        (DBTr::UpdateRel(_), DBTr::UpdateRel(r)) => DBTr::UpdateRel(r),
        _ => new,
    }
}

/// The position of the first event of `ops` about `key`.
pub open spec fn key_index(ops: Seq<DBTr>, key: (bool, u64)) -> Option<int>
    decreases ops.len(),
{
    if ops.len() == 0 {
        None
    } else {
        match key_index(ops.drop_last(), key) {
            Some(i) => Some(i),
            None => if op_key(ops.last()) == key {
                Some(ops.len() - 1)
            } else {
                None
            },
        }
    }
}

/// `ops` after `op` is buffered: an event about an entity already buffered
/// replaces that event's payload in place, any other is appended.
pub open spec fn coalesce(ops: Seq<DBTr>, op: DBTr) -> Seq<DBTr> {
    match key_index(ops, op_key(op)) {
        Some(i) => ops.update(i, with_payload(ops[i], op)),
        None => ops.push(op),
    }
}

/// No two events of `ops` are about the same entity.
pub open spec fn keys_unique(ops: Seq<DBTr>) -> bool {
    forall|i: int, j: int|
        0 <= i < ops.len() && 0 <= j < ops.len() && i != j ==> op_key(ops[i]) != op_key(ops[j])
}

proof fn lemma_key_index_none(ops: Seq<DBTr>, key: (bool, u64))
    ensures
        key_index(ops, key).is_none() <==> forall|i: int| 0 <= i < ops.len() ==> op_key(ops[i]) != key,
        key_index(ops, key) matches Some(i) ==> 0 <= i < ops.len() && op_key(ops[i]) == key,
    decreases ops.len(),
{
    if ops.len() > 0 {
        lemma_key_index_none(ops.drop_last(), key);
        assert forall|i: int| 0 <= i < ops.len() - 1 implies ops.drop_last()[i] == ops[i] by {}
    }
}

/// The log of committed events, oldest first, waiting to be handed to the views.
pub struct DB {
    pub events: Vec<DBTr>,
}

impl DB {
    pub fn create() -> (r: DB)
        ensures
            r.events@.len() == 0,
    {
        DB { events: Vec::new() }
    }

    /// An empty buffer for one transaction's events.
    pub fn store(&self) -> (r: DBStore)
        ensures
            r.ops@.len() == 0,
    {
        DBStore { ops: Vec::new() }
    }

    /// Logs the creation of `node` outside any transaction.
    pub fn create_node(&mut self, node: Node)
        ensures
            final(self).events@ == old(self).events@.push(DBTr::CreateNode(node)),
    {
        self.op(DBTr::CreateNode(node));
    }

    fn op(&mut self, op: DBTr)
        ensures
            final(self).events@ == old(self).events@.push(op),
    {
        self.events.push(op);
    }

    /// Hands out the logged events, oldest first, and empties the log.
    pub fn take_events(&mut self) -> (r: Vec<DBTr>)
        ensures
            r@ == old(self).events@,
            final(self).events@.len() == 0,
    {
        let mut out: Vec<DBTr> = Vec::new();
        std::mem::swap(&mut out, &mut self.events);
        out
    }
}

/// The coalescing buffer of one transaction's events.
pub struct DBStore {
    pub ops: Vec<DBTr>,
}

impl DBStore {
    pub fn create_node(&mut self, node: Node)
        requires
            keys_unique(old(self).ops@),
            forall|i: int| 0 <= i < old(self).ops@.len()
                ==> op_key(old(self).ops@[i]) != (true, node_id(node)),
        ensures
            final(self).ops@ == old(self).ops@.push(DBTr::CreateNode(node)),
            keys_unique(final(self).ops@),
    {
        proof {
            lemma_key_index_none(self.ops@, (true, node_id(node)));
        }
        self.insert(DBTr::CreateNode(node));
    }

    /// Puts the creation of `node` before every buffered event.
    pub fn _create_node_head(&mut self, node: Node)
        ensures
            final(self).ops@ == seq![DBTr::CreateNode(node)] + old(self).ops@,
    {
        self.ops.insert(0, DBTr::CreateNode(node));
        proof {
            assert(self.ops@ =~= seq![DBTr::CreateNode(node)] + old(self).ops@);
        }
    }

    pub fn create_rel(&mut self, rel: Rel)
        requires
            keys_unique(old(self).ops@),
            forall|i: int| 0 <= i < old(self).ops@.len()
                ==> op_key(old(self).ops@[i]) != (false, rel_id(rel)),
        ensures
            final(self).ops@ == old(self).ops@.push(DBTr::CreateRel(rel)),
            keys_unique(final(self).ops@),
    {
        proof {
            lemma_key_index_none(self.ops@, (false, rel_id(rel)));
        }
        self.insert(DBTr::CreateRel(rel));
    }

    pub fn update_node(&mut self, node: Node)
        requires
            keys_unique(old(self).ops@),
        ensures
            final(self).ops@ == coalesce(old(self).ops@, DBTr::UpdateNode(node)),
            keys_unique(final(self).ops@),
    {
        self.insert(DBTr::UpdateNode(node));
    }

    pub fn update_rel(&mut self, rel: Rel)
        requires
            keys_unique(old(self).ops@),
        ensures
            final(self).ops@ == coalesce(old(self).ops@, DBTr::UpdateRel(rel)),
            keys_unique(final(self).ops@),
    {
        self.insert(DBTr::UpdateRel(rel));
    }

    /// Buffers `op`, merging it into a buffered event about the same entity.
    fn insert(&mut self, op: DBTr)
        requires
            keys_unique(old(self).ops@),
            is_create(op) ==> key_index(old(self).ops@, op_key(op)).is_none(),
        ensures
            final(self).ops@ == coalesce(old(self).ops@, op),
            keys_unique(final(self).ops@),
    {
        let ghost key = op_key(op);
        let (is_node, id) = key_of(&op);
        let mut i: usize = 0;
        while i < self.ops.len()
            invariant
                self.ops@ == old(self).ops@,
                0 <= i <= self.ops@.len(),
                key == (is_node, id),
                key == op_key(op),
                keys_unique(old(self).ops@),
                is_create(op) ==> key_index(old(self).ops@, op_key(op)).is_none(),
                key_index(self.ops@.take(i as int), key).is_none(),
            decreases self.ops@.len() - i,
        {
            let ghost pre = self.ops@.take(i as int + 1);
            proof {
                assert(pre.drop_last() =~= self.ops@.take(i as int));
            }
            let (cur_node, cur_id) = key_of(&self.ops[i]);
            if cur_node == is_node && cur_id == id {
                proof {
                    lemma_key_index_none(self.ops@.take(i as int), key);
                    assert(key_index(pre, key) == Some(i as int));
                    lemma_key_index_prefix(self.ops@, i as int + 1, key);
                }
                let merged = merge_into(&self.ops[i], op);
                self.ops.set(i, merged);
                proof {
                    assert forall|a: int, b: int|
                        0 <= a < self.ops@.len() && 0 <= b < self.ops@.len() && a != b implies op_key(
                        self.ops@[a],
                    ) != op_key(self.ops@[b]) by {
                    }
                }
                return;
            }
            i = i + 1;
        }
        proof {
            assert(self.ops@.take(i as int) =~= self.ops@);
            lemma_key_index_none(self.ops@, key);
        }
        self.ops.push(op);
    }

    pub fn len(&self) -> (r: usize)
        ensures
            r == self.ops@.len(),
    {
        self.ops.len()
    }

    /// Appends the buffered events, in order, to the log of `db`.
    pub fn commit(self, db: &mut DB)
        ensures
            final(db).events@ == old(db).events@ + self.ops@,
    {
        let mut ops = self.ops;
        let ghost all = ops@;
        db.events.append(&mut ops);
        proof {
            assert(db.events@ =~= old(db).events@ + all);
        }
    }
}

fn key_of(op: &DBTr) -> (r: (bool, u64))
    ensures
        r == op_key(*op),
{
    match op {
        DBTr::CreateNode(n) => (true, n.get_db_id()),
        DBTr::UpdateNode(n) => (true, n.get_db_id()),
        DBTr::CreateRel(r) => (false, r.get_db_id()),
        DBTr::UpdateRel(r) => (false, r.get_db_id()),
    }
}

/// `cur` with the payload of `new`, where both are about the same kind of entity.
fn merge_into(cur: &DBTr, new: DBTr) -> (r: DBTr)
    requires
        op_key(*cur).0 == op_key(new).0,
    ensures
        r == with_payload(*cur, new),
        op_key(r) == op_key(new),
{
    let create = match cur {
        DBTr::CreateNode(_) | DBTr::CreateRel(_) => true,
        _ => false,
    };
    match new {
        DBTr::CreateNode(n) => if create { DBTr::CreateNode(n) } else { DBTr::UpdateNode(n) },
        DBTr::UpdateNode(n) => if create { DBTr::CreateNode(n) } else { DBTr::UpdateNode(n) },
        DBTr::CreateRel(r) => if create { DBTr::CreateRel(r) } else { DBTr::UpdateRel(r) },
        DBTr::UpdateRel(r) => if create { DBTr::CreateRel(r) } else { DBTr::UpdateRel(r) },
    }
}

proof fn lemma_key_index_prefix(ops: Seq<DBTr>, n: int, key: (bool, u64))
    requires
        0 <= n <= ops.len(),
        key_index(ops.take(n), key).is_some(),
    ensures
        key_index(ops, key) == key_index(ops.take(n), key),
    decreases ops.len() - n,
{
    if n < ops.len() {
        assert(ops.take(n + 1).drop_last() =~= ops.take(n));
        lemma_key_index_prefix(ops, n + 1, key);
    } else {
        assert(ops.take(n) =~= ops);
    }
}

/// Buffering an update leaves every earlier event about the same entity as
/// before, and makes no event a creation that was not one.
pub proof fn lemma_coalesce_update(ops: Seq<DBTr>, op: DBTr)
    requires
        !is_create(op),
    ensures
        coalesce(ops, op).len() >= ops.len(),
        coalesce(ops, op).len() > 0,
        forall|i: int| 0 <= i < coalesce(ops, op).len() ==> {
            &&& (#[trigger] op_key(coalesce(ops, op)[i])) == (if i < ops.len() { op_key(ops[i]) } else { op_key(op) })
            &&& is_create(coalesce(ops, op)[i]) ==> i < ops.len() && is_create(ops[i])
        },
{
    lemma_key_index_none(ops, op_key(op));
}

/// `rel` is buffered, as a creation or an update.
pub open spec fn rel_buffered(ops: Seq<DBTr>, rel: Rel) -> bool {
    exists|i: int| 0 <= i < ops.len() && (ops[i] == DBTr::CreateRel(rel) || ops[i] == DBTr::UpdateRel(rel))
}

/// Buffering an update of `rel` leaves `rel` buffered.
pub proof fn lemma_coalesce_buffers_rel(ops: Seq<DBTr>, rel: Rel)
    ensures
        rel_buffered(coalesce(ops, DBTr::UpdateRel(rel)), rel),
{
    let op = DBTr::UpdateRel(rel);
    lemma_key_index_none(ops, op_key(op));
    let c = coalesce(ops, op);
    match key_index(ops, op_key(op)) {
        Some(i) => {
            assert(c[i] == DBTr::CreateRel(rel) || c[i] == DBTr::UpdateRel(rel));
        },
        None => {
            assert(c[ops.len() as int] == op);
        },
    }
}

} // verus!
