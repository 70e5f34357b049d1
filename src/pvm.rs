//! The provenance graph's state and the transactions that change it.
use vstd::prelude::*;
use crate::data::{
    heritable_of, node_id, rel_id, same_name, same_node, snapshot_of, ConcreteType, ContextType,
    CtxNode, DataNode, MetaEntry, entries_from, MetaStore, Name, NameNode, Node, PVMDataType, PVMOps, Rel, Inf,
    Named, SchemaNode, str_eq,
};
use crate::db::{is_create, keys_unique, op_key, coalesce, lemma_coalesce_update, lemma_coalesce_buffers_rel, rel_buffered, DBStore, DBTr, DB};
use crate::id_counter::{IDCounter, IDWrap};
use crate::overlay::HashWrap;

verus! {

/// Why a record could not be applied.
#[derive(Debug)]
pub enum PVMError {
    AssertionFailure { cont: String },
    MissingField { evt: String, field: String },
}

pub type PVMResult<T> = Result<T, PVMError>;

/// Whether `connect` links its conduits one way or both ways.
#[derive(Clone, Copy, Debug, PartialEq, Eq, Structural)]
pub enum ConnectDir {
    Mono,
    BiDirectional,
}

/// The most IDs that one operation of a transaction allocates.
pub const OP_IDS: u64 = 4;

/// IDs stay below this bound, so that an `Inf` relationship's operation,
/// source and destination fit one index key.
pub const ID_LIMIT: u64 = 0x8000_0000_0000_0000;

pub open spec fn op_code(op: PVMOps) -> int {
    match op {
        PVMOps::Source => 0,
        PVMOps::Sink => 1,
        PVMOps::Connect => 2,
        PVMOps::Version => 3,
    }
}

/// The key under which the `Inf` relationship for `op` from `src` to `dst`
/// is indexed.
pub open spec fn inf_key(op: PVMOps, src: u64, dst: u64) -> u128 {
    (op_code(op) * 0x4000_0000_0000_0000_0000_0000_0000_0000 + src as int * 0x8000_0000_0000_0000 + dst as int) as u128
}

pub proof fn lemma_inf_key_injective(o1: PVMOps, a: u64, b: u64, o2: PVMOps, c: u64, d: u64)
    requires
        a < ID_LIMIT,
        b < ID_LIMIT,
        c < ID_LIMIT,
        d < ID_LIMIT,
    ensures
        inf_key(o1, a, b) == inf_key(o2, c, d) ==> o1 == o2 && a == c && b == d,
{
    let p = op_code(o1);
    let q = op_code(o2);
    let x = p * 0x4000_0000_0000_0000_0000_0000_0000_0000 + a as int * 0x8000_0000_0000_0000 + b as int;
    let y = q * 0x4000_0000_0000_0000_0000_0000_0000_0000 + c as int * 0x8000_0000_0000_0000 + d as int;
    assert(0 <= x < 0x1_0000_0000_0000_0000_0000_0000_0000_0000) by (nonlinear_arith)
        requires
            x == p * 0x4000_0000_0000_0000_0000_0000_0000_0000 + a as int * 0x8000_0000_0000_0000 + b as int,
            0 <= p < 4, 0 <= a < 0x8000_0000_0000_0000, 0 <= b < 0x8000_0000_0000_0000;
    assert(0 <= y < 0x1_0000_0000_0000_0000_0000_0000_0000_0000) by (nonlinear_arith)
        requires
            y == q * 0x4000_0000_0000_0000_0000_0000_0000_0000 + c as int * 0x8000_0000_0000_0000 + d as int,
            0 <= q < 4, 0 <= c < 0x8000_0000_0000_0000, 0 <= d < 0x8000_0000_0000_0000;
    if x == y {
        let u = p * 0x8000_0000_0000_0000 + a as int;
        let v = q * 0x8000_0000_0000_0000 + c as int;
        assert(x == u * 0x8000_0000_0000_0000 + b as int) by (nonlinear_arith)
            requires x == p * 0x4000_0000_0000_0000_0000_0000_0000_0000 + a as int * 0x8000_0000_0000_0000 + b as int,
                u == p * 0x8000_0000_0000_0000 + a as int;
        assert(y == v * 0x8000_0000_0000_0000 + d as int) by (nonlinear_arith)
            requires y == q * 0x4000_0000_0000_0000_0000_0000_0000_0000 + c as int * 0x8000_0000_0000_0000 + d as int,
                v == q * 0x8000_0000_0000_0000 + c as int;
        assert(u == v && b == d) by (nonlinear_arith)
            requires x == y, x == u * 0x8000_0000_0000_0000 + b as int, y == v * 0x8000_0000_0000_0000 + d as int,
                0 <= b < 0x8000_0000_0000_0000, 0 <= d < 0x8000_0000_0000_0000, u >= 0, v >= 0;
        assert(p == q && a == c) by (nonlinear_arith)
            requires u == v, u == p * 0x8000_0000_0000_0000 + a as int, v == q * 0x8000_0000_0000_0000 + c as int,
                0 <= a < 0x8000_0000_0000_0000, 0 <= c < 0x8000_0000_0000_0000, p >= 0, q >= 0;
    }
}

fn inf_of(op: PVMOps, src: u64, dst: u64) -> (r: u128)
    requires
        src < ID_LIMIT,
        dst < ID_LIMIT,
    ensures
        r == inf_key(op, src, dst),
{
    let c: u128 = match op {
        PVMOps::Source => 0,
        PVMOps::Sink => 1,
        PVMOps::Connect => 2,
        PVMOps::Version => 3,
    };
    assert(c as int * 0x4000_0000_0000_0000_0000_0000_0000_0000 + src as int * 0x8000_0000_0000_0000 + dst as int <= u128::MAX) by (nonlinear_arith)
        requires c < 4, src < 0x8000_0000_0000_0000, dst < 0x8000_0000_0000_0000;
    c * 0x4000_0000_0000_0000_0000_0000_0000_0000u128 + (src as u128) * 0x8000_0000_0000_0000u128 + (dst as u128)
}

/// The key under which the relationship from `src` to `dst` is indexed.
pub open spec fn pair_key(src: u64, dst: u64) -> u128 {
    (src as int * 0x1_0000_0000_0000_0000 + dst as int) as u128
}

pub proof fn lemma_pair_key_injective(a: u64, b: u64, c: u64, d: u64)
    ensures
        pair_key(a, b) == pair_key(c, d) ==> a == c && b == d,
{
    let x = a as int * 0x1_0000_0000_0000_0000 + b as int;
    let y = c as int * 0x1_0000_0000_0000_0000 + d as int;
    assert(0 <= x < 0x1_0000_0000_0000_0000_0000_0000_0000_0000) by (nonlinear_arith)
        requires x == a as int * 0x1_0000_0000_0000_0000 + b as int, a < 0x1_0000_0000_0000_0000, b < 0x1_0000_0000_0000_0000;
    assert(0 <= y < 0x1_0000_0000_0000_0000_0000_0000_0000_0000) by (nonlinear_arith)
        requires y == c as int * 0x1_0000_0000_0000_0000 + d as int, c < 0x1_0000_0000_0000_0000, d < 0x1_0000_0000_0000_0000;
    if x == y {
        assert(a == c && b == d) by (nonlinear_arith)
            requires x == y, x == a as int * 0x1_0000_0000_0000_0000 + b as int,
                y == c as int * 0x1_0000_0000_0000_0000 + d as int,
                b < 0x1_0000_0000_0000_0000, d < 0x1_0000_0000_0000_0000, a >= 0, c >= 0, b >= 0, d >= 0;
    }
}

/// No naming relationship of a consistent graph ends at the next ID.
proof fn lemma_fresh_named(p: PVM, next: u64, src: u64, dst: u64)
    requires
        p.graph_ok(next),
        dst >= next,
    ensures
        !p.named_index@.contains_key(pair_key(src, dst)),
{
    if p.named_index@.contains_key(pair_key(src, dst)) {
        let id = p.named_index@[pair_key(src, dst)];
        let x = p.rel_cache@[id]->Named_0;
        assert(p.rel_cache@.contains_key(id));
        lemma_pair_key_injective(x.src, x.dst, src, dst);
    }
}

fn pair_of(src: u64, dst: u64) -> (r: u128)
    ensures
        r == pair_key(src, dst),
{
    assert(src as int * 0x1_0000_0000_0000_0000 + dst as int <= u128::MAX) by (nonlinear_arith)
        requires src < 0x1_0000_0000_0000_0000, dst < 0x1_0000_0000_0000_0000;
    (src as u128) * 0x1_0000_0000_0000_0000u128 + (dst as u128)
}

/// Index of the first registered type called `name`.
pub open spec fn type_index(types: Seq<ConcreteType>, name: Seq<char>) -> Option<int>
    decreases types.len(),
{
    if types.len() == 0 {
        None
    } else {
        match type_index(types.drop_last(), name) {
            Some(i) => Some(i),
            None => if types.last().name@ == name {
                Some(types.len() - 1)
            } else {
                None
            },
        }
    }
}

/// Index of the first name node for the name `n`.
pub open spec fn name_index(names: Seq<NameNode>, n: Name) -> Option<int>
    decreases names.len(),
{
    if names.len() == 0 {
        None
    } else {
        match name_index(names.drop_last(), n) {
            Some(i) => Some(i),
            None => if same_name(names.last().name, n) {
                Some(names.len() - 1)
            } else {
                None
            },
        }
    }
}

pub proof fn lemma_type_index(types: Seq<ConcreteType>, name: Seq<char>)
    ensures
        type_index(types, name) matches Some(i) ==> 0 <= i < types.len() && types[i].name@ == name,
        type_index(types, name).is_none() ==> forall|i: int| 0 <= i < types.len() ==> types[i].name@ != name,
    decreases types.len(),
{
    if types.len() > 0 {
        lemma_type_index(types.drop_last(), name);
        assert forall|i: int| 0 <= i < types.len() - 1 implies types.drop_last()[i] == types[i] by {}
    }
}

pub proof fn lemma_name_index(names: Seq<NameNode>, n: Name)
    ensures
        name_index(names, n) matches Some(i) ==> 0 <= i < names.len() && same_name(names[i].name, n),
        name_index(names, n).is_none()
            ==> forall|i: int| 0 <= i < names.len() ==> !same_name(names[i].name, n),
    decreases names.len(),
{
    if names.len() > 0 {
        lemma_name_index(names.drop_last(), n);
        assert forall|i: int| 0 <= i < names.len() - 1 implies names.drop_last()[i] == names[i] by {}
    }
}

/// A name index found in a prefix is the index in the whole sequence.
pub proof fn lemma_name_index_extend(names: Seq<NameNode>, m: NameNode, n: Name)
    ensures
        name_index(names, n).is_some() ==> name_index(names.push(m), n) == name_index(names, n),
        name_index(names, n).is_none() && same_name(m.name, n)
            ==> name_index(names.push(m), n) == Some(names.len() as int),
{
    assert(names.push(m).drop_last() =~= names);
}

/// The relationship `r` is found under its own key in the index of its kind.
pub open spec fn rel_indexed(r: Rel, infs: Map<u128, u64>, nameds: Map<u128, u64>) -> bool {
    match r {
        Rel::Inf(i) => infs.contains_key(inf_key(i.pvm_op, i.src, i.dst)) && infs[inf_key(i.pvm_op, i.src, i.dst)] == i.id,
        Rel::Named(n) => nameds.contains_key(pair_key(n.src, n.dst)) && nameds[pair_key(n.src, n.dst)] == n.id,
    }
}

/// The endpoints of `r` that the graph makes are IDs below `next`.
pub open spec fn rel_ends_below(r: Rel, next: u64) -> bool {
    match r {
        Rel::Inf(i) => i.src < next && i.dst < next,
        Rel::Named(n) => n.dst < next,
    }
}

/// `a + b`, held to the range of `i64`.
pub open spec fn sat_add(a: i64, b: i64) -> i64 {
    if a + b > i64::MAX {
        i64::MAX
    } else if a + b < i64::MIN {
        i64::MIN
    } else {
        (a + b) as i64
    }
}

pub fn saturating_add(a: i64, b: i64) -> (r: i64)
    ensures
        r == sat_add(a, b),
{
    match a.checked_add(b) {
        Some(v) => v,
        None => if b > 0 {
            i64::MAX
        } else {
            i64::MIN
        },
    }
}

/// Every `Inf` relationship of `a` is in `b`, its byte counter no lower.
pub open spec fn counts_grow(a: Map<u64, Rel>, b: Map<u64, Rel>) -> bool {
    forall|i: u64| #[trigger] a.contains_key(i) && a[i] is Inf ==> {
        &&& b.contains_key(i)
        &&& b[i] matches Rel::Inf(y)
        &&& y.byte_count >= a[i]->Inf_0.byte_count
    }
}

/// Every current edit-session node's UUID has a non-empty writers entry.
pub open spec fn sessions_ok(nodes: Map<u64, DataNode>, opens: Map<u128, Vec<u128>>) -> bool {
    forall|i: u64| #[trigger] nodes.contains_key(i) && nodes[i].pvm_ty == PVMDataType::EditSession
        ==> opens.contains_key(nodes[i].uuid) && opens[nodes[i].uuid]@.len() > 0
}

/// No registered concrete type is of kind `EditSession`: edit sessions are
/// only versions of stores.
pub open spec fn types_ok(types: Seq<ConcreteType>) -> bool {
    forall|i: int| 0 <= i < types.len() ==> #[trigger] types[i].pvm_ty != PVMDataType::EditSession
}

/// The consistency of the graph's indices, with every ID below `next`.
pub open spec fn graph_wf(
    uuids: Map<u128, u64>,
    nodes: Map<u64, DataNode>,
    rels: Map<u64, Rel>,
    infs: Map<u128, u64>,
    nameds: Map<u128, u64>,
    names: Seq<NameNode>,
    ntypes: nat,
    next: u64,
) -> bool {
    &&& forall|u: u128| #[trigger] uuids.contains_key(u)
        ==> nodes.contains_key(uuids[u]) && nodes[uuids[u]].uuid == u
    &&& forall|i: u64| #[trigger] nodes.contains_key(i) ==> {
        &&& nodes[i].id == i
        &&& i < next
        &&& nodes[i].ty < ntypes
        &&& uuids.contains_key(nodes[i].uuid)
        &&& uuids[nodes[i].uuid] == i
    }
    &&& forall|i: u64| #[trigger] rels.contains_key(i)
        ==> rel_id(rels[i]) == i && i < next && rel_indexed(rels[i], infs, nameds) && rel_ends_below(rels[i], next)
    &&& forall|k: u128| #[trigger] infs.contains_key(k) ==> {
        &&& rels.contains_key(infs[k])
        &&& rels[infs[k]] matches Rel::Inf(r)
        &&& inf_key(r.pvm_op, r.src, r.dst) == k
    }
    &&& forall|k: u128| #[trigger] nameds.contains_key(k) ==> {
        &&& rels.contains_key(nameds[k])
        &&& rels[nameds[k]] matches Rel::Named(r)
        &&& pair_key(r.src, r.dst) == k
    }
    &&& forall|i: int| 0 <= i < names.len() ==> #[trigger] names[i].id < next
    &&& next <= ID_LIMIT
}

/// The provenance graph: registries, indices and the event log.
pub struct PVM {
    pub db: DB,
    pub type_cache: Vec<ConcreteType>,
    pub ctx_type_cache: Vec<ContextType>,
    pub uuid_cache: HashWrap<u128, u64>,
    pub node_cache: HashWrap<u64, DataNode>,
    pub rel_cache: HashWrap<u64, Rel>,
    pub inf_index: HashWrap<u128, u64>,
    pub named_index: HashWrap<u128, u64>,
    pub open_cache: HashWrap<u128, Vec<u128>>,
    pub name_cache: Vec<NameNode>,
    pub id: IDCounter,
    pub unparsed_events: Vec<String>,
}

impl PVM {
    /// The graph's indices are consistent, with every ID below `next`.
    pub open spec fn graph_ok(&self, next: u64) -> bool {
        graph_wf(
            self.uuid_cache@,
            self.node_cache@,
            self.rel_cache@,
            self.inf_index@,
            self.named_index@,
            self.name_cache@,
            self.type_cache@.len(),
            next,
        )
    }

    pub open spec fn journals_empty(&self) -> bool {
        &&& self.uuid_cache.log@.len() == 0
        &&& self.node_cache.log@.len() == 0
        &&& self.rel_cache.log@.len() == 0
        &&& self.inf_index.log@.len() == 0
        &&& self.named_index.log@.len() == 0
        &&& self.open_cache.log@.len() == 0
    }

    /// The state between transactions.
    pub open spec fn wf(&self) -> bool {
        &&& self.graph_ok(self.id.store)
        &&& self.journals_empty()
        &&& 1 <= self.id.store
        &&& self.sessions_ok()
    }

    /// Every current edit session has writers, and no registered type is an
    /// edit session.
    pub open spec fn sessions_ok(&self) -> bool {
        &&& sessions_ok(self.node_cache@, self.open_cache@)
        &&& types_ok(self.type_cache@)
    }

    /// There is an `Inf` relationship for `op` from `src` to `dst`.
    pub open spec fn links(&self, op: PVMOps, src: u64, dst: u64) -> bool {
        &&& self.inf_index@.contains_key(inf_key(op, src, dst))
        &&& self.rel_cache@.contains_key(self.inf_index@[inf_key(op, src, dst)])
        &&& self.rel_cache@[self.inf_index@[inf_key(op, src, dst)]] matches Rel::Inf(x)
            && x.src == src && x.dst == dst && x.pvm_op == op
    }

    pub fn new() -> (r: PVM)
        ensures
            r.wf(),
            r.id.store == 1,
            r.uuid_cache@.len() == 0,
            r.node_cache@.len() == 0,
            r.rel_cache@.len() == 0,
            r.db.events@.len() == 0,
            r.type_cache@.len() == 0,
            r.ctx_type_cache@.len() == 0,
    {
        PVM {
            db: DB::create(),
            type_cache: Vec::new(),
            ctx_type_cache: Vec::new(),
            uuid_cache: HashWrap::new(),
            node_cache: HashWrap::new(),
            rel_cache: HashWrap::new(),
            inf_index: HashWrap::new(),
            named_index: HashWrap::new(),
            open_cache: HashWrap::new(),
            name_cache: Vec::new(),
            id: IDCounter::new(1),
            unparsed_events: Vec::new(),
        }
    }
}

/// Index of the first registered type called `name`.
fn find_type(types: &Vec<ConcreteType>, name: &str) -> (r: Option<usize>)
    ensures
        match type_index(types@, name@) {
            Some(i) => r.is_some() && r.unwrap() as int == i,
            None => r.is_none(),
        },
{
    let mut i: usize = 0;
    while i < types.len()
        invariant
            0 <= i <= types@.len(),
            type_index(types@.take(i as int), name@).is_none(),
        decreases types@.len() - i,
    {
        proof {
            assert(types@.take(i as int + 1).drop_last() =~= types@.take(i as int));
        }
        if str_eq(types[i].name.as_str(), name) {
            proof {
                lemma_type_index_prefix(types@, i as int + 1, name@);
            }
            return Some(i);
        }
        i = i + 1;
    }
    proof {
        assert(types@.take(i as int) =~= types@);
    }
    None
}

proof fn lemma_type_index_prefix(types: Seq<ConcreteType>, n: int, name: Seq<char>)
    requires
        0 <= n <= types.len(),
        type_index(types.take(n), name).is_some(),
    ensures
        type_index(types, name) == type_index(types.take(n), name),
    decreases types.len() - n,
{
    if n < types.len() {
        assert(types.take(n + 1).drop_last() =~= types.take(n));
        lemma_type_index_prefix(types, n + 1, name);
    } else {
        assert(types.take(n) =~= types);
    }
}

impl PVM {
    /// Registers a concrete type and logs its schema node.
    pub fn register_data_type(&mut self, ty: ConcreteType)
        requires
            old(self).wf(),
            ty.pvm_ty != PVMDataType::EditSession,
            old(self).id.store < ID_LIMIT,
        ensures
            final(self).wf(),
            final(self).type_cache@ == old(self).type_cache@.push(ty),
            final(self).id.store == old(self).id.store + 1,
            final(self).db.events@.len() == old(self).db.events@.len() + 1,
            final(self).db.events@.last() matches DBTr::CreateNode(Node::Schema(s)) && s.id == old(self).id.store && !s.is_ctx && s.name@ == ty.name@,
    {
        let id = self.id.get();
        let sn = SchemaNode { id, name: ty.name.clone(), is_ctx: false };
        self.type_cache.push(ty);
        self.db.create_node(Node::Schema(sn));
        proof {
            assert forall|i: u64| #[trigger] self.node_cache@.contains_key(i) implies self.node_cache@[i].ty < self.type_cache@.len() by {}
        }
    }

    /// Registers a context type and logs its schema node.
    pub fn register_ctx_type(&mut self, ty: ContextType)
        requires
            old(self).wf(),
            old(self).id.store < ID_LIMIT,
        ensures
            final(self).wf(),
            final(self).ctx_type_cache@ == old(self).ctx_type_cache@.push(ty),
            final(self).type_cache@ == old(self).type_cache@,
            final(self).id.store == old(self).id.store + 1,
            final(self).db.events@.len() == old(self).db.events@.len() + 1,
            final(self).db.events@.last() matches DBTr::CreateNode(Node::Schema(s)) && s.id == old(self).id.store && s.is_ctx && s.name@ == ty.name@,
    {
        let id = self.id.get();
        let sn = SchemaNode { id, name: ty.name.clone(), is_ctx: true };
        self.ctx_type_cache.push(ty);
        self.db.create_node(Node::Schema(sn));
    }

    /// Whether a context type called `name` is registered.
    pub fn has_ctx_type(&self, name: &str) -> (r: bool)
        ensures
            r == exists|i: int| 0 <= i < self.ctx_type_cache@.len() && self.ctx_type_cache@[i].name@ == name@,
    {
        let mut i: usize = 0;
        while i < self.ctx_type_cache.len()
            invariant
                0 <= i <= self.ctx_type_cache@.len(),
                forall|j: int| 0 <= j < i ==> self.ctx_type_cache@[j].name@ != name@,
            decreases self.ctx_type_cache@.len() - i,
        {
            if str_eq(self.ctx_type_cache[i].name.as_str(), name) {
                return true;
            }
            i = i + 1;
        }
        false
    }

    /// Opens a transaction whose changes are caused by the event that
    /// `ctx_cont` describes. Hands the graph back unchanged where `ctx_ty` is
    /// not a registered context type.
    pub fn transaction(self, ctx_ty: &ContextType, ctx_cont: Vec<(String, String)>) -> (r: Result<PVMTransaction, PVM>)
        requires
            self.wf(),
            self.id.store < ID_LIMIT,
        ensures
            match r {
                Ok(t) => {
                    &&& exists|i: int| 0 <= i < self.ctx_type_cache@.len() && self.ctx_type_cache@[i].name@ == ctx_ty.name@
                    &&& t.inv()
                    &&& t.ctx == self.id.store
                    &&& t.id.cur.store == self.id.store + 1
                    &&& t.db.ops@.len() == 0
                    &&& t.ctx_node.cont@ == ctx_cont@
                    &&& t.ctx_node.ty_name@ == ctx_ty.name@
                    &&& t.same_graph_as(&self)
                    &&& t.origin@ == (self.uuid_cache@, self.node_cache@, self.rel_cache@, self.inf_index@, self.named_index@, self.open_cache@, self.name_cache@)
                    &&& t.names_start == self.name_cache@.len()
                },
                Err(p) => {
                    &&& !exists|i: int| 0 <= i < self.ctx_type_cache@.len() && self.ctx_type_cache@[i].name@ == ctx_ty.name@
                    &&& p == self
                },
            },
    {
        if !self.has_ctx_type(ctx_ty.name.as_str()) {
            return Err(self);
        }
        Ok(PVMTransaction::start(self, ctx_ty, ctx_cont))
    }
}

/// A scoped session of changes to the graph, committed or rolled back as one.
pub struct PVMTransaction {
    pub pvm: PVM,
    pub db: DBStore,
    pub id: IDWrap,
    pub ctx: u64,
    pub ctx_node: CtxNode,
    /// How many name nodes there were when the transaction began.
    pub names_start: usize,
    /// The indices as they stood when the transaction began.
    pub origin: Ghost<(Map<u128, u64>, Map<u64, DataNode>, Map<u64, Rel>, Map<u128, u64>, Map<u128, u64>, Map<u128, Vec<u128>>, Seq<NameNode>)>,
}

impl PVMTransaction {
    /// The graph of this transaction holds the same indices as `p`.
    pub open spec fn same_graph_as(&self, p: &PVM) -> bool {
        &&& self.pvm.uuid_cache@ == p.uuid_cache@
        &&& self.pvm.node_cache@ == p.node_cache@
        &&& self.pvm.rel_cache@ == p.rel_cache@
        &&& self.pvm.inf_index@ == p.inf_index@
        &&& self.pvm.named_index@ == p.named_index@
        &&& self.pvm.open_cache@ == p.open_cache@
        &&& self.pvm.name_cache@ == p.name_cache@
        &&& self.pvm.type_cache@ == p.type_cache@
        &&& self.pvm.ctx_type_cache@ == p.ctx_type_cache@
        &&& self.pvm.db.events@ == p.db.events@
        &&& self.pvm.unparsed_events@ == p.unparsed_events@
    }

    /// The ID the next allocation hands out.
    pub open spec fn next(&self) -> u64 {
        self.id.cur.store
    }

    pub open spec fn ops(&self) -> Seq<DBTr> {
        self.db.ops@
    }

    /// The state of the graph when the transaction began was consistent.
    pub open spec fn base_ok(&self) -> bool {
        &&& graph_wf(
            self.pvm.uuid_cache.base(),
            self.pvm.node_cache.base(),
            self.pvm.rel_cache.base(),
            self.pvm.inf_index.base(),
            self.pvm.named_index.base(),
            self.pvm.name_cache@.take(self.names_start as int),
            self.pvm.type_cache@.len(),
            self.ctx,
        )
        &&& self.names_start <= self.pvm.name_cache@.len()
        &&& sessions_ok(self.pvm.node_cache.base(), self.pvm.open_cache.base())
    }

    /// The invariant of an open transaction.
    pub open spec fn inv(&self) -> bool {
        &&& self.pvm.graph_ok(self.next())
        &&& self.base_ok()
        &&& self.ctx == self.pvm.id.store
        &&& 1 <= self.ctx < self.next()
        &&& self.ctx_node.id == self.ctx
        &&& keys_unique(self.ops())
        &&& forall|i: int| 0 <= i < self.ops().len() ==> (#[trigger] op_key(self.ops()[i])).1 < self.next()
        &&& forall|i: int| 0 <= i < self.ops().len() && is_create(#[trigger] self.ops()[i])
            ==> op_key(self.ops()[i]).1 > self.ctx
        &&& self.ops().len() == 0 ==> self.next() == self.ctx + 1 && self.pvm.graph_ok(self.ctx)
        &&& self.origin_ok()
        &&& self.pvm.sessions_ok()
    }

    /// The journals lead back to the indices as they stood at the start.
    pub open spec fn origin_ok(&self) -> bool {
        &&& self.pvm.uuid_cache.base() == self.origin@.0
        &&& self.pvm.node_cache.base() == self.origin@.1
        &&& self.pvm.rel_cache.base() == self.origin@.2
        &&& self.pvm.inf_index.base() == self.origin@.3
        &&& self.pvm.named_index.base() == self.origin@.4
        &&& self.pvm.open_cache.base() == self.origin@.5
        &&& self.pvm.name_cache@.take(self.names_start as int) == self.origin@.6
    }

    /// The transaction has room for one more operation's IDs.
    pub open spec fn has_room(&self) -> bool {
        self.next() + OP_IDS <= ID_LIMIT
    }

    fn start(base: PVM, ctx_ty: &ContextType, ctx_cont: Vec<(String, String)>) -> (t: PVMTransaction)
        requires
            base.wf(),
            base.id.store < ID_LIMIT,
        ensures
            t.inv(),
            t.ctx == base.id.store,
            t.id.cur.store == base.id.store + 1,
            t.db.ops@.len() == 0,
            t.ctx_node.cont@ == ctx_cont@,
            t.ctx_node.ty_name@ == ctx_ty.name@,
            t.same_graph_as(&base),
            t.origin@ == (base.uuid_cache@, base.node_cache@, base.rel_cache@, base.inf_index@, base.named_index@, base.open_cache@, base.name_cache@),
            t.names_start == base.name_cache@.len(),
    {
        let mut id = IDWrap::new(&base.id);
        let ctx = id.get();
        let ctx_node = CtxNode { id: ctx, ty_name: ctx_ty.name.clone(), cont: ctx_cont };
        let db = base.db.store();
        let names_start = base.name_cache.len();
        let ghost origin = (
            base.uuid_cache@,
            base.node_cache@,
            base.rel_cache@,
            base.inf_index@,
            base.named_index@,
            base.open_cache@,
            base.name_cache@,
        );
        let t = PVMTransaction { pvm: base, db, id, ctx, ctx_node, names_start, origin: Ghost(origin) };
        proof {
            assert(t.pvm.name_cache@.take(names_start as int) =~= t.pvm.name_cache@);
            assert(t.pvm.graph_ok(t.next())) by {
                assert forall|i: int| 0 <= i < t.pvm.name_cache@.len() implies #[trigger] t.pvm.name_cache@[i].id < t.next() by {
                    assert(t.pvm.name_cache@[i].id < t.ctx);
                }
            }
        }
        t
    }

    /// Makes the transaction's changes permanent. Where it emitted any event,
    /// its context node is logged first, then its events in order, and its
    /// IDs are published; otherwise nothing is logged and the ID counter stays.
    pub fn commit(self) -> (r: PVM)
        requires
            self.inv(),
        ensures
            r.wf(),
            self.same_graph_as_after(&r),
            self.ops().len() == 0 ==> r.id.store == self.ctx && r.db.events@ == self.pvm.db.events@,
            forall|i: int| 0 <= i < self.ops().len() && is_create(#[trigger] self.ops()[i])
                ==> op_key(self.ops()[i]).1 > self.ctx_node.id,
            self.ops().len() > 0 ==> {
                &&& r.id.store == self.next()
                &&& r.db.events@ == self.pvm.db.events@ + seq![DBTr::CreateNode(Node::Ctx(self.ctx_node))] + self.ops()
            },
    {
        let mut pvm = self.pvm;
        let mut db = self.db;
        pvm.uuid_cache.commit();
        pvm.node_cache.commit();
        pvm.rel_cache.commit();
        pvm.inf_index.commit();
        pvm.named_index.commit();
        pvm.open_cache.commit();
        if db.len() == 0 {
            pvm
        } else {
            self.id.commit(&mut pvm.id);
            db._create_node_head(Node::Ctx(self.ctx_node));
            db.commit(&mut pvm.db);
            proof {
                assert(pvm.db.events@ =~= self.pvm.db.events@ + seq![DBTr::CreateNode(Node::Ctx(self.ctx_node))] + self.ops());
            }
            pvm
        }
    }

    /// The graph `p` holds the indices this transaction has made.
    pub open spec fn same_graph_as_after(&self, p: &PVM) -> bool {
        &&& p.uuid_cache@ == self.pvm.uuid_cache@
        &&& p.node_cache@ == self.pvm.node_cache@
        &&& p.rel_cache@ == self.pvm.rel_cache@
        &&& p.inf_index@ == self.pvm.inf_index@
        &&& p.named_index@ == self.pvm.named_index@
        &&& p.open_cache@ == self.pvm.open_cache@
        &&& p.name_cache@ == self.pvm.name_cache@
        &&& p.type_cache@ == self.pvm.type_cache@
    }

    /// Discards the transaction: every index is as it was when it began, no
    /// event is logged and no ID is published.
    pub fn rollback(self) -> (r: PVM)
        requires
            self.inv(),
        ensures
            r.wf(),
            r.id.store == self.ctx,
            r.db.events@ == self.pvm.db.events@,
            r.unparsed_events@ == self.pvm.unparsed_events@,
            r.uuid_cache@ == self.origin@.0,
            r.node_cache@ == self.origin@.1,
            r.rel_cache@ == self.origin@.2,
            r.inf_index@ == self.origin@.3,
            r.named_index@ == self.origin@.4,
            r.open_cache@ == self.origin@.5,
            r.name_cache@ == self.origin@.6,
            r.uuid_cache@ == self.pvm.uuid_cache.base(),
            r.node_cache@ == self.pvm.node_cache.base(),
            r.rel_cache@ == self.pvm.rel_cache.base(),
            r.inf_index@ == self.pvm.inf_index.base(),
            r.named_index@ == self.pvm.named_index.base(),
            r.open_cache@ == self.pvm.open_cache.base(),
            r.name_cache@ == self.pvm.name_cache@.take(self.names_start as int),
            r.type_cache@ == self.pvm.type_cache@,
    {
        let mut pvm = self.pvm;
        pvm.uuid_cache.rollback();
        pvm.node_cache.rollback();
        pvm.rel_cache.rollback();
        pvm.inf_index.rollback();
        pvm.named_index.rollback();
        pvm.open_cache.rollback();
        pvm.name_cache.truncate(self.names_start);
        pvm
    }
}

impl PVMTransaction {
    /// The parts no graph operation touches are as in `o`.
    pub open spec fn keeps_fixed(&self, o: &PVMTransaction) -> bool {
        &&& self.ctx == o.ctx
        &&& self.ctx_node == o.ctx_node
        &&& self.names_start == o.names_start
        &&& self.origin == o.origin
        &&& self.pvm.type_cache@ == o.pvm.type_cache@
        &&& self.pvm.ctx_type_cache@ == o.pvm.ctx_type_cache@
        &&& self.pvm.id == o.pvm.id
        &&& self.pvm.db.events@ == o.pvm.db.events@
        &&& self.pvm.unparsed_events@ == o.pvm.unparsed_events@
    }

    pub open spec fn keeps_nodes(&self, o: &PVMTransaction) -> bool {
        &&& self.pvm.uuid_cache@ == o.pvm.uuid_cache@
        &&& self.pvm.node_cache@ == o.pvm.node_cache@
    }

    pub open spec fn keeps_rels(&self, o: &PVMTransaction) -> bool {
        &&& self.pvm.rel_cache@ == o.pvm.rel_cache@
        &&& self.pvm.inf_index@ == o.pvm.inf_index@
        &&& self.pvm.named_index@ == o.pvm.named_index@
    }

    pub open spec fn keeps_names(&self, o: &PVMTransaction) -> bool {
        self.pvm.name_cache@ == o.pvm.name_cache@
    }

    pub open spec fn keeps_open(&self, o: &PVMTransaction) -> bool {
        self.pvm.open_cache@ == o.pvm.open_cache@
    }

    /// The current node IDs by UUID.
    pub open spec fn uuids(&self) -> Map<u128, u64> {
        self.pvm.uuid_cache@
    }

    pub open spec fn nodes(&self) -> Map<u64, DataNode> {
        self.pvm.node_cache@
    }

    pub open spec fn rels(&self) -> Map<u64, Rel> {
        self.pvm.rel_cache@
    }

    /// The nodes with `uuid`'s current node, if any, dropped.
    pub open spec fn nodes_without(&self, uuid: u128) -> Map<u64, DataNode> {
        if self.uuids().contains_key(uuid) {
            self.nodes().remove(self.uuids()[uuid])
        } else {
            self.nodes()
        }
    }

    /// Drops `uuid` from the UUID index and its current node from the cache:
    /// later lookups of that UUID make a fresh node.
    pub fn release(&mut self, uuid: u128)
        requires
            old(self).inv(),
        ensures
            final(self).inv(),
            final(self).uuids() == old(self).uuids().remove(uuid),
            final(self).nodes() == old(self).nodes_without(uuid),
            !final(self).uuids().contains_key(uuid),
            final(self).next() == old(self).next(),
            final(self).ops() == old(self).ops(),
            final(self).keeps_fixed(old(self)),
            final(self).keeps_rels(old(self)),
            final(self).keeps_names(old(self)),
            final(self).keeps_open(old(self)),
    {
        let nid = match self.pvm.uuid_cache.get(&uuid) {
            Some(n) => Some(*n),
            None => None,
        };
        match nid {
            Some(n) => {
                self.pvm.uuid_cache.remove(&uuid);
                self.pvm.node_cache.remove(&n);
            },
            None => {
                proof {
                    assert(old(self).uuids().remove(uuid) =~= old(self).uuids());
                }
            },
        }
        proof {
            lemma_release_wf(old(self).pvm, self.pvm, self.next(), uuid);
            if self.ops().len() == 0 {
                lemma_release_wf(old(self).pvm, self.pvm, self.ctx, uuid);
            }
        }
    }

    /// What adding a node of kind `pvm_ty`, type index `ti` and history
    /// `meta` for `uuid` makes of `o`, with `id` its new ID.
    pub open spec fn added(&self, o: &PVMTransaction, pvm_ty: PVMDataType, ti: int, uuid: u128, meta: Seq<MetaEntry>, id: u64) -> bool {
        &&& id == o.next()
        &&& self.next() == id + 1
        &&& self.uuids() == o.uuids().insert(uuid, id)
        &&& self.nodes() == o.nodes_without(uuid).insert(id, self.nodes()[id])
        &&& self.nodes()[id].pvm_ty == pvm_ty
        &&& self.nodes()[id].ty == ti
        &&& self.nodes()[id].id == id
        &&& self.nodes()[id].uuid == uuid
        &&& self.nodes()[id].ctx == o.ctx
        &&& self.nodes()[id].meta.entries@ == meta
        &&& self.ops().len() == o.ops().len() + 1
        &&& self.ops().drop_last() == o.ops()
        &&& self.ops().last() matches DBTr::CreateNode(Node::Data(n)) && same_node(n, self.nodes()[id])
        &&& self.keeps_fixed(o)
        &&& self.keeps_rels(o)
        &&& self.keeps_names(o)
        &&& self.keeps_open(o)
    }

    /// Makes a new node of kind `pvm_ty` and registered type `ty` for `uuid`,
    /// supplanting the UUID's current node. Fails where `ty` is not registered.
    pub fn add(&mut self, pvm_ty: PVMDataType, ty: &ConcreteType, uuid: u128, init: Option<MetaStore>) -> (r: PVMResult<u64>)
        requires
            old(self).inv(),
            old(self).has_room(),
            pvm_ty == PVMDataType::EditSession
                ==> old(self).opens().contains_key(uuid) && old(self).opens()[uuid]@.len() > 0,
        ensures
            final(self).inv(),
            match type_index(old(self).pvm.type_cache@, ty.name@) {
                None => r is Err && *final(self) == *old(self),
                Some(ti) => r matches Ok(id) && final(self).added(old(self), pvm_ty, ti, uuid, match init {
                    Some(m) => m.entries@,
                    None => Seq::<MetaEntry>::empty(),
                }, id),
            },
    {
        let ti = match find_type(&self.pvm.type_cache, ty.name.as_str()) {
            Some(i) => i,
            None => {
                return Err(PVMError::AssertionFailure { cont: "Unregistered node type".to_owned() });
            },
        };
        proof {
            lemma_type_index(self.pvm.type_cache@, ty.name@);
            assert(ti as int == type_index(self.pvm.type_cache@, ty.name@).unwrap());
        }
        let meta = match init {
            Some(m) => m,
            None => MetaStore::new(),
        };
        Ok(self.add_idx(pvm_ty, ti, uuid, meta))
    }

    fn add_idx(&mut self, pvm_ty: PVMDataType, ti: usize, uuid: u128, meta: MetaStore) -> (r: u64)
        requires
            old(self).inv(),
            old(self).next() < ID_LIMIT,
            ti < old(self).pvm.type_cache@.len(),
            pvm_ty == PVMDataType::EditSession
                ==> old(self).opens().contains_key(uuid) && old(self).opens()[uuid]@.len() > 0,
        ensures
            final(self).inv(),
            final(self).added(old(self), pvm_ty, ti as int, uuid, meta.entries@, r),
    {
        let id = self.id.get();
        let node = DataNode { pvm_ty, ty: ti, id, uuid, ctx: self.ctx, meta };
        let prev = match self.pvm.uuid_cache.get(&uuid) {
            Some(n) => Some(*n),
            None => None,
        };
        match prev {
            Some(n) => {
                self.pvm.node_cache.remove(&n);
            },
            None => {},
        }
        self.pvm.uuid_cache.insert(uuid, id);
        let ghost mid = self.db.ops@;
        proof {
            assert forall|i: int| 0 <= i < mid.len() implies op_key(mid[i]) != (true, id) by {
                assert(op_key(mid[i]).1 < id);
            }
        }
        self.db.create_node(Node::Data(node.copy()));
        self.pvm.node_cache.insert(id, node);
        proof {
            assert(self.db.ops@.drop_last() =~= old(self).db.ops@);
            assert(self.nodes() =~= old(self).nodes_without(uuid).insert(id, self.nodes()[id]));
            assert(self.uuids() =~= old(self).uuids().insert(uuid, id));
            lemma_add_wf(old(self).pvm, self.pvm, old(self).next(), uuid, id);
            assert forall|i: int| 0 <= i < self.ops().len() implies (#[trigger] op_key(self.ops()[i])).1 < self.next() by {
                if i < old(self).ops().len() {
                    assert(self.ops()[i] == old(self).ops()[i]);
                }
            }
            assert forall|i: int| 0 <= i < self.ops().len() && is_create(#[trigger] self.ops()[i]) implies op_key(self.ops()[i]).1 > self.ctx by {
                if i < old(self).ops().len() {
                    assert(self.ops()[i] == old(self).ops()[i]);
                }
            }
        }
        id
    }

    /// What declaring `uuid` with type `ty` and values `init` makes of `o`.
    pub open spec fn declared(&self, o: &PVMTransaction, ty: &ConcreteType, uuid: u128, init: Option<Vec<(String, String)>>, r: PVMResult<u64>) -> bool {
        &&& o.uuids().contains_key(uuid) ==> r == Ok::<u64, PVMError>(o.uuids()[uuid]) && *self == *o
        &&& !o.uuids().contains_key(uuid) ==> match type_index(o.pvm.type_cache@, ty.name@) {
            None => r is Err && *self == *o,
            Some(ti) => r matches Ok(id) && self.added(o, ty.pvm_ty, ti, uuid, match init {
                Some(v) => entries_from(v@, o.ctx, o.pvm.type_cache@[ti].props@),
                None => Seq::<MetaEntry>::empty(),
            }, id),
        }
    }

    /// The ID of `uuid`'s current node; where the UUID is unknown, a new node
    /// of type `ty` holding the values `init` is made for it. Fails where a
    /// node is to be made and `ty` is not registered.
    pub fn declare(&mut self, ty: &ConcreteType, uuid: u128, init: Option<Vec<(String, String)>>) -> (r: PVMResult<u64>)
        requires
            old(self).inv(),
            old(self).has_room(),
            ty.pvm_ty != PVMDataType::EditSession,
        ensures
            final(self).inv(),
            final(self).declared(old(self), ty, uuid, init, r),
            final(self).next() <= old(self).next() + 1,
    {
        match self.pvm.uuid_cache.get(&uuid) {
            Some(n) => {
                return Ok(*n);
            },
            None => {},
        }
        let ti = match find_type(&self.pvm.type_cache, ty.name.as_str()) {
            Some(i) => i,
            None => {
                return Err(PVMError::AssertionFailure { cont: "Unregistered node type".to_owned() });
            },
        };
        proof {
            lemma_type_index(self.pvm.type_cache@, ty.name@);
            assert(ti as int == type_index(self.pvm.type_cache@, ty.name@).unwrap());
        }
        let meta = match init {
            Some(v) => MetaStore::from_pairs(&v, self.ctx, &self.pvm.type_cache[ti].props),
            None => MetaStore::new(),
        };
        Ok(self.add_idx(ty.pvm_ty, ti, uuid, meta))
    }
}

proof fn lemma_release_wf(a: PVM, b: PVM, next: u64, uuid: u128)
    requires
        a.graph_ok(next),
        b.uuid_cache@ == a.uuid_cache@.remove(uuid),
        b.node_cache@ == (if a.uuid_cache@.contains_key(uuid) { a.node_cache@.remove(a.uuid_cache@[uuid]) } else { a.node_cache@ }),
        b.rel_cache@ == a.rel_cache@,
        b.inf_index@ == a.inf_index@,
        b.named_index@ == a.named_index@,
        b.name_cache@ == a.name_cache@,
        b.type_cache@ == a.type_cache@,
    ensures
        b.graph_ok(next),
{
    let bu = b.uuid_cache@;
    let bn = b.node_cache@;
    assert forall|u: u128| #[trigger] bu.contains_key(u) implies bn.contains_key(bu[u]) && bn[bu[u]].uuid == u by {
        assert(a.uuid_cache@.contains_key(u));
        if a.uuid_cache@.contains_key(uuid) {
            assert(a.uuid_cache@[u] != a.uuid_cache@[uuid]);
        }
    }
}

proof fn lemma_add_wf(a: PVM, b: PVM, next: u64, uuid: u128, id: u64)
    requires
        a.graph_ok(next),
        id == next,
        next < ID_LIMIT,
        b.uuid_cache@ == a.uuid_cache@.insert(uuid, id),
        b.node_cache@.contains_key(id),
        b.node_cache@ == (if a.uuid_cache@.contains_key(uuid) { a.node_cache@.remove(a.uuid_cache@[uuid]) } else { a.node_cache@ }).insert(id, b.node_cache@[id]),
        b.node_cache@[id].id == id,
        b.node_cache@[id].uuid == uuid,
        b.node_cache@[id].ty < a.type_cache@.len(),
        b.rel_cache@ == a.rel_cache@,
        b.inf_index@ == a.inf_index@,
        b.named_index@ == a.named_index@,
        b.name_cache@ == a.name_cache@,
        b.type_cache@ == a.type_cache@,
    ensures
        b.graph_ok((next + 1) as u64),
{
    let bu = b.uuid_cache@;
    let bn = b.node_cache@;
    assert forall|u: u128| #[trigger] bu.contains_key(u) implies bn.contains_key(bu[u]) && bn[bu[u]].uuid == u by {
        if u != uuid {
            assert(a.uuid_cache@.contains_key(u));
            assert(a.uuid_cache@[u] < next);
            if a.uuid_cache@.contains_key(uuid) {
                assert(a.uuid_cache@[u] != a.uuid_cache@[uuid]);
            }
        }
    }
    assert forall|i: u64| #[trigger] bn.contains_key(i) implies {
        &&& bn[i].id == i
        &&& i < next + 1
        &&& bn[i].ty < b.type_cache@.len()
        &&& bu.contains_key(bn[i].uuid)
        &&& bu[bn[i].uuid] == i
    } by {
        if i != id {
            assert(a.node_cache@.contains_key(i));
            if a.node_cache@[i].uuid == uuid {
                assert(a.uuid_cache@[uuid] == i);
            }
        }
    }
}

impl PVMTransaction {
    pub open spec fn infs(&self) -> Map<u128, u64> {
        self.pvm.inf_index@
    }

    pub open spec fn nameds(&self) -> Map<u128, u64> {
        self.pvm.named_index@
    }

    pub open spec fn names(&self) -> Seq<NameNode> {
        self.pvm.name_cache@
    }

    pub open spec fn opens(&self) -> Map<u128, Vec<u128>> {
        self.pvm.open_cache@
    }

    /// `id` is a current node of kind `ty`.
    pub open spec fn is_live(&self, id: u64, ty: PVMDataType) -> bool {
        self.nodes().contains_key(id) && self.nodes()[id].pvm_ty == ty
    }

    /// What declaring a relationship `rel` from `src` to `dst` in `index` makes
    /// of `o`: where one is indexed the state stays and its ID is `r`;
    /// otherwise `rel`, with the next ID, is indexed, stored and logged.
    pub open spec fn rel_declared(&self, o: &PVMTransaction, inf: bool, src: u64, dst: u64, rel: Rel, r: u64) -> bool {
        let k = if inf { inf_key(rel->Inf_0.pvm_op, src, dst) } else { pair_key(src, dst) };
        let idx = if inf { o.infs() } else { o.nameds() };
        if idx.contains_key(k) {
            r == idx[k] && *self == *o
        } else {
            &&& r == o.next()
            &&& rel_id(rel) == r
            &&& self.next() == r + 1
            &&& (if inf { self.infs() == o.infs().insert(k, r) } else { self.infs() == o.infs() })
            &&& (if inf { self.nameds() == o.nameds() } else { self.nameds() == o.nameds().insert(k, r) })
            &&& self.rels() == o.rels().insert(r, rel)
            &&& self.ops() == o.ops().push(DBTr::CreateRel(rel))
            &&& self.keeps_fixed(o)
            &&& self.keeps_nodes(o)
            &&& self.keeps_names(o)
            &&& self.keeps_open(o)
        }
    }

    /// The `Inf` relationship from `src` to `dst`, made for operation `op` if
    /// there is none.
    fn _inf(&mut self, src: u64, dst: u64, pvm_op: PVMOps) -> (r: u64)
        requires
            old(self).inv(),
            old(self).next() < ID_LIMIT,
            src < old(self).next(),
            dst < old(self).next(),
        ensures
            final(self).inv(),
            final(self).rel_declared(old(self), true, src, dst,
                Rel::Inf(Inf { id: r, src, dst, pvm_op, ctx: old(self).ctx, byte_count: 0 }), r),
    {
        let k = inf_of(pvm_op, src, dst);
        match self.pvm.inf_index.get(&k) {
            Some(id) => {
                return *id;
            },
            None => {},
        }
        let id = self.id.get();
        let rel = Rel::Inf(Inf { id, src, dst, pvm_op, ctx: self.ctx, byte_count: 0 });
        self.new_rel(rel, k);
        id
    }

    /// The naming relationship from `src` to the name node `dst`, made live
    /// from this context if there is none.
    fn _named(&mut self, src: u64, dst: u64) -> (r: u64)
        requires
            old(self).inv(),
            old(self).next() < ID_LIMIT,
            dst < old(self).next(),
        ensures
            final(self).inv(),
            final(self).rel_declared(old(self), false, src, dst,
                Rel::Named(Named { id: r, src, dst, start: old(self).ctx, end: 0 }), r),
    {
        let k = pair_of(src, dst);
        match self.pvm.named_index.get(&k) {
            Some(id) => {
                return *id;
            },
            None => {},
        }
        let id = self.id.get();
        let rel = Rel::Named(Named { id, src, dst, start: self.ctx, end: 0 });
        self.new_rel(rel, k);
        id
    }

    /// Stores, indexes and logs `rel`, whose ID was just allocated.
    fn new_rel(&mut self, rel: Rel, k: u128)
        requires
            old(self).pvm.graph_ok((old(self).next() - 1) as u64),
            old(self).next() <= ID_LIMIT,
            old(self).base_ok(),
            old(self).origin_ok(),
            old(self).pvm.sessions_ok(),
            old(self).ctx == old(self).pvm.id.store,
            1 <= old(self).ctx < old(self).next() - 1,
            old(self).ctx_node.id == old(self).ctx,
            keys_unique(old(self).ops()),
            forall|i: int| 0 <= i < old(self).ops().len()
                ==> (#[trigger] op_key(old(self).ops()[i])).1 < old(self).next() - 1,
            forall|i: int| 0 <= i < old(self).ops().len() && is_create(#[trigger] old(self).ops()[i])
                ==> op_key(old(self).ops()[i]).1 > old(self).ctx,
            rel_id(rel) == old(self).next() - 1,
            rel_ends_below(rel, (old(self).next() - 1) as u64),
            match rel {
                Rel::Inf(i) => k == inf_key(i.pvm_op, i.src, i.dst) && !old(self).infs().contains_key(k),
                Rel::Named(n) => k == pair_key(n.src, n.dst) && !old(self).nameds().contains_key(k),
            },
        ensures
            final(self).inv(),
            final(self).next() == old(self).next(),
            final(self).infs() == (if rel is Inf { old(self).infs().insert(k, rel_id(rel)) } else { old(self).infs() }),
            final(self).nameds() == (if rel is Named { old(self).nameds().insert(k, rel_id(rel)) } else { old(self).nameds() }),
            final(self).rels() == old(self).rels().insert(rel_id(rel), rel),
            final(self).ops() == old(self).ops().push(DBTr::CreateRel(rel)),
            final(self).keeps_fixed(old(self)),
            final(self).keeps_nodes(old(self)),
            final(self).keeps_names(old(self)),
            final(self).keeps_open(old(self)),
    {
        let id = rel.get_db_id();
        let ghost mid = self.db.ops@;
        proof {
            assert forall|i: int| 0 <= i < mid.len() implies op_key(mid[i]) != (false, id) by {
                assert(op_key(mid[i]).1 < id);
            }
        }
        self.db.create_rel(rel);
        match rel {
            Rel::Inf(_) => {
                self.pvm.inf_index.insert(k, id);
            },
            Rel::Named(_) => {
                self.pvm.named_index.insert(k, id);
            },
        }
        self.pvm.rel_cache.insert(id, rel);
        proof {
            lemma_new_rel_wf(old(self).pvm, self.pvm, (old(self).next() - 1) as u64, rel, k);
            assert forall|i: int| 0 <= i < self.ops().len() implies (#[trigger] op_key(self.ops()[i])).1 < self.next() by {
                if i < old(self).ops().len() {
                    assert(self.ops()[i] == old(self).ops()[i]);
                }
            }
            assert forall|i: int| 0 <= i < self.ops().len() && is_create(#[trigger] self.ops()[i]) implies op_key(self.ops()[i]).1 > self.ctx by {
                if i < old(self).ops().len() {
                    assert(self.ops()[i] == old(self).ops()[i]);
                }
            }
        }
    }
}

proof fn lemma_new_rel_wf(a: PVM, b: PVM, next: u64, rel: Rel, k: u128)
    requires
        a.graph_ok(next),
        next < ID_LIMIT,
        rel_id(rel) == next,
        rel_ends_below(rel, next),
        match rel {
            Rel::Inf(i) => k == inf_key(i.pvm_op, i.src, i.dst) && !a.inf_index@.contains_key(k),
            Rel::Named(n) => k == pair_key(n.src, n.dst) && !a.named_index@.contains_key(k),
        },
        b.inf_index@ == (if rel is Inf { a.inf_index@.insert(k, next) } else { a.inf_index@ }),
        b.named_index@ == (if rel is Named { a.named_index@.insert(k, next) } else { a.named_index@ }),
        b.rel_cache@ == a.rel_cache@.insert(next, rel),
        b.uuid_cache@ == a.uuid_cache@,
        b.node_cache@ == a.node_cache@,
        b.name_cache@ == a.name_cache@,
        b.type_cache@ == a.type_cache@,
    ensures
        b.graph_ok((next + 1) as u64),
{
    let br = b.rel_cache@;
    assert forall|i: u64| #[trigger] br.contains_key(i) implies rel_id(br[i]) == i && i < next + 1 && rel_indexed(br[i], b.inf_index@, b.named_index@) && rel_ends_below(br[i], (next + 1) as u64) by {
        if i != next {
            assert(a.rel_cache@.contains_key(i));
            match br[i] {
                Rel::Inf(x) => {
                    assert(a.inf_index@[inf_key(x.pvm_op, x.src, x.dst)] == i);
                },
                Rel::Named(x) => {
                    assert(a.named_index@[pair_key(x.src, x.dst)] == i);
                },
            }
        }
    }
    assert forall|kk: u128| #[trigger] b.inf_index@.contains_key(kk) implies {
        &&& br.contains_key(b.inf_index@[kk])
        &&& br[b.inf_index@[kk]] matches Rel::Inf(r)
        &&& inf_key(r.pvm_op, r.src, r.dst) == kk
    } by {
        if !(rel is Inf && kk == k) {
            assert(a.inf_index@.contains_key(kk));
            assert(a.inf_index@[kk] < next);
        }
    }
    assert forall|kk: u128| #[trigger] b.named_index@.contains_key(kk) implies {
        &&& br.contains_key(b.named_index@[kk])
        &&& br[b.named_index@[kk]] matches Rel::Named(r)
        &&& pair_key(r.src, r.dst) == kk
    } by {
        if !(rel is Named && kk == k) {
            assert(a.named_index@.contains_key(kk));
            assert(a.named_index@[kk] < next);
        }
    }
}

/// Index of the first name node for `n`.
fn find_name(names: &Vec<NameNode>, n: &Name) -> (r: Option<usize>)
    ensures
        match name_index(names@, *n) {
            Some(i) => r.is_some() && r.unwrap() as int == i,
            None => r.is_none(),
        },
{
    let mut i: usize = 0;
    while i < names.len()
        invariant
            0 <= i <= names@.len(),
            name_index(names@.take(i as int), *n).is_none(),
        decreases names@.len() - i,
    {
        proof {
            assert(names@.take(i as int + 1).drop_last() =~= names@.take(i as int));
        }
        if names[i].name.same(n) {
            proof {
                lemma_name_index_prefix(names@, i as int + 1, *n);
            }
            return Some(i);
        }
        i = i + 1;
    }
    proof {
        assert(names@.take(i as int) =~= names@);
    }
    None
}

proof fn lemma_name_index_prefix(names: Seq<NameNode>, k: int, n: Name)
    requires
        0 <= k <= names.len(),
        name_index(names.take(k), n).is_some(),
    ensures
        name_index(names, n) == name_index(names.take(k), n),
    decreases names.len() - k,
{
    if k < names.len() {
        assert(names.take(k + 1).drop_last() =~= names.take(k));
        lemma_name_index_prefix(names, k + 1, n);
    } else {
        assert(names.take(k) =~= names);
    }
}

impl PVMTransaction {
    /// Rewrites relationship `id` as `rel`, which keeps its kind and ends, and
    /// logs the update.
    fn put_rel(&mut self, id: u64, rel: Rel)
        requires
            old(self).inv(),
            old(self).rels().contains_key(id),
            rel_id(rel) == id,
            match (rel, old(self).rels()[id]) {
                (Rel::Inf(x), Rel::Inf(y)) => x.src == y.src && x.dst == y.dst && x.pvm_op == y.pvm_op,
                (Rel::Named(x), Rel::Named(y)) => x.src == y.src && x.dst == y.dst,
                _ => false,
            },
        ensures
            final(self).inv(),
            final(self).rels() == old(self).rels().insert(id, rel),
            final(self).ops() == coalesce(old(self).ops(), DBTr::UpdateRel(rel)),
            final(self).next() == old(self).next(),
            final(self).infs() == old(self).infs(),
            final(self).nameds() == old(self).nameds(),
            final(self).keeps_fixed(old(self)),
            final(self).keeps_nodes(old(self)),
            final(self).keeps_names(old(self)),
            final(self).keeps_open(old(self)),
    {
        self.pvm.rel_cache.insert(id, rel);
        self.db.update_rel(rel);
        proof {
            lemma_coalesce_update(old(self).ops(), DBTr::UpdateRel(rel));
            lemma_put_rel_wf(old(self).pvm, self.pvm, self.next(), id, rel);
            if old(self).ops().len() == 0 {
                assert(self.ops().len() > 0);
            }
            assert forall|i: int| 0 <= i < self.ops().len() implies (#[trigger] op_key(self.ops()[i])).1 < self.next() by {
                if i < old(self).ops().len() {
                    assert(op_key(old(self).ops()[i]).1 < self.next());
                }
            }
            assert forall|i: int| 0 <= i < self.ops().len() && is_create(#[trigger] self.ops()[i]) implies op_key(self.ops()[i]).1 > self.ctx by {
                let _k = op_key(coalesce(old(self).ops(), DBTr::UpdateRel(rel))[i]);
                assert(is_create(old(self).ops()[i]));
            }
        }
    }

    /// The name list only grew and no naming was dropped or re-pointed.
    pub open spec fn names_grew(&self, o: &PVMTransaction) -> bool {
        &&& o.names().len() <= self.names().len()
        &&& self.names().take(o.names().len() as int) == o.names()
        &&& o.nameds().submap_of(self.nameds())
    }

    /// The naming relationship of `obj` with name `n`, if there is one.
    pub open spec fn naming_of(&self, obj: u64, n: Name) -> Option<u64> {
        match name_index(self.names(), n) {
            Some(j) => if self.nameds().contains_key(pair_key(obj, self.names()[j].id)) {
                Some(self.nameds()[pair_key(obj, self.names()[j].id)])
            } else {
                None
            },
            None => None,
        }
    }

    /// What looking up, or making, the name node for `n` makes of `o`.
    pub open spec fn name_declared(&self, o: &PVMTransaction, n: Name, r: u64) -> bool {
        match name_index(o.names(), n) {
            Some(i) => r == o.names()[i].id && *self == *o,
            None => {
                &&& r == o.next()
                &&& self.next() == r + 1
                &&& self.names() == o.names().push(NameNode { id: r, name: n })
                &&& self.ops() == o.ops().push(DBTr::CreateNode(Node::Name(NameNode { id: r, name: n })))
                &&& self.keeps_fixed(o)
                &&& self.keeps_nodes(o)
                &&& self.keeps_rels(o)
                &&& self.keeps_open(o)
            },
        }
    }

    fn decl_name(&mut self, name: Name) -> (r: u64)
        requires
            old(self).inv(),
            old(self).next() < ID_LIMIT,
        ensures
            final(self).inv(),
            final(self).name_declared(old(self), name, r),
    {
        match find_name(&self.pvm.name_cache, &name) {
            Some(i) => {
                proof {
                    lemma_name_index(self.names(), name);
                }
                return self.pvm.name_cache[i].id;
            },
            None => {},
        }
        let id = self.id.get();
        let ghost mid = self.db.ops@;
        proof {
            assert forall|i: int| 0 <= i < mid.len() implies op_key(mid[i]) != (true, id) by {
                assert(op_key(mid[i]).1 < id);
            }
        }
        let n = NameNode { id, name };
        self.db.create_node(Node::Name(n.copy()));
        self.pvm.name_cache.push(n);
        proof {
            let a = old(self).pvm;
            let b = self.pvm;
            assert(b.name_cache@.take(self.names_start as int) =~= a.name_cache@.take(self.names_start as int));
            assert forall|i: int| 0 <= i < b.name_cache@.len() implies #[trigger] b.name_cache@[i].id < self.next() by {
                if i < a.name_cache@.len() {
                    assert(a.name_cache@[i].id < id);
                }
            }
            assert forall|i: int| 0 <= i < self.ops().len() implies (#[trigger] op_key(self.ops()[i])).1 < self.next() by {
                if i < old(self).ops().len() {
                    assert(self.ops()[i] == old(self).ops()[i]);
                }
            }
            assert forall|i: int| 0 <= i < self.ops().len() && is_create(#[trigger] self.ops()[i]) implies op_key(self.ops()[i]).1 > self.ctx by {
                if i < old(self).ops().len() {
                    assert(self.ops()[i] == old(self).ops()[i]);
                }
            }
            assert forall|i: u64| #[trigger] b.node_cache@.contains_key(i) implies b.node_cache@[i].id == i && i < self.next() by {}
            assert forall|i: u64| #[trigger] b.rel_cache@.contains_key(i) implies rel_ends_below(b.rel_cache@[i], self.next()) by {}
        }
        id
    }

    /// What naming `obj` with `n` makes of `o`, returning `r`.
    pub open spec fn named_post(&self, o: &PVMTransaction, obj: u64, n: Name, r: u64) -> bool {
        &&& match name_index(o.names(), n) {
            Some(i) => o.nameds().contains_key(pair_key(obj, o.names()[i].id))
                ==> r == o.nameds()[pair_key(obj, o.names()[i].id)] && *self == *o,
            None => {
                let m = NameNode { id: o.next(), name: n };
                &&& self.names() == o.names().push(m)
                &&& r == o.next() + 1
                &&& self.rels()[r] == Rel::Named(Named { id: r, src: obj, dst: m.id, start: o.ctx, end: 0 })
                &&& self.ops() == o.ops().push(DBTr::CreateNode(Node::Name(m))).push(DBTr::CreateRel(self.rels()[r]))
            },
        }
        &&& (name_index(o.names(), n) matches Some(i) && !o.nameds().contains_key(pair_key(obj, o.names()[i].id))) ==> {
            &&& self.names() == o.names()
            &&& r == o.next()
            &&& self.rels()[r] == Rel::Named(
                Named { id: r, src: obj, dst: o.names()[name_index(o.names(), n).unwrap()].id, start: o.ctx, end: 0 },
            )
            &&& self.ops() == o.ops().push(DBTr::CreateRel(self.rels()[r]))
        }
        &&& name_index(self.names(), n) matches Some(j)
        &&& self.nameds().contains_key(pair_key(obj, self.names()[j].id))
        &&& self.nameds()[pair_key(obj, self.names()[j].id)] == r
        &&& self.rels().contains_key(r)
        &&& self.rels()[r] matches Rel::Named(x) && x.src == obj && x.dst == self.names()[j].id
        &&& o.rels().submap_of(self.rels())
        &&& self.infs() == o.infs()
        &&& self.names_grew(o)
        &&& self.keeps_fixed(o)
        &&& self.keeps_nodes(o)
        &&& self.keeps_open(o)
    }

    /// Names `obj` with `name`: the live naming relationship between them,
    /// made (with the name node) where there is none.
    pub fn name(&mut self, obj: u64, name: Name) -> (r: PVMResult<u64>)
        requires
            old(self).inv(),
            old(self).has_room(),
        ensures
            final(self).inv(),
            r matches Ok(id) && final(self).named_post(old(self), obj, name, id),
            final(self).next() <= old(self).next() + 2,
            old(self).next() <= final(self).next(),
    {
        let ghost n0 = name;
        let nid = self.decl_name(name);
        let ghost mid = *self;
        proof {
            lemma_name_index(old(self).names(), n0);
            lemma_name_index(self.names(), n0);
            lemma_name_index_extend(old(self).names(), NameNode { id: nid, name: n0 }, n0);
            assert(nid < self.next());
            if name_index(old(self).names(), n0).is_none() {
                lemma_fresh_named(old(self).pvm, old(self).next(), obj, nid);
            }
        }
        let id = self._named(obj, nid);
        proof {
            lemma_name_index(self.names(), n0);
            assert(self.names().take(old(self).names().len() as int) =~= old(self).names());
        }
        Ok(id)
    }

    /// Closes the naming of `obj` with `name` in this context.
    pub fn unname(&mut self, obj: u64, name: Name) -> (r: PVMResult<u64>)
        requires
            old(self).inv(),
            old(self).has_room(),
        ensures
            final(self).inv(),
            r matches Ok(id) && {
                &&& name_index(final(self).names(), name) matches Some(j)
                &&& final(self).nameds().contains_key(pair_key(obj, final(self).names()[j].id))
                &&& final(self).nameds()[pair_key(obj, final(self).names()[j].id)] == id
                &&& final(self).rels()[id] matches Rel::Named(x) && x.src == obj && x.dst == final(self).names()[j].id && x.end == old(self).ctx
            },
            forall|i: u64| old(self).rels().contains_key(i) ==> #[trigger] final(self).rels().contains_key(i),
            r matches Ok(id) ==> forall|i: u64| #[trigger] old(self).rels().contains_key(i) && i != id
                ==> final(self).rels()[i] == old(self).rels()[i],
            final(self).names_grew(old(self)),
            counts_grow(old(self).rels(), final(self).rels()),
            r matches Ok(id) ==> rel_buffered(final(self).ops(), final(self).rels()[id]),
            final(self).infs() == old(self).infs(),
            final(self).keeps_fixed(old(self)),
            final(self).keeps_nodes(old(self)),
            final(self).keeps_open(old(self)),
            final(self).next() <= old(self).next() + 2,
    {
        let ghost n0 = name;
        let id = match self.name(obj, name) {
            Ok(i) => i,
            Err(e) => {
                return Err(e);
            },
        };
        let ghost mid = *self;
        let rel = match self.pvm.rel_cache.get(&id) {
            Some(Rel::Named(x)) => Named { id: x.id, src: x.src, dst: x.dst, start: x.start, end: self.ctx },
            _ => {
                return Ok(id);
            },
        };
        self.put_rel(id, Rel::Named(rel));
        proof {
            lemma_coalesce_buffers_rel(mid.ops(), Rel::Named(rel));
            assert forall|i: u64| #[trigger] old(self).rels().contains_key(i) && old(self).rels()[i] is Inf implies {
                &&& self.rels().contains_key(i)
                &&& self.rels()[i] matches Rel::Inf(y)
                &&& y.byte_count >= old(self).rels()[i]->Inf_0.byte_count
            } by {
                assert(mid.rels().contains_key(i));
            }
            assert forall|i: u64| #[trigger] old(self).rels().contains_key(i) && i != id
                implies self.rels()[i] == old(self).rels()[i] by {
                assert(mid.named_post(old(self), obj, n0, id));
                assert(old(self).rels().submap_of(mid.rels()));
                assert(mid.rels().dom().contains(i));
                assert(mid.rels()[i] == old(self).rels()[i]);
            }
        }
        Ok(id)
    }
}

proof fn lemma_put_rel_wf(a: PVM, b: PVM, next: u64, id: u64, rel: Rel)
    requires
        a.graph_ok(next),
        a.rel_cache@.contains_key(id),
        rel_id(rel) == id,
        match (rel, a.rel_cache@[id]) {
            (Rel::Inf(x), Rel::Inf(y)) => x.src == y.src && x.dst == y.dst && x.pvm_op == y.pvm_op,
            (Rel::Named(x), Rel::Named(y)) => x.src == y.src && x.dst == y.dst,
            _ => false,
        },
        b.rel_cache@ == a.rel_cache@.insert(id, rel),
        b.inf_index@ == a.inf_index@,
        b.named_index@ == a.named_index@,
        b.uuid_cache@ == a.uuid_cache@,
        b.node_cache@ == a.node_cache@,
        b.name_cache@ == a.name_cache@,
        b.type_cache@ == a.type_cache@,
    ensures
        b.graph_ok(next),
{
    let br = b.rel_cache@;
    assert forall|i: u64| #[trigger] br.contains_key(i) implies rel_id(br[i]) == i && i < next && rel_indexed(br[i], b.inf_index@, b.named_index@) && rel_ends_below(br[i], next) by {
        assert(a.rel_cache@.contains_key(i));
    }
}

/// The members of an open-writers list.
pub open spec fn members(v: Vec<u128>) -> Set<u128> {
    v@.to_set()
}

/// The writers of the file `u` in `opens`: none where it has no entry.
pub open spec fn writers(opens: Map<u128, Vec<u128>>, u: u128) -> Set<u128> {
    if opens.contains_key(u) {
        members(opens[u])
    } else {
        Set::empty()
    }
}

/// `v` with `x` added, unless it is there already.
fn with_member(v: &Vec<u128>, x: u128) -> (r: Vec<u128>)
    ensures
        members(r) == members(*v).insert(x),
{
    let mut out: Vec<u128> = Vec::new();
    let mut found = false;
    let mut i: usize = 0;
    proof {
        assert(v@.take(0).to_set() =~= Set::<u128>::empty());
    }
    while i < v.len()
        invariant
            0 <= i <= v@.len(),
            out@ == v@.take(i as int),
            found == v@.take(i as int).to_set().contains(x),
        decreases v@.len() - i,
    {
        proof {
            assert(v@.take(i as int + 1) =~= v@.take(i as int).push(v@[i as int]));
            v@.take(i as int).lemma_push_to_set_commute(v@[i as int]);
        }
        if v[i] == x {
            found = true;
        }
        out.push(v[i]);
        i = i + 1;
    }
    proof {
        assert(v@.take(i as int) =~= v@);
    }
    if !found {
        proof {
            out@.lemma_push_to_set_commute(x);
        }
        out.push(x);
    } else {
        proof {
            assert(out@.to_set() =~= v@.to_set().insert(x));
        }
    }
    out
}

/// `v` without any `x`.
fn without_member(v: &Vec<u128>, x: u128) -> (r: Vec<u128>)
    ensures
        members(r) == members(*v).remove(x),
{
    let mut out: Vec<u128> = Vec::new();
    let mut i: usize = 0;
    proof {
        assert(v@.take(0).to_set() =~= Set::<u128>::empty());
        assert(out@.to_set() =~= Set::<u128>::empty());
    }
    while i < v.len()
        invariant
            0 <= i <= v@.len(),
            out@.to_set() == v@.take(i as int).to_set().remove(x),
        decreases v@.len() - i,
    {
        proof {
            assert(v@.take(i as int + 1) =~= v@.take(i as int).push(v@[i as int]));
            v@.take(i as int).lemma_push_to_set_commute(v@[i as int]);
        }
        if v[i] != x {
            proof {
                out@.lemma_push_to_set_commute(v@[i as int]);
            }
            out.push(v[i]);
            proof {
                assert(out@.to_set() =~= v@.take(i as int + 1).to_set().remove(x));
            }
        } else {
            proof {
                assert(out@.to_set() =~= v@.take(i as int + 1).to_set().remove(x));
            }
        }
        i = i + 1;
    }
    proof {
        assert(v@.take(i as int) =~= v@);
    }
    out
}

impl PVMTransaction {
    /// The kind of node `id`, if it is a current node.
    pub fn kind_of(&self, id: u64) -> (r: Option<PVMDataType>)
        ensures
            match r {
                Some(t) => self.nodes().contains_key(id) && self.nodes()[id].pvm_ty == t,
                None => !self.nodes().contains_key(id),
            },
    {
        match self.pvm.node_cache.get(&id) {
            Some(n) => Some(n.pvm_ty),
            None => None,
        }
    }

    /// Adds `bytes` to the byte counter of the `Inf` relationship `id`.
    fn bump(&mut self, id: u64, bytes: i64)
        requires
            old(self).inv(),
            old(self).rels().contains_key(id),
            old(self).rels()[id] is Inf,
        ensures
            final(self).inv(),
            final(self).rels() == old(self).rels().insert(id, Rel::Inf(Inf {
                byte_count: sat_add(old(self).rels()[id]->Inf_0.byte_count, bytes),
                ..old(self).rels()[id]->Inf_0
            })),
            final(self).ops() == coalesce(old(self).ops(), DBTr::UpdateRel(final(self).rels()[id])),
            final(self).next() == old(self).next(),
            final(self).infs() == old(self).infs(),
            final(self).nameds() == old(self).nameds(),
            final(self).keeps_fixed(old(self)),
            final(self).keeps_nodes(old(self)),
            final(self).keeps_names(old(self)),
            final(self).keeps_open(old(self)),
            bytes >= 0 ==> counts_grow(old(self).rels(), final(self).rels()),
            rel_buffered(final(self).ops(), final(self).rels()[id]),
    {
        let cur = match self.pvm.rel_cache.get(&id) {
            Some(Rel::Inf(x)) => *x,
            _ => {
                return;
            },
        };
        let rel = Inf { byte_count: saturating_add(cur.byte_count, bytes), ..cur };
        self.put_rel(id, Rel::Inf(rel));
        proof {
            lemma_coalesce_buffers_rel(old(self).ops(), Rel::Inf(rel));
        }
    }

    /// Records that actor `act` read from `ent`: the `Inf` relationship from
    /// `ent` to `act`. Fails where `act` is not a current actor or `ent` is
    /// not an allocated ID.
    pub fn source(&mut self, act: u64, ent: u64) -> (r: PVMResult<u64>)
        requires
            old(self).inv(),
            old(self).has_room(),
        ensures
            final(self).inv(),
            !(old(self).is_live(act, PVMDataType::Actor) && ent < old(self).next())
                ==> r is Err && *final(self) == *old(self),
            old(self).is_live(act, PVMDataType::Actor) && ent < old(self).next()
                ==> (r matches Ok(id) && final(self).rel_declared(
                old(self), true, ent, act,
                Rel::Inf(Inf { id, src: ent, dst: act, pvm_op: PVMOps::Source, ctx: old(self).ctx, byte_count: 0 }), id)),
            final(self).next() <= old(self).next() + 1,
            old(self).is_live(act, PVMDataType::Actor) && ent < old(self).next() ==> {
                &&& final(self).has_inf(PVMOps::Source, ent, act)
                &&& old(self).infs().submap_of(final(self).infs())
                &&& old(self).rels().submap_of(final(self).rels())
            },
    {
        if self.kind_of(act) != Some(PVMDataType::Actor) || ent >= self.id.cur.store {
            return Err(PVMError::AssertionFailure { cont: "source with non actor".to_owned() });
        }
        let ghost s0 = *self;
        let id = self._inf(ent, act, PVMOps::Source);
        proof {
            assert(s0.pvm.node_cache@.contains_key(act));
            lemma_declared_facts(s0, *self, PVMOps::Source, ent, act);
        }
        Ok(id)
    }

    /// As `source`, then adds `bytes` to the relationship's byte counter.
    pub fn source_nbytes(&mut self, act: u64, ent: u64, bytes: i64) -> (r: PVMResult<u64>)
        requires
            old(self).inv(),
            old(self).has_room(),
        ensures
            final(self).inv(),
            !(old(self).is_live(act, PVMDataType::Actor) && ent < old(self).next())
                ==> r is Err && *final(self) == *old(self),
            old(self).is_live(act, PVMDataType::Actor) && ent < old(self).next()
                ==> (r matches Ok(id) && {
                let k = inf_key(PVMOps::Source, ent, act);
                &&& final(self).infs() == old(self).infs().insert(k, id)
                &&& old(self).infs().contains_key(k) ==> id == old(self).infs()[k]
                &&& final(self).rels() == old(self).rels().insert(id, final(self).rels()[id])
                &&& final(self).rels()[id] matches Rel::Inf(x) && x.src == ent && x.dst == act
                    && x.byte_count == sat_add(if old(self).infs().contains_key(k) { old(self).rels()[id]->Inf_0.byte_count } else { 0 }, bytes)
                &&& final(self).nameds() == old(self).nameds()
                &&& final(self).keeps_fixed(old(self))
                &&& final(self).keeps_nodes(old(self))
                &&& final(self).keeps_names(old(self))
                &&& final(self).keeps_open(old(self))
                &&& final(self).ops() == coalesce(
                    if old(self).infs().contains_key(k) {
                        old(self).ops()
                    } else {
                        old(self).ops().push(DBTr::CreateRel(Rel::Inf(
                            Inf { id, src: ent, dst: act, pvm_op: PVMOps::Source, ctx: old(self).ctx, byte_count: 0 },
                        )))
                    },
                    DBTr::UpdateRel(final(self).rels()[id]),
                )
                &&& rel_buffered(final(self).ops(), final(self).rels()[id])
                &&& final(self).has_inf(PVMOps::Source, ent, act)
            }),
            bytes >= 0 ==> counts_grow(old(self).rels(), final(self).rels()),
            final(self).next() <= old(self).next() + 1,
    {
        let id = match self.source(act, ent) {
            Ok(i) => i,
            Err(e) => {
                proof {
                    lemma_counts_grow_refl(old(self).rels());
                }
                return Err(e);
            },
        };
        let ghost mid = self.rels();
        proof {
            if !old(self).infs().contains_key(inf_key(PVMOps::Source, ent, act)) {
                lemma_counts_grow_fresh(old(self).rels(), id, mid[id]);
            } else {
                lemma_counts_grow_refl(old(self).rels());
            }
        }
        self.bump(id, bytes);
        proof {
            lemma_counts_grow_trans(old(self).rels(), mid, self.rels(), bytes);
        }
        Ok(id)
    }

    /// Links two conduits with `Inf` relationships for `Connect`: first to
    /// second, and back where `dir` is `BiDirectional`. Fails where either is
    /// not a current conduit.
    pub fn connect(&mut self, first: u64, second: u64, dir: ConnectDir) -> (r: PVMResult<()>)
        requires
            old(self).inv(),
            old(self).has_room(),
        ensures
            final(self).inv(),
            !(old(self).is_live(first, PVMDataType::Conduit) && old(self).is_live(second, PVMDataType::Conduit))
                ==> r is Err && *final(self) == *old(self),
            old(self).is_live(first, PVMDataType::Conduit) && old(self).is_live(second, PVMDataType::Conduit)
                ==> {
                &&& r is Ok
                &&& final(self).has_inf(PVMOps::Connect, first, second)
                &&& dir == ConnectDir::BiDirectional ==> final(self).has_inf(PVMOps::Connect, second, first)
                &&& dir == ConnectDir::Mono
                    ==> final(self).infs().dom() == old(self).infs().dom().insert(inf_key(PVMOps::Connect, first, second))
                &&& dir == ConnectDir::BiDirectional
                    ==> final(self).infs().dom() == old(self).infs().dom().insert(inf_key(PVMOps::Connect, first, second)).insert(inf_key(PVMOps::Connect, second, first))
                &&& old(self).infs().submap_of(final(self).infs())
                &&& old(self).rels().submap_of(final(self).rels())
                &&& final(self).nameds() == old(self).nameds()
                &&& final(self).keeps_fixed(old(self))
                &&& final(self).keeps_nodes(old(self))
                &&& final(self).keeps_names(old(self))
                &&& final(self).keeps_open(old(self))
            },
            old(self).has_inf(PVMOps::Connect, first, second)
                && (dir == ConnectDir::Mono || old(self).has_inf(PVMOps::Connect, second, first))
                ==> *final(self) == *old(self) && final(self).ops() == old(self).ops() && final(self).rels() == old(self).rels()
                    && final(self).infs() == old(self).infs(),
            final(self).next() <= old(self).next() + 2,
    {
        if self.kind_of(first) != Some(PVMDataType::Conduit) {
            return Err(PVMError::AssertionFailure { cont: "connect with primary non conduit".to_owned() });
        }
        if self.kind_of(second) != Some(PVMDataType::Conduit) {
            return Err(PVMError::AssertionFailure { cont: "connect with secondary non conduit".to_owned() });
        }
        let ghost s0 = *self;
        self._inf(first, second, PVMOps::Connect);
        let ghost s1 = *self;
        proof {
            lemma_declared_facts(s0, s1, PVMOps::Connect, first, second);
        }
        match dir {
            ConnectDir::BiDirectional => {
                self._inf(second, first, PVMOps::Connect);
                proof {
                    lemma_declared_facts(s1, *self, PVMOps::Connect, second, first);
                    assert(self.infs().dom() =~= old(self).infs().dom().insert(inf_key(PVMOps::Connect, first, second)).insert(inf_key(PVMOps::Connect, second, first)));
                }
            },
            ConnectDir::Mono => {
                proof {
                    assert(self.infs().dom() =~= old(self).infs().dom().insert(inf_key(PVMOps::Connect, first, second)));
                }
            },
        }
        Ok(())
    }

    /// There is an `Inf` relationship from `src` to `dst`.
    pub open spec fn has_inf(&self, op: PVMOps, src: u64, dst: u64) -> bool {
        self.pvm.links(op, src, dst)
    }
}

proof fn lemma_declared_facts(o: PVMTransaction, t: PVMTransaction, op: PVMOps, src: u64, dst: u64)
    requires
        o.inv(),
        t.inv(),
        src < o.next(),
        dst < o.next(),
        exists|rel: Rel, r: u64| rel is Inf && rel->Inf_0.src == src && rel->Inf_0.dst == dst && rel->Inf_0.pvm_op == op && #[trigger] t.rel_declared(&o, true, src, dst, rel, r),
    ensures
        t.has_inf(op, src, dst),
        o.infs().submap_of(t.infs()),
        o.rels().submap_of(t.rels()),
        t.infs().dom() == o.infs().dom().insert(inf_key(op, src, dst)),
        t.nameds() == o.nameds(),
        t.keeps_fixed(&o),
        t.keeps_nodes(&o),
        t.keeps_names(&o),
        t.keeps_open(&o),
{
    let (rel, r) = choose|rel: Rel, r: u64| rel is Inf && rel->Inf_0.src == src && rel->Inf_0.dst == dst && rel->Inf_0.pvm_op == op && #[trigger] t.rel_declared(&o, true, src, dst, rel, r);
    let k = inf_key(op, src, dst);
    if o.infs().contains_key(k) {
        let x = o.rels()[o.infs()[k]]->Inf_0;
        assert(o.rels().contains_key(o.infs()[k]));
        lemma_inf_key_injective(x.pvm_op, x.src, x.dst, op, src, dst);
        assert(t.infs().dom() =~= o.infs().dom().insert(k));
    } else {
        assert(t.infs().dom() =~= o.infs().dom().insert(k));
        assert(!o.rels().contains_key(r));
    }
}

proof fn lemma_counts_grow_refl(a: Map<u64, Rel>)
    ensures
        counts_grow(a, a),
{
}

proof fn lemma_counts_grow_fresh(a: Map<u64, Rel>, id: u64, rel: Rel)
    requires
        !a.contains_key(id),
    ensures
        counts_grow(a, a.insert(id, rel)),
{
}

proof fn lemma_counts_grow_trans(a: Map<u64, Rel>, b: Map<u64, Rel>, c: Map<u64, Rel>, bytes: i64)
    requires
        counts_grow(a, b),
        bytes >= 0 ==> counts_grow(b, c),
    ensures
        bytes >= 0 ==> counts_grow(a, c),
{
    if bytes >= 0 {
        assert forall|i: u64| #[trigger] a.contains_key(i) && a[i] is Inf implies {
            &&& c.contains_key(i)
            &&& c[i] matches Rel::Inf(y)
            &&& y.byte_count >= a[i]->Inf_0.byte_count
        } by {
            assert(b.contains_key(i) && b[i] is Inf);
        }
    }
}

impl PVMTransaction {
    /// Rewrites current node `id` as `node`, which keeps its ID, UUID and
    /// type, and logs the update.
    fn put_node(&mut self, id: u64, node: DataNode)
        requires
            old(self).inv(),
            old(self).nodes().contains_key(id),
            node.id == id,
            node.uuid == old(self).nodes()[id].uuid,
            node.ty == old(self).nodes()[id].ty,
            node.pvm_ty == old(self).nodes()[id].pvm_ty,
        ensures
            final(self).inv(),
            final(self).nodes() == old(self).nodes().insert(id, node),
            exists|x: DataNode| same_node(x, node) && final(self).ops() == coalesce(old(self).ops(), DBTr::UpdateNode(Node::Data(x))),
            final(self).uuids() == old(self).uuids(),
            final(self).next() == old(self).next(),
            final(self).keeps_fixed(old(self)),
            final(self).keeps_rels(old(self)),
            final(self).keeps_names(old(self)),
            final(self).keeps_open(old(self)),
    {
        let c = node.copy();
        let ghost gc = c;
        self.db.update_node(Node::Data(c));
        self.pvm.node_cache.insert(id, node);
        proof {
            let op = DBTr::UpdateNode(Node::Data(gc));
            lemma_coalesce_update(old(self).ops(), op);
            let a = old(self).pvm;
            let b = self.pvm;
            assert forall|u: u128| #[trigger] b.uuid_cache@.contains_key(u) implies b.node_cache@.contains_key(b.uuid_cache@[u]) && b.node_cache@[b.uuid_cache@[u]].uuid == u by {
                assert(a.node_cache@.contains_key(a.uuid_cache@[u]));
            }
            assert forall|i: int| 0 <= i < self.ops().len() implies (#[trigger] op_key(self.ops()[i])).1 < self.next() by {
                let _k = op_key(coalesce(old(self).ops(), op)[i]);
                if i < old(self).ops().len() {
                    assert(op_key(old(self).ops()[i]).1 < self.next());
                }
            }
            assert forall|i: int| 0 <= i < self.ops().len() && is_create(#[trigger] self.ops()[i]) implies op_key(self.ops()[i]).1 > self.ctx by {
                let _k = op_key(coalesce(old(self).ops(), op)[i]);
                assert(is_create(old(self).ops()[i]));
            }
        }
    }

    /// Records `val` for property `key` of node `ent` in this context. Fails
    /// where `ent` is not a current node or its type lacks the property.
    pub fn meta(&mut self, ent: u64, key: &str, val: &str) -> (r: PVMResult<()>)
        requires
            old(self).inv(),
        ensures
            final(self).inv(),
            !old(self).nodes().contains_key(ent) ==> r is Err && *final(self) == *old(self),
            old(self).nodes().contains_key(ent)
                ==> match heritable_of(old(self).pvm.type_cache@[old(self).nodes()[ent].ty as int].props@, key@) {
                None => r is Err && *final(self) == *old(self),
                Some(h) => {
                    let n0 = old(self).nodes()[ent];
                    let n1 = final(self).nodes()[ent];
                    &&& r is Ok
                    &&& final(self).nodes() == old(self).nodes().insert(ent, n1)
                    &&& n1.pvm_ty == n0.pvm_ty && n1.ty == n0.ty && n1.id == n0.id && n1.uuid == n0.uuid && n1.ctx == n0.ctx
                    &&& n1.meta.entries@.drop_last() == n0.meta.entries@
                    &&& n1.meta.entries@.len() == n0.meta.entries@.len() + 1
                    &&& n1.meta.entries@.last().key@ == key@
                    &&& n1.meta.entries@.last().val@ == val@
                    &&& n1.meta.entries@.last().ctx == old(self).ctx
                    &&& n1.meta.entries@.last().heritable == h
                    &&& exists|x: DataNode| same_node(x, n1) && final(self).ops() == coalesce(old(self).ops(), DBTr::UpdateNode(Node::Data(x)))
                    &&& final(self).uuids() == old(self).uuids()
                    &&& final(self).next() == old(self).next()
                    &&& final(self).keeps_fixed(old(self))
                    &&& final(self).keeps_rels(old(self))
                    &&& final(self).keeps_names(old(self))
                    &&& final(self).keeps_open(old(self))
                },
            },
            final(self).next() == old(self).next(),
    {
        let mut n = match self.pvm.node_cache.get(&ent) {
            Some(n) => n.copy(),
            None => {
                return Err(PVMError::AssertionFailure { cont: "meta on unknown node".to_owned() });
            },
        };
        let h = match self.pvm.type_cache[n.ty].prop_heritable(key) {
            Some(h) => h,
            None => {
                return Err(PVMError::AssertionFailure { cont: "setting unknown property on concrete type".to_owned() });
            },
        };
        n.meta.update(key, val, self.ctx, h);
        proof {
            assert(n.meta.entries@.drop_last() =~= old(self).nodes()[ent].meta.entries@);
        }
        self.put_node(ent, n);
        Ok(())
    }

    /// What versioning node `src` as a new node of kind `pvm_ty` makes of
    /// `o`: the new node `r` inherits `src`'s UUID, type and heritable values,
    /// supplants it, and an `Inf` relationship for `Version` links them.
    pub open spec fn versioned(&self, o: &PVMTransaction, src: u64, pvm_ty: PVMDataType, r: u64) -> bool {
        let n0 = o.nodes()[src];
        let v = Rel::Inf(Inf { id: (r + 1) as u64, src, dst: r, pvm_op: PVMOps::Version, ctx: o.ctx, byte_count: 0 });
        &&& r == o.next()
        &&& self.next() == o.next() + 2
        &&& self.uuids() == o.uuids().insert(n0.uuid, r)
        &&& self.nodes() == o.nodes().remove(src).insert(r, self.nodes()[r])
        &&& self.nodes()[r].pvm_ty == pvm_ty
        &&& self.nodes()[r].ty == n0.ty
        &&& self.nodes()[r].uuid == n0.uuid
        &&& self.nodes()[r].id == r
        &&& self.nodes()[r].ctx == o.ctx
        &&& self.nodes()[r].meta.entries@ == snapshot_of(n0.meta.entries@, o.ctx)
        &&& self.infs() == o.infs().insert(inf_key(PVMOps::Version, src, r), (r + 1) as u64)
        &&& self.rels() == o.rels().insert((r + 1) as u64, v)
        &&& self.ops().len() == o.ops().len() + 2
        &&& self.ops().take(o.ops().len() as int) == o.ops()
        &&& self.ops().last() == DBTr::CreateRel(v)
        &&& self.ops()[o.ops().len() as int] matches DBTr::CreateNode(Node::Data(n)) && same_node(n, self.nodes()[r])
        &&& self.nameds() == o.nameds()
        &&& self.keeps_fixed(o)
        &&& self.keeps_names(o)
        &&& self.keeps_open(o)
    }

    /// Supplants current node `src` by a new version of kind `pvm_ty`.
    fn version_to(&mut self, src: u64, pvm_ty: PVMDataType) -> (r: u64)
        requires
            old(self).inv(),
            old(self).has_room(),
            old(self).nodes().contains_key(src),
            pvm_ty == PVMDataType::EditSession ==> old(self).opens().contains_key(old(self).nodes()[src].uuid)
                && old(self).opens()[old(self).nodes()[src].uuid]@.len() > 0,
        ensures
            final(self).inv(),
            final(self).versioned(old(self), src, pvm_ty, r),
    {
        let (ti, uuid, snap) = match self.pvm.node_cache.get(&src) {
            Some(n) => (n.ty, n.uuid, n.meta.snapshot(self.ctx)),
            None => {
                return 0;
            },
        };
        let ghost s0 = *self;
        let dst = self.add_idx(pvm_ty, ti, uuid, snap);
        let ghost s1 = *self;
        proof {
            assert(s0.nodes_without(uuid) == s0.nodes().remove(src));
            lemma_fresh_pair(s0.pvm, s0.next(), PVMOps::Version, src, dst);
        }
        let e = self._inf(src, dst, PVMOps::Version);
        proof {
            assert(self.nodes() =~= old(self).nodes().remove(src).insert(dst, self.nodes()[dst]));
            assert(self.ops().take(old(self).ops().len() as int) =~= old(self).ops());
        }
        dst
    }
}

/// No `Inf` relationship of a consistent graph ends at the next ID.
proof fn lemma_fresh_pair(p: PVM, next: u64, op: PVMOps, src: u64, dst: u64)
    requires
        p.graph_ok(next),
        dst >= next,
        src < ID_LIMIT,
        dst < ID_LIMIT,
    ensures
        !p.inf_index@.contains_key(inf_key(op, src, dst)),
{
    if p.inf_index@.contains_key(inf_key(op, src, dst)) {
        let id = p.inf_index@[inf_key(op, src, dst)];
        let x = p.rel_cache@[id]->Inf_0;
        assert(p.rel_cache@.contains_key(id));
        lemma_inf_key_injective(x.pvm_op, x.src, x.dst, op, src, dst);
    }
}

impl PVMTransaction {
    /// The node a write by an actor into `ent` lands on: a new version where
    /// `ent` is a store, otherwise `ent` itself.
    pub open spec fn sink_target(&self, ent: u64) -> u64 {
        if self.nodes()[ent].pvm_ty == PVMDataType::Store {
            self.next()
        } else {
            ent
        }
    }

    /// What a write by `act` into `ent`, through `sink`, makes of `o`.
    pub open spec fn sink_post(&self, o: &PVMTransaction, act: u64, ent: u64, r: u64) -> bool {
        let tgt = o.sink_target(ent);
        let u = o.nodes()[ent].uuid;
        &&& self.has_inf(PVMOps::Sink, act, tgt)
        &&& self.infs()[inf_key(PVMOps::Sink, act, tgt)] == r
        &&& o.rels().submap_of(self.rels())
        &&& o.infs().submap_of(self.infs())
        &&& o.nodes()[ent].pvm_ty == PVMDataType::Store ==> {
            &&& self.uuids()[u] == tgt
            &&& self.is_live(tgt, PVMDataType::Store)
            &&& self.nodes()[tgt].uuid == u
            &&& !self.nodes().contains_key(ent)
            &&& self.has_inf(PVMOps::Version, ent, tgt)
        }
        &&& o.nodes()[ent].pvm_ty != PVMDataType::Store ==> self.keeps_nodes(o)
        &&& self.nameds() == o.nameds()
        &&& self.keeps_fixed(o)
        &&& self.keeps_names(o)
        &&& self.keeps_open(o)
    }

    /// Records a write by actor `act` into `ent`; a store is first versioned.
    /// Fails where `act` is not a current actor or `ent` not a current node.
    pub fn sink(&mut self, act: u64, ent: u64) -> (r: PVMResult<u64>)
        requires
            old(self).inv(),
            old(self).next() + 2 * OP_IDS <= ID_LIMIT,
        ensures
            final(self).inv(),
            !(old(self).is_live(act, PVMDataType::Actor) && old(self).nodes().contains_key(ent))
                ==> r is Err && *final(self) == *old(self),
            old(self).is_live(act, PVMDataType::Actor) && old(self).nodes().contains_key(ent)
                ==> (r matches Ok(id) && final(self).sink_post(old(self), act, ent, id)),
            final(self).next() <= old(self).next() + 3,
    {
        let k = self.kind_of(ent);
        if self.kind_of(act) != Some(PVMDataType::Actor) || k.is_none() {
            return Err(PVMError::AssertionFailure { cont: "sink with non actor".to_owned() });
        }
        if k == Some(PVMDataType::Store) {
            let f = self.version_to(ent, PVMDataType::Store);
            let ghost s1 = *self;
            proof {
                lemma_fresh_pair(old(self).pvm, old(self).next(), PVMOps::Sink, act, f);
            }
            let id = self._inf(act, f, PVMOps::Sink);
            proof {
                assert(act != ent);
                assert(s1.nodes().contains_key(act));
                lemma_inf_key_injective(PVMOps::Sink, act, f, PVMOps::Version, ent, f);
                lemma_declared_facts(s1, *self, PVMOps::Sink, act, f);
            }
            Ok(id)
        } else {
            let ghost s1 = *self;
            let id = self._inf(act, ent, PVMOps::Sink);
            proof {
                lemma_declared_facts(s1, *self, PVMOps::Sink, act, ent);
            }
            Ok(id)
        }
    }
}

fn copy_list(v: &Vec<u128>) -> (r: Vec<u128>)
    ensures
        r@ == v@,
{
    let mut out: Vec<u128> = Vec::new();
    let mut i: usize = 0;
    while i < v.len()
        invariant
            0 <= i <= v@.len(),
            out@ == v@.take(i as int),
        decreases v@.len() - i,
    {
        out.push(v[i]);
        proof {
            assert(out@ =~= v@.take(i as int + 1));
        }
        i = i + 1;
    }
    proof {
        assert(v@.take(i as int) =~= v@);
    }
    out
}

proof fn lemma_members_empty(v: Vec<u128>)
    ensures
        (v@.len() == 0) == (members(v) == Set::<u128>::empty()),
{
    if v@.len() == 0 {
        assert(members(v) =~= Set::<u128>::empty());
    } else {
        assert(members(v).contains(v@[0]));
    }
}

impl PVMTransaction {
    /// The writers list of the file `u`: a copy of its entry, or empty.
    fn writers_of(&self, u: u128) -> (r: Vec<u128>)
        ensures
            members(r) == writers(self.opens(), u),
    {
        match self.pvm.open_cache.get(&u) {
            Some(v) => copy_list(v),
            None => {
                let e: Vec<u128> = Vec::new();
                proof {
                    assert(members(e) =~= Set::<u128>::empty());
                }
                e
            },
        }
    }

    /// What the opening of a write session by `act` on `ent` makes of `o`.
    pub open spec fn sinkstart_post(&self, o: &PVMTransaction, act: u64, ent: u64, r: u64) -> bool {
        let tgt = o.sink_target(ent);
        let u = o.nodes()[ent].uuid;
        let a = o.nodes()[act].uuid;
        &&& o.next() <= self.next()
        &&& self.has_inf(PVMOps::Sink, act, tgt)
        &&& self.infs()[inf_key(PVMOps::Sink, act, tgt)] == r
        &&& !o.infs().contains_key(inf_key(PVMOps::Sink, act, tgt)) ==> self.rels()[r] == Rel::Inf(
            Inf { id: r, src: act, dst: tgt, pvm_op: PVMOps::Sink, ctx: o.ctx, byte_count: 0 },
        )
        &&& o.rels().submap_of(self.rels())
        &&& o.infs().submap_of(self.infs())
        &&& self.opens().remove(u) == o.opens().remove(u)
        &&& match o.nodes()[ent].pvm_ty {
            PVMDataType::Store => {
                &&& self.uuids() == o.uuids().insert(u, tgt)
                &&& self.nodes() == o.nodes().remove(ent).insert(tgt, self.nodes()[tgt])
                &&& self.is_live(tgt, PVMDataType::EditSession)
                &&& self.nodes()[tgt].uuid == u
                &&& self.nodes()[tgt].ty == o.nodes()[ent].ty
                &&& self.ops()[o.ops().len() as int] matches DBTr::CreateNode(Node::Data(n)) && same_node(n, self.nodes()[tgt])
                &&& !self.nodes().contains_key(ent)
                &&& self.has_inf(PVMOps::Version, ent, tgt)
                &&& self.opens().contains_key(u)
                &&& writers(self.opens(), u) == set![a]
            },
            PVMDataType::EditSession => {
                &&& self.keeps_nodes(o)
                &&& self.opens().contains_key(u)
                &&& writers(self.opens(), u) == writers(o.opens(), u).insert(a)
            },
            _ => self.keeps_nodes(o) && self.keeps_open(o),
        }
        &&& self.nameds() == o.nameds()
        &&& self.keeps_fixed(o)
        &&& self.keeps_names(o)
    }

    /// Opens a write session of actor `act` on `ent`: a store becomes a new
    /// edit-session version whose writers are `act`; an edit session gains
    /// `act` as a writer. Fails where `act` is not a current actor or `ent`
    /// not a current node.
    pub fn sinkstart(&mut self, act: u64, ent: u64) -> (r: PVMResult<u64>)
        requires
            old(self).inv(),
            old(self).next() + 2 * OP_IDS <= ID_LIMIT,
        ensures
            final(self).inv(),
            !(old(self).is_live(act, PVMDataType::Actor) && old(self).nodes().contains_key(ent))
                ==> r is Err && *final(self) == *old(self),
            old(self).is_live(act, PVMDataType::Actor) && old(self).nodes().contains_key(ent)
                ==> (r matches Ok(id) && final(self).sinkstart_post(old(self), act, ent, id)),
            final(self).next() <= old(self).next() + 3,
    {
        let k = self.kind_of(ent);
        if self.kind_of(act) != Some(PVMDataType::Actor) || k.is_none() {
            return Err(PVMError::AssertionFailure { cont: "sinkstart with non actor".to_owned() });
        }
        let (a, u) = match (self.pvm.node_cache.get(&act), self.pvm.node_cache.get(&ent)) {
            (Some(x), Some(y)) => (x.uuid, y.uuid),
            _ => {
                return Err(PVMError::AssertionFailure { cont: "sinkstart with non actor".to_owned() });
            },
        };
        if k == Some(PVMDataType::Store) {
            let v = vec![a];
            proof {
                assert(members(v) =~= set![a]);
            }
            self.pvm.open_cache.insert(u, v);
            proof {
                assert(self.opens()[u]@.len() > 0);
                assert forall|i: u64| #[trigger] self.nodes().contains_key(i) && self.nodes()[i].pvm_ty == PVMDataType::EditSession
                    implies self.opens().contains_key(self.nodes()[i].uuid) && self.opens()[self.nodes()[i].uuid]@.len() > 0 by {
                    assert(old(self).nodes().contains_key(i));
                }
            }
            let es = self.version_to(ent, PVMDataType::EditSession);
            let ghost s1 = *self;
            proof {
                lemma_fresh_pair(old(self).pvm, old(self).next(), PVMOps::Sink, act, es);
                assert(act != ent);
                lemma_inf_key_injective(PVMOps::Sink, act, es, PVMOps::Version, ent, es);
            }
            let id = self._inf(act, es, PVMOps::Sink);
            proof {
                lemma_declared_facts(s1, *self, PVMOps::Sink, act, es);
                assert(self.opens().remove(u) =~= old(self).opens().remove(u));
            }
            Ok(id)
        } else if k == Some(PVMDataType::EditSession) {
            let w = self.writers_of(u);
            let w2 = with_member(&w, a);
            proof {
                lemma_members_empty(w2);
                assert(members(w2).contains(a));
            }
            self.pvm.open_cache.insert(u, w2);
            proof {
                assert(self.opens()[u]@.len() > 0);
                assert forall|i: u64| #[trigger] self.nodes().contains_key(i) && self.nodes()[i].pvm_ty == PVMDataType::EditSession
                    implies self.opens().contains_key(self.nodes()[i].uuid) && self.opens()[self.nodes()[i].uuid]@.len() > 0 by {
                    assert(old(self).nodes().contains_key(i));
                }
            }
            let ghost s1 = *self;
            let id = self._inf(act, ent, PVMOps::Sink);
            proof {
                lemma_declared_facts(s1, *self, PVMOps::Sink, act, ent);
                assert(self.opens().remove(u) =~= old(self).opens().remove(u));
            }
            Ok(id)
        } else {
            let ghost s1 = *self;
            let id = self._inf(act, ent, PVMOps::Sink);
            proof {
                lemma_declared_facts(s1, *self, PVMOps::Sink, act, ent);
            }
            Ok(id)
        }
    }

    /// As `sinkstart`, then adds `bytes` to the relationship's byte counter.
    pub fn sinkstart_nbytes(&mut self, act: u64, ent: u64, bytes: i64) -> (r: PVMResult<u64>)
        requires
            old(self).inv(),
            old(self).next() + 2 * OP_IDS <= ID_LIMIT,
        ensures
            final(self).inv(),
            !(old(self).is_live(act, PVMDataType::Actor) && old(self).nodes().contains_key(ent))
                ==> r is Err && *final(self) == *old(self),
            old(self).is_live(act, PVMDataType::Actor) && old(self).nodes().contains_key(ent)
                ==> (r matches Ok(id) && {
                let tgt = old(self).sink_target(ent);
                let k = inf_key(PVMOps::Sink, act, tgt);
                &&& final(self).uuids().contains_key(old(self).nodes()[ent].uuid)
                &&& final(self).uuids()[old(self).nodes()[ent].uuid] == tgt
                &&& final(self).has_inf(PVMOps::Sink, act, tgt)
                &&& final(self).infs()[k] == id
                &&& final(self).rels()[id]->Inf_0.byte_count == sat_add(
                    if old(self).infs().contains_key(k) { old(self).rels()[old(self).infs()[k]]->Inf_0.byte_count } else { 0 },
                    bytes,
                )
                &&& old(self).nodes()[ent].pvm_ty == PVMDataType::Store ==> {
                    &&& tgt == old(self).next()
                    &&& final(self).is_live(tgt, PVMDataType::EditSession)
                    &&& final(self).nodes()[tgt].ty == old(self).nodes()[ent].ty
                    &&& final(self).has_inf(PVMOps::Version, ent, tgt)
                    &&& !old(self).infs().contains_key(k)
                    &&& writers(final(self).opens(), old(self).nodes()[ent].uuid) == set![old(self).nodes()[act].uuid]
                }
                &&& old(self).nodes()[ent].pvm_ty == PVMDataType::EditSession ==> writers(final(self).opens(), old(self).nodes()[ent].uuid)
                    == writers(old(self).opens(), old(self).nodes()[ent].uuid).insert(old(self).nodes()[act].uuid)
            }),
            bytes >= 0 ==> counts_grow(old(self).rels(), final(self).rels()),
            final(self).next() <= old(self).next() + 3,
            final(self).keeps_fixed(old(self)),
            r matches Ok(id) ==> rel_buffered(final(self).ops(), final(self).rels()[id]) && forall|i: u64|
                #[trigger] old(self).rels().contains_key(i) && i != id ==> final(self).rels()[i] == old(self).rels()[i],
    {
        let id = match self.sinkstart(act, ent) {
            Ok(i) => i,
            Err(e) => {
                proof {
                    lemma_counts_grow_refl(old(self).rels());
                }
                return Err(e);
            },
        };
        let ghost mid = *self;
        proof {
            assert(old(self).rels().submap_of(mid.rels()));
            let tgt = old(self).sink_target(ent);
            let k = inf_key(PVMOps::Sink, act, tgt);
            assert forall|i: u64| #[trigger] old(self).rels().contains_key(i) && old(self).rels()[i] is Inf implies {
                &&& mid.rels().contains_key(i)
                &&& mid.rels()[i] matches Rel::Inf(y)
                &&& y.byte_count >= old(self).rels()[i]->Inf_0.byte_count
            } by {}
            if !old(self).infs().contains_key(k) {
                assert(!old(self).rels().contains_key(id)) by {
                    if old(self).rels().contains_key(id) {
                        let x = old(self).rels()[id];
                        let y = mid.rels()[id]->Inf_0;
                        assert(x == mid.rels()[id]);
                        assert(old(self).infs().contains_key(inf_key(y.pvm_op, y.src, y.dst)));
                    }
                }
                assert(mid.rels()[id]->Inf_0.byte_count == 0);
            } else {
                assert(old(self).infs()[k] == id);
            }
        }
        self.bump(id, bytes);
        proof {
            lemma_counts_grow_trans(old(self).rels(), mid.rels(), self.rels(), bytes);
        }
        Ok(id)
    }
}

impl PVMTransaction {
    /// What the end of `act`'s write session on `ent` makes of `o`.
    pub open spec fn sinkend_post(&self, o: &PVMTransaction, act: u64, ent: u64) -> bool {
        let u = o.nodes()[ent].uuid;
        let a = o.nodes()[act].uuid;
        let rest = writers(o.opens(), u).remove(a);
        if o.nodes()[ent].pvm_ty != PVMDataType::EditSession {
            *self == *o
        } else if rest == Set::<u128>::empty() {
            &&& self.opens() == o.opens().remove(u)
            &&& self.uuids() == o.uuids().insert(u, o.next())
            &&& self.nodes() == o.nodes().remove(ent).insert(o.next(), self.nodes()[o.next()])
            &&& self.is_live(o.next(), PVMDataType::Store)
            &&& self.nodes()[o.next()].uuid == u
            &&& self.nodes()[o.next()].ty == o.nodes()[ent].ty
            &&& self.ops().len() == o.ops().len() + 2
            &&& self.ops().take(o.ops().len() as int) == o.ops()
            &&& self.ops()[o.ops().len() as int] matches DBTr::CreateNode(Node::Data(n)) && same_node(n, self.nodes()[o.next()])
            &&& !self.nodes().contains_key(ent)
            &&& self.has_inf(PVMOps::Version, ent, o.next())
            &&& o.rels().submap_of(self.rels())
            &&& self.nameds() == o.nameds()
            &&& self.keeps_fixed(o)
            &&& self.keeps_names(o)
        } else {
            &&& self.opens() == o.opens().insert(u, self.opens()[u])
            &&& writers(self.opens(), u) == rest
            &&& self.keeps_nodes(o)
            &&& self.keeps_rels(o)
            &&& self.keeps_fixed(o)
            &&& self.keeps_names(o)
            &&& self.ops() == o.ops()
            &&& self.next() == o.next()
        }
    }

    /// Ends actor `act`'s write session on `ent`: `act` leaves the writers of
    /// an edit session, and when none is left the session becomes a new store
    /// version and its writers entry is dropped. Fails where `act` is not a
    /// current actor or `ent` not a current node.
    pub fn sinkend(&mut self, act: u64, ent: u64) -> (r: PVMResult<()>)
        requires
            old(self).inv(),
            old(self).has_room(),
        ensures
            final(self).inv(),
            !(old(self).is_live(act, PVMDataType::Actor) && old(self).nodes().contains_key(ent))
                ==> r is Err && *final(self) == *old(self),
            old(self).is_live(act, PVMDataType::Actor) && old(self).nodes().contains_key(ent)
                ==> r is Ok && final(self).sinkend_post(old(self), act, ent),
            final(self).next() <= old(self).next() + 2,
    {
        let k = self.kind_of(ent);
        if self.kind_of(act) != Some(PVMDataType::Actor) || k.is_none() {
            return Err(PVMError::AssertionFailure { cont: "sinkend with non actor".to_owned() });
        }
        let (a, u) = match (self.pvm.node_cache.get(&act), self.pvm.node_cache.get(&ent)) {
            (Some(x), Some(y)) => (x.uuid, y.uuid),
            _ => {
                return Err(PVMError::AssertionFailure { cont: "sinkend with non actor".to_owned() });
            },
        };
        if k == Some(PVMDataType::EditSession) {
            let w = self.writers_of(u);
            let rest = without_member(&w, a);
            proof {
                lemma_members_empty(rest);
            }
            if rest.len() == 0 {
                let ghost s0 = *self;
                self.version_to(ent, PVMDataType::Store);
                let ghost s1 = *self;
                self.pvm.open_cache.remove(&u);
                proof {
                    assert(self.rels() == s1.rels());
                }
            } else {
                self.pvm.open_cache.insert(u, rest);
            }
        }
        Ok(())
    }

    /// What deriving a node for `uuid` from node `src` makes of `o`, with `r`
    /// the derived node.
    pub open spec fn derived(&self, o: &PVMTransaction, src: u64, uuid: u128, r: u64) -> bool {
        let n0 = o.nodes()[src];
        let known = o.uuids().contains_key(uuid);
        &&& known ==> r == o.uuids()[uuid]
        &&& !known ==> {
            &&& r == o.next()
            &&& self.nodes()[r].pvm_ty == o.pvm.type_cache@[n0.ty as int].pvm_ty
            &&& self.nodes()[r].ty == n0.ty
        }
        &&& self.uuids() == o.uuids().insert(uuid, r)
        &&& self.nodes().contains_key(r)
        &&& self.nodes()[r].uuid == uuid
        &&& self.nodes()[r].meta.entries@ == (if known { o.nodes()[r].meta.entries@ } else { Seq::<MetaEntry>::empty() })
            + snapshot_of(n0.meta.entries@, o.ctx)
        &&& self.has_inf(PVMOps::Version, src, r)
        &&& o.rels().submap_of(self.rels())
        &&& self.nameds() == o.nameds()
        &&& self.keeps_fixed(o)
        &&& self.keeps_names(o)
        &&& self.keeps_open(o)
    }

    /// A node for `uuid` (the UUID's current node, else a new one of `src`'s
    /// type) that inherits the heritable values of `src`, linked from `src` by
    /// an `Inf` relationship for `Version`. Fails where `src` is not a current
    /// node.
    pub fn derive(&mut self, src: u64, uuid: u128) -> (r: PVMResult<u64>)
        requires
            old(self).inv(),
            old(self).has_room(),
        ensures
            final(self).inv(),
            !old(self).nodes().contains_key(src) ==> r is Err && *final(self) == *old(self),
            old(self).nodes().contains_key(src)
                ==> (r matches Ok(id) && final(self).derived(old(self), src, uuid, id)),
            final(self).next() <= old(self).next() + 2,
    {
        let (ti, snap) = match self.pvm.node_cache.get(&src) {
            Some(n) => (n.ty, n.meta.snapshot(self.ctx)),
            None => {
                return Err(PVMError::AssertionFailure { cont: "derive from unknown node".to_owned() });
            },
        };
        let known = match self.pvm.uuid_cache.get(&uuid) {
            Some(d) => Some(*d),
            None => None,
        };
        let dst = match known {
            Some(d) => d,
            None => {
                let pt = self.pvm.type_cache[ti].pvm_ty;
                self.add_idx(pt, ti, uuid, MetaStore::new())
            },
        };
        let ghost s1 = *self;
        let mut d = match self.pvm.node_cache.get(&dst) {
            Some(n) => n.copy(),
            None => {
                return Ok(dst);
            },
        };
        d.meta.merge(&snap);
        self.put_node(dst, d);
        let ghost s2 = *self;
        let e = self._inf(src, dst, PVMOps::Version);
        proof {
            lemma_declared_facts(s2, *self, PVMOps::Version, src, dst);
            if known.is_some() {
                assert(self.uuids() =~= old(self).uuids().insert(uuid, dst));
            }
        }
        Ok(dst)
    }
}

/// A naming stays where the name list only grew and no naming was dropped.
pub proof fn lemma_naming_stable(t1: PVMTransaction, t2: PVMTransaction, obj: u64, n: Name)
    requires
        t2.names_grew(&t1),
    ensures
        t1.naming_of(obj, n) matches Some(e) ==> t2.naming_of(obj, n) == Some(e),
{
    if let Some(j) = name_index(t1.names(), n) {
        lemma_name_index(t1.names(), n);
        lemma_name_index_prefix(t2.names(), t1.names().len() as int, n);
        assert(t2.names()[j] == t1.names()[j]);
        let k = pair_key(obj, t1.names()[j].id);
        if t1.nameds().contains_key(k) {
            assert(t2.nameds().dom().contains(k) || !t2.nameds().dom().contains(k));
        }
    }
}

} // verus!
