//! The provenance graph's entities: data nodes, context and name nodes, schema
//! descriptors and the two kinds of relationship.
use vstd::prelude::*;

verus! {

/// The four abstract kinds of data node.
#[derive(Clone, Copy, Debug, PartialEq, Eq, Structural)]
pub enum PVMDataType {
    Actor,
    Store,
    Conduit,
    EditSession,
}

/// The information-flow operation an `Inf` relationship records.
#[derive(Clone, Copy, Debug, PartialEq, Eq, Structural)]
pub enum PVMOps {
    Source,
    Sink,
    Connect,
    Version,
}

/// A property of a concrete type, and whether its value survives versioning.
#[derive(Debug)]
pub struct Prop {
    pub key: String,
    pub heritable: bool,
}

/// A named schema for data nodes: its abstract kind and its property table.
#[derive(Debug)]
pub struct ConcreteType {
    pub pvm_ty: PVMDataType,
    pub name: String,
    pub props: Vec<Prop>,
}

/// A named schema for context nodes.
#[derive(Debug)]
pub struct ContextType {
    pub name: String,
    pub props: Vec<String>,
}

/// The heritability flag of the first property of `props` called `key`.
pub open spec fn heritable_of(props: Seq<Prop>, key: Seq<char>) -> Option<bool>
    decreases props.len(),
{
    if props.len() == 0 {
        None
    } else if props[0].key@ == key {
        Some(props[0].heritable)
    } else {
        heritable_of(props.subrange(1, props.len() as int), key)
    }
}

/// Whether two strings hold the same characters.
pub fn str_eq(a: &str, b: &str) -> (r: bool)
    ensures
        r == (a@ == b@),
{
    let n = a.unicode_len();
    if n != b.unicode_len() {
        return false;
    }
    let mut i: usize = 0;
    while i < n
        invariant
            n == a@.len(),
            n == b@.len(),
            0 <= i <= n,
            a@.take(i as int) == b@.take(i as int),
        decreases n - i,
    {
        if a.get_char(i) != b.get_char(i) {
            assert(a@[i as int] != b@[i as int]);
            return false;
        }
        proof {
            assert(a@.take(i as int + 1) =~= a@.take(i as int).push(a@[i as int]));
            assert(b@.take(i as int + 1) =~= b@.take(i as int).push(b@[i as int]));
        }
        i = i + 1;
    }
    proof {
        assert(a@ =~= a@.take(n as int));
        assert(b@ =~= b@.take(n as int));
    }
    true
}

/// The heritability flag of the first property called `key`.
pub fn prop_lookup(props: &Vec<Prop>, key: &str) -> (r: Option<bool>)
    ensures
        r == heritable_of(props@, key@),
{
    let mut i: usize = 0;
    proof {
        assert(props@.subrange(0, props@.len() as int) =~= props@);
    }
    while i < props.len()
        invariant
            0 <= i <= props@.len(),
            heritable_of(props@, key@) == heritable_of(props@.subrange(i as int, props@.len() as int), key@),
        decreases props@.len() - i,
    {
        let ghost rest = props@.subrange(i as int, props@.len() as int);
        proof {
            assert(rest.subrange(1, rest.len() as int) =~= props@.subrange(i as int + 1, props@.len() as int));
        }
        if str_eq(props[i].key.as_str(), key) {
            return Some(props[i].heritable);
        }
        i = i + 1;
    }
    None
}

impl ConcreteType {
    /// The heritability flag of property `key`, or `None` where the type has no
    /// such property.
    pub fn prop_heritable(&self, key: &str) -> (r: Option<bool>)
        ensures
            r == heritable_of(self.props@, key@),
    {
        prop_lookup(&self.props, key)
    }
}

/// One recorded value of a property, with the context that set it.
#[derive(Debug)]
pub struct MetaEntry {
    pub key: String,
    pub val: String,
    pub ctx: u64,
    pub heritable: bool,
}

impl MetaEntry {
    pub fn copy(&self) -> (r: MetaEntry)
        ensures
            r == *self,
    {
        MetaEntry { key: self.key.clone(), val: self.val.clone(), ctx: self.ctx, heritable: self.heritable }
    }
}

/// The entries that a list of key/value pairs gives, set in context `ctx`.
pub open spec fn entries_from(pairs: Seq<(String, String)>, ctx: u64, props: Seq<Prop>) -> Seq<MetaEntry>
    decreases pairs.len(),
{
    if pairs.len() == 0 {
        Seq::empty()
    } else {
        let p = pairs.last();
        entries_from(pairs.drop_last(), ctx, props).push(
            MetaEntry {
                key: p.0,
                val: p.1,
                ctx: ctx,
                heritable: match heritable_of(props, p.0@) {
                    Some(b) => b,
                    None => false,
                },
            },
        )
    }
}

/// The history of property values of a node, oldest first.
#[derive(Debug)]
pub struct MetaStore {
    pub entries: Vec<MetaEntry>,
}

/// The entries of `s` whose values carry over to a new version, stamped with
/// the context `ctx` of the versioning.
pub open spec fn snapshot_of(s: Seq<MetaEntry>, ctx: u64) -> Seq<MetaEntry>
    decreases s.len(),
{
    if s.len() == 0 {
        Seq::empty()
    } else {
        let rest = snapshot_of(s.drop_last(), ctx);
        let e = s.last();
        if e.heritable {
            rest.push(MetaEntry { key: e.key, val: e.val, ctx: ctx, heritable: true })
        } else {
            rest
        }
    }
}

/// The latest value recorded for `key` in `s`.
pub open spec fn current_of(s: Seq<MetaEntry>, key: Seq<char>) -> Option<Seq<char>>
    decreases s.len(),
{
    if s.len() == 0 {
        None
    } else if s.last().key@ == key {
        Some(s.last().val@)
    } else {
        current_of(s.drop_last(), key)
    }
}

impl MetaStore {
    pub fn new() -> (r: MetaStore)
        ensures
            r.entries@ == Seq::<MetaEntry>::empty(),
    {
        let r = MetaStore { entries: Vec::new() };
        assert(r.entries@ =~= Seq::<MetaEntry>::empty());
        r
    }

    pub fn copy(&self) -> (r: MetaStore)
        ensures
            r.entries@ == self.entries@,
    {
        let mut v: Vec<MetaEntry> = Vec::new();
        let mut i: usize = 0;
        while i < self.entries.len()
            invariant
                0 <= i <= self.entries@.len(),
                v@ == self.entries@.take(i as int),
            decreases self.entries@.len() - i,
        {
            v.push(self.entries[i].copy());
            proof {
                assert(v@ =~= self.entries@.take(i as int + 1));
            }
            i = i + 1;
        }
        proof {
            assert(v@ =~= self.entries@);
        }
        MetaStore { entries: v }
    }

    /// Records `val` for `key`, set in context `ctx`.
    pub fn update(&mut self, key: &str, val: &str, ctx: u64, heritable: bool)
        ensures
            final(self).entries@ == old(self).entries@.push(
                MetaEntry { key: final(self).entries@.last().key, val: final(self).entries@.last().val, ctx, heritable },
            ),
            final(self).entries@.last().key@ == key@,
            final(self).entries@.last().val@ == val@,
    {
        let e = MetaEntry { key: key.to_owned(), val: val.to_owned(), ctx, heritable };
        self.entries.push(e);
    }

    /// A store holding `pairs` as set in context `ctx`, each with the
    /// heritability that `props` gives its key (none where `props` lacks it).
    pub fn from_pairs(pairs: &Vec<(String, String)>, ctx: u64, props: &Vec<Prop>) -> (r: MetaStore)
        ensures
            r.entries@ == entries_from(pairs@, ctx, props@),
    {
        let mut v: Vec<MetaEntry> = Vec::new();
        let mut i: usize = 0;
        while i < pairs.len()
            invariant
                0 <= i <= pairs@.len(),
                v@ == entries_from(pairs@.take(i as int), ctx, props@),
            decreases pairs@.len() - i,
        {
            proof {
                assert(pairs@.take(i as int + 1).drop_last() =~= pairs@.take(i as int));
            }
            let k = &pairs[i].0;
            let h = match prop_lookup(props, k.as_str()) {
                Some(b) => b,
                None => false,
            };
            v.push(MetaEntry { key: k.clone(), val: pairs[i].1.clone(), ctx, heritable: h });
            i = i + 1;
        }
        proof {
            assert(pairs@.take(i as int) =~= pairs@);
        }
        MetaStore { entries: v }
    }

    /// The heritable values, as they are to be inherited by a version made in
    /// context `ctx`.
    pub fn snapshot(&self, ctx: u64) -> (r: MetaStore)
        ensures
            r.entries@ == snapshot_of(self.entries@, ctx),
    {
        let mut v: Vec<MetaEntry> = Vec::new();
        let mut i: usize = 0;
        while i < self.entries.len()
            invariant
                0 <= i <= self.entries@.len(),
                v@ == snapshot_of(self.entries@.take(i as int), ctx),
            decreases self.entries@.len() - i,
        {
            proof {
                assert(self.entries@.take(i as int + 1).drop_last() =~= self.entries@.take(i as int));
            }
            if self.entries[i].heritable {
                let e = &self.entries[i];
                v.push(MetaEntry { key: e.key.clone(), val: e.val.clone(), ctx, heritable: true });
            }
            i = i + 1;
        }
        proof {
            assert(self.entries@.take(i as int) =~= self.entries@);
        }
        MetaStore { entries: v }
    }

    /// Appends the entries of `other` after this store's own.
    pub fn merge(&mut self, other: &MetaStore)
        ensures
            final(self).entries@ == old(self).entries@ + other.entries@,
    {
        let mut i: usize = 0;
        while i < other.entries.len()
            invariant
                0 <= i <= other.entries@.len(),
                self.entries@ == old(self).entries@ + other.entries@.take(i as int),
            decreases other.entries@.len() - i,
        {
            self.entries.push(other.entries[i].copy());
            proof {
                assert(self.entries@ =~= old(self).entries@ + other.entries@.take(i as int + 1));
            }
            i = i + 1;
        }
        proof {
            assert(other.entries@.take(i as int) =~= other.entries@);
        }
    }

    /// The latest value recorded for `key`.
    pub fn cur(&self, key: &str) -> (r: Option<String>)
        ensures
            match current_of(self.entries@, key@) {
                Some(v) => r.is_some() && r.unwrap()@ == v,
                None => r.is_none(),
            },
    {
        let mut i: usize = self.entries.len();
        proof {
            assert(self.entries@.take(i as int) =~= self.entries@);
        }
        while i > 0
            invariant
                0 <= i <= self.entries@.len(),
                current_of(self.entries@, key@) == current_of(self.entries@.take(i as int), key@),
            decreases i,
        {
            proof {
                assert(self.entries@.take(i as int).drop_last() =~= self.entries@.take(i - 1));
                assert(self.entries@.take(i as int).last() == self.entries@[i - 1]);
            }
            if str_eq(self.entries[i - 1].key.as_str(), key) {
                return Some(self.entries[i - 1].val.clone());
            }
            i = i - 1;
        }
        None
    }
}

/// A versioned data node.
#[derive(Debug)]
pub struct DataNode {
    pub pvm_ty: PVMDataType,
    /// Index of the node's concrete type among the registered types.
    pub ty: usize,
    pub id: u64,
    pub uuid: u128,
    /// The context in which this version was made.
    pub ctx: u64,
    pub meta: MetaStore,
}

impl DataNode {
    pub fn copy(&self) -> (r: DataNode)
        ensures
            same_node(r, *self),
    {
        DataNode { pvm_ty: self.pvm_ty, ty: self.ty, id: self.id, uuid: self.uuid, ctx: self.ctx, meta: self.meta.copy() }
    }
}

/// Whether two data nodes hold the same values.
pub open spec fn same_node(a: DataNode, b: DataNode) -> bool {
    &&& a.pvm_ty == b.pvm_ty
    &&& a.ty == b.ty
    &&& a.id == b.id
    &&& a.uuid == b.uuid
    &&& a.ctx == b.ctx
    &&& a.meta.entries@ == b.meta.entries@
}

/// The node describing the event that caused a transaction.
#[derive(Debug)]
pub struct CtxNode {
    pub id: u64,
    pub ty_name: String,
    pub cont: Vec<(String, String)>,
}

/// A name an entity may carry: a path, or a network address and port.
#[derive(Debug)]
pub enum Name {
    Path(String),
    Net(String, u16),
}

/// Whether two names are the same name.
pub open spec fn same_name(a: Name, b: Name) -> bool {
    match (a, b) {
        (Name::Path(p), Name::Path(q)) => p@ == q@,
        (Name::Net(x, m), Name::Net(y, n)) => x@ == y@ && m == n,
        _ => false,
    }
}

impl Name {
    pub fn copy(&self) -> (r: Name)
        ensures
            r == *self,
    {
        match self {
            Name::Path(p) => Name::Path(p.clone()),
            Name::Net(a, p) => Name::Net(a.clone(), *p),
        }
    }

    pub fn same(&self, o: &Name) -> (r: bool)
        ensures
            r == same_name(*self, *o),
    {
        match (self, o) {
            (Name::Path(p), Name::Path(q)) => str_eq(p.as_str(), q.as_str()),
            (Name::Net(x, m), Name::Net(y, n)) => str_eq(x.as_str(), y.as_str()) && *m == *n,
            _ => false,
        }
    }
}

/// The node that stands for a name.
#[derive(Debug)]
pub struct NameNode {
    pub id: u64,
    pub name: Name,
}

impl NameNode {
    pub fn copy(&self) -> (r: NameNode)
        ensures
            r == *self,
    {
        NameNode { id: self.id, name: self.name.copy() }
    }
}

/// A descriptor of a registered data or context type.
#[derive(Debug)]
pub struct SchemaNode {
    pub id: u64,
    pub name: String,
    pub is_ctx: bool,
}

/// Any node of the graph.
#[derive(Debug)]
pub enum Node {
    Data(DataNode),
    Ctx(CtxNode),
    Name(NameNode),
    Schema(SchemaNode),
}

pub open spec fn node_id(n: Node) -> u64 {
    match n {
        Node::Data(d) => d.id,
        Node::Ctx(c) => c.id,
        Node::Name(m) => m.id,
        Node::Schema(s) => s.id,
    }
}

impl Node {
    pub fn get_db_id(&self) -> (r: u64)
        ensures
            r == node_id(*self),
    {
        match self {
            Node::Data(d) => d.id,
            Node::Ctx(c) => c.id,
            Node::Name(m) => m.id,
            Node::Schema(s) => s.id,
        }
    }
}

/// An information-flow relationship.
#[derive(Clone, Copy, Debug, PartialEq, Eq, Structural)]
pub struct Inf {
    pub id: u64,
    pub src: u64,
    pub dst: u64,
    pub pvm_op: PVMOps,
    pub ctx: u64,
    pub byte_count: i64,
}

/// A naming relationship; it is live while `end` is 0.
#[derive(Clone, Copy, Debug, PartialEq, Eq, Structural)]
pub struct Named {
    pub id: u64,
    pub src: u64,
    pub dst: u64,
    pub start: u64,
    pub end: u64,
}

/// A relationship of the graph.
#[derive(Clone, Copy, Debug, PartialEq, Eq, Structural)]
pub enum Rel {
    Inf(Inf),
    Named(Named),
}

pub open spec fn rel_id(r: Rel) -> u64 {
    match r {
        Rel::Inf(i) => i.id,
        Rel::Named(n) => n.id,
    }
}

impl Rel {
    pub fn get_db_id(&self) -> (r: u64)
        ensures
            r == rel_id(*self),
    {
        match self {
            Rel::Inf(i) => i.id,
            Rel::Named(n) => n.id,
        }
    }
}

/// The version of the graph's data model.
pub fn version() -> (r: &'static str)
    ensures
        r@ == "0.1.0"@,
{
    proof {
        reveal_strlit("0.1.0");
    }
    "0.1.0"
}

/// An entity with a graph ID.
pub trait HasID {
    spec fn spec_id(&self) -> u64;

    fn get_db_id(&self) -> (r: u64)
        ensures
            r == self.spec_id(),
    ;
}

/// A relationship's source.
pub trait HasSrc {
    spec fn spec_src(&self) -> u64;

    fn get_src(&self) -> (r: u64)
        ensures
            r == self.spec_src(),
    ;
}

/// A relationship's destination.
pub trait HasDst {
    spec fn spec_dst(&self) -> u64;

    fn get_dst(&self) -> (r: u64)
        ensures
            r == self.spec_dst(),
    ;
}

/// An entity that a general node or relationship can hold.
pub trait Enumerable {
    type Target;

    fn enumerate(self) -> Self::Target;
}

impl HasID for u64 {
    open spec fn spec_id(&self) -> u64 {
        *self
    }

    fn get_db_id(&self) -> (r: u64) {
        *self
    }
}

impl HasID for DataNode {
    open spec fn spec_id(&self) -> u64 {
        self.id
    }

    fn get_db_id(&self) -> (r: u64) {
        self.id
    }
}

impl HasID for CtxNode {
    open spec fn spec_id(&self) -> u64 {
        self.id
    }

    fn get_db_id(&self) -> (r: u64) {
        self.id
    }
}

impl HasID for NameNode {
    open spec fn spec_id(&self) -> u64 {
        self.id
    }

    fn get_db_id(&self) -> (r: u64) {
        self.id
    }
}

impl HasID for Inf {
    open spec fn spec_id(&self) -> u64 {
        self.id
    }

    fn get_db_id(&self) -> (r: u64) {
        self.id
    }
}

impl HasID for Named {
    open spec fn spec_id(&self) -> u64 {
        self.id
    }

    fn get_db_id(&self) -> (r: u64) {
        self.id
    }
}

impl HasSrc for Inf {
    open spec fn spec_src(&self) -> u64 {
        self.src
    }

    fn get_src(&self) -> (r: u64) {
        self.src
    }
}

impl HasDst for Inf {
    open spec fn spec_dst(&self) -> u64 {
        self.dst
    }

    fn get_dst(&self) -> (r: u64) {
        self.dst
    }
}

impl HasSrc for Named {
    open spec fn spec_src(&self) -> u64 {
        self.src
    }

    fn get_src(&self) -> (r: u64) {
        self.src
    }
}

impl HasDst for Named {
    open spec fn spec_dst(&self) -> u64 {
        self.dst
    }

    fn get_dst(&self) -> (r: u64) {
        self.dst
    }
}

impl Enumerable for DataNode {
    type Target = Node;

    fn enumerate(self) -> Node {
        Node::Data(self)
    }
}

impl Enumerable for CtxNode {
    type Target = Node;

    fn enumerate(self) -> Node {
        Node::Ctx(self)
    }
}

impl Enumerable for NameNode {
    type Target = Node;

    fn enumerate(self) -> Node {
        Node::Name(self)
    }
}

impl Enumerable for Inf {
    type Target = Rel;

    fn enumerate(self) -> Rel {
        Rel::Inf(self)
    }
}

impl Enumerable for Named {
    type Target = Rel;

    fn enumerate(self) -> Rel {
        Rel::Named(self)
    }
}

/// What a file node is made with.
#[derive(Debug)]
pub struct FileInit {
    pub name: String,
}

/// A file node.
#[derive(Debug)]
pub struct File {
    pub db_id: u64,
    pub uuid: u128,
    pub name: String,
}

impl File {
    /// A file node with ID `id` for `uuid`, named as `init` says (unnamed
    /// where it says nothing).
    pub fn new(id: u64, uuid: u128, init: Option<FileInit>) -> (r: File)
        ensures
            r.db_id == id,
            r.uuid == uuid,
            r.name@ == match init {
                Some(i) => i.name@,
                None => Seq::<char>::empty(),
            },
    {
        match init {
            Some(i) => File { db_id: id, uuid, name: i.name },
            None => File { db_id: id, uuid, name: String::new() },
        }
    }

    pub fn get_uuid(&self) -> (r: u128)
        ensures
            r == self.uuid,
    {
        self.uuid
    }
}

impl HasID for File {
    open spec fn spec_id(&self) -> u64 {
        self.db_id
    }

    fn get_db_id(&self) -> (r: u64) {
        self.db_id
    }
}

} // verus!
