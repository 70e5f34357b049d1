//! The process tree extracted from the change-event stream: which actor
//! versions to record, with their command and context, and which
//! information-flow relationships link recorded actors.
use vstd::prelude::*;
use std::collections::HashMap;
use crate::data::{current_of, str_eq, CtxNode, Node, PVMDataType, Rel};
use crate::db::DBTr;
use crate::views::neq;

verus! {

/// One line of the process-tree output.
#[derive(Debug)]
pub enum TreeRecord {
    Node { id: u64, cmd: Option<String>, host: Option<u64>, trace_idx: Option<String>, ts: Option<String> },
    Edge { src: u64, dst: u64 },
    HostVal { uuid: String, idx: u64 },
}

/// The value of the first entry for `key` in a context's contents.
pub open spec fn cont_value(cont: Seq<(String, String)>, key: Seq<char>) -> Option<Seq<char>>
    decreases cont.len(),
{
    if cont.len() == 0 {
        None
    } else if cont[0].0@ == key {
        Some(cont[0].1@)
    } else {
        cont_value(cont.subrange(1, cont.len() as int), key)
    }
}

fn cont_get(cont: &Vec<(String, String)>, key: &str) -> (r: Option<String>)
    ensures
        match cont_value(cont@, key@) {
            Some(v) => r matches Some(s) && s@ == v,
            None => r.is_none(),
        },
{
    let mut i: usize = 0;
    proof {
        assert(cont@.subrange(0, cont@.len() as int) =~= cont@);
    }
    while i < cont.len()
        invariant
            0 <= i <= cont@.len(),
            cont_value(cont@, key@) == cont_value(cont@.subrange(i as int, cont@.len() as int), key@),
        decreases cont@.len() - i,
    {
        let ghost rest = cont@.subrange(i as int, cont@.len() as int);
        proof {
            assert(rest.subrange(1, rest.len() as int) =~= cont@.subrange(i as int + 1, cont@.len() as int));
        }
        if str_eq(cont[i].0.as_str(), key) {
            return Some(cont[i].1.clone());
        }
        i = i + 1;
    }
    None
}

/// Whether a recorded command differs from the one seen now.
pub open spec fn cmd_changed(seen: Option<Seq<char>>, recorded: Option<String>) -> bool {
    match (seen, recorded) {
        (Some(x), Some(y)) => x != y@,
        (None, None) => false,
        _ => true,
    }
}

/// The state of the process-tree extraction.
pub struct ProcTree {
    /// The property that holds a process's command.
    pub meta_key: String,
    /// The recorded actor versions and the command recorded for each.
    pub nodes: HashMap<u64, Option<String>>,
    /// The contexts of recorded versions, by ID.
    pub ctx_store: HashMap<u64, CtxNode>,
    /// The last context node seen.
    pub cur_ctx: Option<CtxNode>,
    /// The hosts seen, the first with index 1.
    pub hosts: Vec<String>,
}

fn copy_ctx(c: &CtxNode) -> (r: CtxNode)
    ensures
        r.id == c.id,
        r.cont@ == c.cont@,
{
    let mut cont: Vec<(String, String)> = Vec::new();
    let mut i: usize = 0;
    while i < c.cont.len()
        invariant
            0 <= i <= c.cont@.len(),
            cont@ == c.cont@.take(i as int),
        decreases c.cont@.len() - i,
    {
        let (k, v) = (c.cont[i].0.clone(), c.cont[i].1.clone());
        cont.push((k, v));
        proof {
            assert(cont@ =~= c.cont@.take(i as int + 1));
        }
        i = i + 1;
    }
    proof {
        assert(c.cont@.take(i as int) =~= c.cont@);
    }
    CtxNode { id: c.id, ty_name: c.ty_name.clone(), cont }
}

impl ProcTree {
    pub fn new(meta_key: &str) -> (r: ProcTree)
        ensures
            r.meta_key@ == meta_key@,
            r.nodes@ == Map::<u64, Option<String>>::empty(),
            r.hosts@.len() == 0,
            r.cur_ctx.is_none(),
    {
        ProcTree { meta_key: meta_key.to_owned(), nodes: HashMap::new(), ctx_store: HashMap::new(), cur_ctx: None, hosts: Vec::new() }
    }

    /// The index of host `h`, adding it (and saying so) where it is new.
    fn host_index(&mut self, h: &String) -> (r: (u64, bool))
        requires
            old(self).hosts@.len() < u64::MAX,
        ensures
            r.1 == !(exists|i: int| 0 <= i < old(self).hosts@.len() && old(self).hosts@[i]@ == h@),
            r.1 ==> final(self).hosts@ == old(self).hosts@.push(*h) && r.0 == final(self).hosts@.len(),
            !r.1 ==> final(self).hosts@ == old(self).hosts@ && 1 <= r.0 <= old(self).hosts@.len()
                && old(self).hosts@[r.0 - 1]@ == h@,
            final(self).nodes@ == old(self).nodes@,
            final(self).meta_key == old(self).meta_key,
    {
        let mut i: usize = 0;
        while i < self.hosts.len()
            invariant
                0 <= i <= self.hosts@.len(),
                self.hosts@ == old(self).hosts@,
                self.nodes@ == old(self).nodes@,
                self.meta_key == old(self).meta_key,
                forall|j: int| 0 <= j < i ==> self.hosts@[j]@ != h@,
            decreases self.hosts@.len() - i,
        {
            if str_eq(self.hosts[i].as_str(), h.as_str()) {
                return ((i + 1) as u64, false);
            }
            i = i + 1;
        }
        self.hosts.push(h.clone());
        (self.hosts.len() as u64, true)
    }

    /// The records that change event `tr` adds to the process tree.
    pub fn step(&mut self, tr: &DBTr) -> (r: Vec<TreeRecord>)
        requires
            old(self).hosts@.len() < u64::MAX,
        ensures
            final(self).meta_key == old(self).meta_key,
            final(self).hosts@.len() <= old(self).hosts@.len() + 1,
            match tr {
                DBTr::CreateNode(Node::Data(n)) | DBTr::UpdateNode(Node::Data(n)) => {
                    let cmd = current_of(n.meta.entries@, old(self).meta_key@);
                    if n.pvm_ty == PVMDataType::Actor && (!old(self).nodes@.contains_key(n.id)
                        || cmd_changed(cmd, old(self).nodes@[n.id])) {
                        &&& r@.len() >= 1
                        &&& (r@.last() matches TreeRecord::Node { id, cmd: c, .. } && id == n.id
                            && match cmd { Some(x) => (c matches Some(y) && y@ == x), None => c.is_none() })
                        &&& final(self).nodes@.dom() == old(self).nodes@.dom().insert(n.id)
                        &&& match cmd {
                            Some(x) => (final(self).nodes@[n.id] matches Some(y) && y@ == x),
                            None => final(self).nodes@[n.id].is_none(),
                        }
                        &&& forall|k: u64| k != n.id && old(self).nodes@.contains_key(k)
                            ==> final(self).nodes@[k] == old(self).nodes@[k]
                    } else {
                        &&& r@.len() == 0
                        &&& final(self).nodes@ == old(self).nodes@
                    }
                },
                DBTr::CreateRel(Rel::Inf(i)) => {
                    &&& final(self).nodes@ == old(self).nodes@
                    &&& if old(self).nodes@.contains_key(i.src) && old(self).nodes@.contains_key(i.dst) {
                        r@.len() == 1 && (r@[0] matches TreeRecord::Edge { src, dst } && src == i.src && dst == i.dst)
                    } else {
                        r@.len() == 0
                    }
                },
                _ => r@.len() == 0 && final(self).nodes@ == old(self).nodes@,
            },
    {
        let mut out: Vec<TreeRecord> = Vec::new();
        match tr {
            DBTr::CreateNode(n) | DBTr::UpdateNode(n) => match n {
                Node::Data(d) => {
                    if d.pvm_ty != PVMDataType::Actor {
                        return out;
                    }
                    let id = d.id;
                    let cmd = d.meta.cur(self.meta_key.as_str());
                    let changed = match self.nodes.get(&id) {
                        Some(old_cmd) => {
                            let seen: Option<&str> = match &cmd {
                                Some(c) => Some(c.as_str()),
                                None => None,
                            };
                            neq(&seen, old_cmd)
                        },
                        None => true,
                    };
                    if !changed {
                        return out;
                    }
                    let take = match &self.cur_ctx {
                        Some(c) => c.id == d.ctx,
                        None => false,
                    };
                    if take {
                        match self.cur_ctx.take() {
                            Some(c) => {
                                self.ctx_store.insert(c.id, c);
                            },
                            None => {},
                        }
                    }
                    let (trace_idx, ts, host) = match self.ctx_store.get(&d.ctx) {
                        Some(c) => (cont_get(&c.cont, "trace_offset"), cont_get(&c.cont, "time"), cont_get(&c.cont, "host")),
                        None => (None, None, None),
                    };
                    let hidx = match &host {
                        Some(h) => {
                            let (i, fresh) = self.host_index(h);
                            if fresh {
                                out.push(TreeRecord::HostVal { uuid: h.clone(), idx: i });
                            }
                            Some(i)
                        },
                        None => None,
                    };
                    let rec_cmd = match &cmd {
                        Some(c) => Some(c.clone()),
                        None => None,
                    };
                    out.push(TreeRecord::Node { id, cmd: rec_cmd, host: hidx, trace_idx, ts });
                    self.nodes.insert(id, cmd);
                    proof {
                        assert(self.nodes@.dom() =~= old(self).nodes@.dom().insert(id));
                    }
                    out
                },
                Node::Ctx(c) => {
                    self.cur_ctx = Some(copy_ctx(c));
                    out
                },
                _ => out,
            },
            DBTr::CreateRel(Rel::Inf(i)) => {
                if self.nodes.contains_key(&i.src) && self.nodes.contains_key(&i.dst) {
                    out.push(TreeRecord::Edge { src: i.src, dst: i.dst });
                }
                out
            },
            _ => out,
        }
    }
}

} // verus!
