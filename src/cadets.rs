//! The mapping of CADETS audit records onto graph operations.
use vstd::prelude::*;
use crate::data::{CtxNode, heritable_of, snapshot_of, MetaEntry, str_eq, ConcreteType, ContextType, Name, PVMDataType, PVMOps, Prop};
use crate::db::{is_create, op_key, DBTr};
use crate::data::Node;
use crate::pvm::{lemma_naming_stable, inf_key, sat_add, type_index, writers, ConnectDir, PVMError, PVMResult, PVMTransaction, PVM, ID_LIMIT};
use crate::text::{decimal_of, hyphenated_of, rfc3339_of, int_text, nat_text, octal_text, time_text, uuid_text, uuid_v5, v5_of};

verus! {

fn prop(key: &str, heritable: bool) -> (r: Prop)
    ensures
        r.key@ == key@,
        r.heritable == heritable,
{
    Prop { key: key.to_owned(), heritable }
}

/// The concrete type of processes.
pub fn process_type() -> (r: ConcreteType)
    ensures
        r.pvm_ty == PVMDataType::Actor,
        r.name@ == "process"@,
        r.props@.len() == 9,
{
    ConcreteType {
        pvm_ty: PVMDataType::Actor,
        name: "process".to_owned(),
        props: vec![
            prop("euid", true),
            prop("ruid", true),
            prop("suid", true),
            prop("egid", true),
            prop("rgid", true),
            prop("sgid", true),
            prop("pid", false),
            prop("cmdline", true),
            prop("login_name", true),
        ],
    }
}

/// The concrete type of files.
pub fn file_type() -> (r: ConcreteType)
    ensures
        r.pvm_ty == PVMDataType::Store,
        r.name@ == "file"@,
{
    ConcreteType {
        pvm_ty: PVMDataType::Store,
        name: "file".to_owned(),
        props: vec![prop("owner_uid", true), prop("owner_gid", true), prop("mode", true)],
    }
}

/// The concrete type of sockets.
pub fn socket_type() -> (r: ConcreteType)
    ensures
        r.pvm_ty == PVMDataType::Conduit,
        r.name@ == "socket"@,
{
    ConcreteType { pvm_ty: PVMDataType::Conduit, name: "socket".to_owned(), props: Vec::new() }
}

/// The concrete type of pipes.
pub fn pipe_type() -> (r: ConcreteType)
    ensures
        r.pvm_ty == PVMDataType::Conduit,
        r.name@ == "pipe"@,
{
    ConcreteType { pvm_ty: PVMDataType::Conduit, name: "pipe".to_owned(), props: Vec::new() }
}

/// The concrete type of pseudo-terminals.
pub fn ptty_type() -> (r: ConcreteType)
    ensures
        r.pvm_ty == PVMDataType::Conduit,
        r.name@ == "ptty"@,
{
    ConcreteType {
        pvm_ty: PVMDataType::Conduit,
        name: "ptty".to_owned(),
        props: vec![prop("owner_uid", true), prop("owner_gid", true), prop("mode", true)],
    }
}

/// The context type of CADETS records.
pub fn ctx_type() -> (r: ContextType)
    ensures
        r.name@ == "cadets_context"@,
{
    ContextType {
        name: "cadets_context".to_owned(),
        props: vec!["time".to_owned(), "event".to_owned(), "host".to_owned(), "trace_offset".to_owned()],
    }
}

/// An audit record.
#[derive(Debug)]
pub struct AuditEvent {
    pub offset: Option<usize>,
    pub event: String,
    /// Nanoseconds since the Unix epoch.
    pub time: i64,
    pub pid: i32,
    pub ppid: i32,
    pub tid: i32,
    pub uid: i32,
    /// The executable name of the subject process.
    pub exec_name: String,
    pub retval: i32,
    pub subjprocuuid: u128,
    pub subjthruuid: u128,
    pub host: Option<u128>,
    pub fd: Option<i32>,
    pub cpu_id: Option<i32>,
    pub cmdline: Option<String>,
    pub upath1: Option<String>,
    pub upath2: Option<String>,
    pub flags: Option<i32>,
    pub fdpath: Option<String>,
    pub arg_objuuid1: Option<u128>,
    pub arg_objuuid2: Option<u128>,
    pub ret_objuuid1: Option<u128>,
    pub ret_objuuid2: Option<u128>,
    pub ret_fd1: Option<i32>,
    pub ret_fd2: Option<i32>,
    pub arg_mem_flags: Option<Vec<String>>,
    pub arg_sharing_flags: Option<Vec<String>>,
    pub address: Option<String>,
    pub port: Option<u16>,
    pub arg_uid: Option<i64>,
    pub arg_euid: Option<i64>,
    pub arg_ruid: Option<i64>,
    pub arg_suid: Option<i64>,
    pub arg_gid: Option<i64>,
    pub arg_egid: Option<i64>,
    pub arg_rgid: Option<i64>,
    pub arg_sgid: Option<i64>,
    pub login: Option<String>,
    pub mode: Option<u32>,
}

/// An FBT record: accepted, and not mapped.
#[derive(Debug)]
pub struct FBTEvent {
    pub offset: Option<usize>,
    pub event: String,
    pub host: u128,
    pub time: i64,
    pub so_uuid: u128,
    pub lport: i32,
    pub fport: i32,
    pub laddr: String,
    pub faddr: String,
}

/// A CADETS trace record.
#[derive(Debug)]
pub enum TraceEvent {
    Audit(AuditEvent),
    FBT(FBTEvent),
}

/// Which handler an audit event name selects.
#[derive(Clone, Copy, Debug, PartialEq, Eq, Structural)]
pub enum Handler {
    Accept,
    Bind,
    Chdir,
    Chmod,
    Chown,
    Close,
    Connect,
    Exec,
    Exit,
    Fork,
    Fchmod,
    Fchown,
    Link,
    Listen,
    Mmap,
    Open,
    Pipe,
    PosixOpenpt,
    Read,
    Recvmsg,
    Recvfrom,
    Rename,
    Sendmsg,
    Sendto,
    Setegid,
    Seteuid,
    Setlogin,
    Setgid,
    Setregid,
    Setresgid,
    Setresuid,
    Setreuid,
    Setuid,
    Socket,
    Socketpair,
    Unlink,
    Write,
    Ignore,
    Unparsed
}

/// The handler for the event called `s`.
pub open spec fn handler_spec(s: Seq<char>) -> Handler {
    if s == "audit:event:aue_accept:"@ {
        Handler::Accept
    } else if s == "audit:event:aue_bind:"@ {
        Handler::Bind
    } else if s == "audit:event:aue_chdir:"@ || s == "audit:event:aue_fchdir:"@ {
        Handler::Chdir
    } else if s == "audit:event:aue_chmod:"@ || s == "audit:event:aue_fchmodat:"@ {
        Handler::Chmod
    } else if s == "audit:event:aue_chown:"@ {
        Handler::Chown
    } else if s == "audit:event:aue_close:"@ {
        Handler::Close
    } else if s == "audit:event:aue_connect:"@ {
        Handler::Connect
    } else if s == "audit:event:aue_execve:"@ {
        Handler::Exec
    } else if s == "audit:event:aue_exit:"@ {
        Handler::Exit
    } else if s == "audit:event:aue_fork:"@
        || s == "audit:event:aue_pdfork:"@
        || s == "audit:event:aue_vfork:"@ {
        Handler::Fork
    } else if s == "audit:event:aue_fchmod:"@ {
        Handler::Fchmod
    } else if s == "audit:event:aue_fchown:"@ {
        Handler::Fchown
    } else if s == "audit:event:aue_link:"@ {
        Handler::Link
    } else if s == "audit:event:aue_listen:"@ {
        Handler::Listen
    } else if s == "audit:event:aue_mmap:"@ {
        Handler::Mmap
    } else if s == "audit:event:aue_open_rwtc:"@ || s == "audit:event:aue_openat_rwtc:"@ {
        Handler::Open
    } else if s == "audit:event:aue_pipe:"@ {
        Handler::Pipe
    } else if s == "audit:event:aue_posix_openpt:"@ {
        Handler::PosixOpenpt
    } else if s == "audit:event:aue_read:"@ || s == "audit:event:aue_pread:"@ {
        Handler::Read
    } else if s == "audit:event:aue_recvmsg:"@ {
        Handler::Recvmsg
    } else if s == "audit:event:aue_recvfrom:"@ {
        Handler::Recvfrom
    } else if s == "audit:event:aue_rename:"@ {
        Handler::Rename
    } else if s == "audit:event:aue_sendmsg:"@ {
        Handler::Sendmsg
    } else if s == "audit:event:aue_sendto:"@ {
        Handler::Sendto
    } else if s == "audit:event:aue_setegid:"@ {
        Handler::Setegid
    } else if s == "audit:event:aue_seteuid:"@ {
        Handler::Seteuid
    } else if s == "audit:event:aue_setlogin:"@ {
        Handler::Setlogin
    } else if s == "audit:event:aue_setgid:"@ {
        Handler::Setgid
    } else if s == "audit:event:aue_setregid:"@ {
        Handler::Setregid
    } else if s == "audit:event:aue_setresgid:"@ {
        Handler::Setresgid
    } else if s == "audit:event:aue_setresuid:"@ {
        Handler::Setresuid
    } else if s == "audit:event:aue_setreuid:"@ {
        Handler::Setreuid
    } else if s == "audit:event:aue_setuid:"@ {
        Handler::Setuid
    } else if s == "audit:event:aue_socket:"@ {
        Handler::Socket
    } else if s == "audit:event:aue_socketpair:"@ {
        Handler::Socketpair
    } else if s == "audit:event:aue_unlink:"@ {
        Handler::Unlink
    } else if s == "audit:event:aue_write:"@
        || s == "audit:event:aue_pwrite:"@
        || s == "audit:event:aue_writev:"@ {
        Handler::Write
    } else if s == "audit:event:aue_dup2:"@ {
        Handler::Ignore
    } else {
        Handler::Unparsed
    }
}

/// The handler for the event called `event`.
pub fn handler_for(event: &str) -> (r: Handler)
    ensures
        r == handler_spec(event@),
{
    if str_eq(event, "audit:event:aue_accept:") {
        Handler::Accept
    } else if str_eq(event, "audit:event:aue_bind:") {
        Handler::Bind
    } else if str_eq(event, "audit:event:aue_chdir:") || str_eq(event, "audit:event:aue_fchdir:") {
        Handler::Chdir
    } else if str_eq(event, "audit:event:aue_chmod:")
        || str_eq(event, "audit:event:aue_fchmodat:") {
        Handler::Chmod
    } else if str_eq(event, "audit:event:aue_chown:") {
        Handler::Chown
    } else if str_eq(event, "audit:event:aue_close:") {
        Handler::Close
    } else if str_eq(event, "audit:event:aue_connect:") {
        Handler::Connect
    } else if str_eq(event, "audit:event:aue_execve:") {
        Handler::Exec
    } else if str_eq(event, "audit:event:aue_exit:") {
        Handler::Exit
    } else if str_eq(event, "audit:event:aue_fork:")
        || str_eq(event, "audit:event:aue_pdfork:")
        || str_eq(event, "audit:event:aue_vfork:") {
        Handler::Fork
    } else if str_eq(event, "audit:event:aue_fchmod:") {
        Handler::Fchmod
    } else if str_eq(event, "audit:event:aue_fchown:") {
        Handler::Fchown
    } else if str_eq(event, "audit:event:aue_link:") {
        Handler::Link
    } else if str_eq(event, "audit:event:aue_listen:") {
        Handler::Listen
    } else if str_eq(event, "audit:event:aue_mmap:") {
        Handler::Mmap
    } else if str_eq(event, "audit:event:aue_open_rwtc:")
        || str_eq(event, "audit:event:aue_openat_rwtc:") {
        Handler::Open
    } else if str_eq(event, "audit:event:aue_pipe:") {
        Handler::Pipe
    } else if str_eq(event, "audit:event:aue_posix_openpt:") {
        Handler::PosixOpenpt
    } else if str_eq(event, "audit:event:aue_read:") || str_eq(event, "audit:event:aue_pread:") {
        Handler::Read
    } else if str_eq(event, "audit:event:aue_recvmsg:") {
        Handler::Recvmsg
    } else if str_eq(event, "audit:event:aue_recvfrom:") {
        Handler::Recvfrom
    } else if str_eq(event, "audit:event:aue_rename:") {
        Handler::Rename
    } else if str_eq(event, "audit:event:aue_sendmsg:") {
        Handler::Sendmsg
    } else if str_eq(event, "audit:event:aue_sendto:") {
        Handler::Sendto
    } else if str_eq(event, "audit:event:aue_setegid:") {
        Handler::Setegid
    } else if str_eq(event, "audit:event:aue_seteuid:") {
        Handler::Seteuid
    } else if str_eq(event, "audit:event:aue_setlogin:") {
        Handler::Setlogin
    } else if str_eq(event, "audit:event:aue_setgid:") {
        Handler::Setgid
    } else if str_eq(event, "audit:event:aue_setregid:") {
        Handler::Setregid
    } else if str_eq(event, "audit:event:aue_setresgid:") {
        Handler::Setresgid
    } else if str_eq(event, "audit:event:aue_setresuid:") {
        Handler::Setresuid
    } else if str_eq(event, "audit:event:aue_setreuid:") {
        Handler::Setreuid
    } else if str_eq(event, "audit:event:aue_setuid:") {
        Handler::Setuid
    } else if str_eq(event, "audit:event:aue_socket:") {
        Handler::Socket
    } else if str_eq(event, "audit:event:aue_socketpair:") {
        Handler::Socketpair
    } else if str_eq(event, "audit:event:aue_unlink:") {
        Handler::Unlink
    } else if str_eq(event, "audit:event:aue_write:")
        || str_eq(event, "audit:event:aue_pwrite:")
        || str_eq(event, "audit:event:aue_writev:") {
        Handler::Write
    } else if str_eq(event, "audit:event:aue_dup2:") {
        Handler::Ignore
    } else {
        Handler::Unparsed
    }
}

/// `u` can be declared with the type called `ty`: it is known already, or
/// the type is registered.
pub open spec fn declarable(tr: &PVMTransaction, u: u128, ty: Seq<char>) -> bool {
    tr.uuids().contains_key(u) || type_index(tr.pvm.type_cache@, ty).is_some()
}

/// The record maps memory for reading.
pub open spec fn maps_for_read(e: &AuditEvent) -> bool {
    e.arg_mem_flags matches Some(fl) && exists|i: int| 0 <= i < fl@.len() && fl@[i]@ == "PROT_READ"@
}

/// The record maps memory for writing, shared with the file.
pub open spec fn maps_shared_write(e: &AuditEvent) -> bool {
    &&& e.arg_mem_flags matches Some(fl) && exists|i: int| 0 <= i < fl@.len() && fl@[i]@ == "PROT_WRITE"@
    &&& match e.arg_sharing_flags {
        Some(sf) => !exists|i: int| 0 <= i < sf@.len() && sf@[i]@ == "MAP_PRIVATE"@,
        None => true,
    }
}

/// Writing into `u` opens a write session on it: it is unknown (so becomes
/// a file), or its current node is a store or an edit session.
pub open spec fn writable(tr: &PVMTransaction, u: u128) -> bool {
    !tr.uuids().contains_key(u) || tr.nodes()[tr.uuids()[u]].pvm_ty == PVMDataType::Store
        || tr.nodes()[tr.uuids()[u]].pvm_ty == PVMDataType::EditSession
}

/// Two graphs hold the same indices and registered types.
pub open spec fn same_views(a: &PVM, b: &PVM) -> bool {
    &&& a.uuid_cache@ == b.uuid_cache@
    &&& a.node_cache@ == b.node_cache@
    &&& a.rel_cache@ == b.rel_cache@
    &&& a.inf_index@ == b.inf_index@
    &&& a.open_cache@ == b.open_cache@
    &&& a.type_cache@ == b.type_cache@
}

/// `r` is the error for the missing field `field` of record `e`.
pub open spec fn missing(r: PVMResult<()>, e: &AuditEvent, field: Seq<char>) -> bool {
    r matches Err(PVMError::MissingField { evt, field: f }) && evt@ == e.event@ && f@ == field
}

/// Whether `flags` holds `flag`.
pub fn has_flag(flags: &Vec<String>, flag: &str) -> (r: bool)
    ensures
        r == exists|i: int| 0 <= i < flags@.len() && flags@[i]@ == flag@,
{
    let mut i: usize = 0;
    while i < flags.len()
        invariant
            0 <= i <= flags@.len(),
            forall|j: int| 0 <= j < i ==> flags@[j]@ != flag@,
        decreases flags@.len() - i,
    {
        if str_eq(flags[i].as_str(), flag) {
            return true;
        }
        i = i + 1;
    }
    false
}

impl AuditEvent {
    fn missing_field(&self, field: &str) -> (r: PVMError)
        ensures
            r matches PVMError::MissingField { evt, field: f } && evt@ == self.event@ && f@ == field@,
    {
        PVMError::MissingField { evt: self.event.clone(), field: field.to_owned() }
    }

    fn need_uuid(&self, v: Option<u128>, field: &str) -> (r: PVMResult<u128>)
        ensures
            match v {
                Some(x) => r == Ok::<u128, PVMError>(x),
                None => r matches Err(PVMError::MissingField { evt, field: f }) && evt@ == self.event@ && f@ == field@,
            },
    {
        match v {
            Some(x) => Ok(x),
            None => Err(self.missing_field(field)),
        }
    }

    fn need_i64(&self, v: Option<i64>, field: &str) -> (r: PVMResult<i64>)
        ensures
            match v {
                Some(x) => r == Ok::<i64, PVMError>(x),
                None => r matches Err(PVMError::MissingField { evt, field: f }) && evt@ == self.event@ && f@ == field@,
            },
    {
        match v {
            Some(x) => Ok(x),
            None => Err(self.missing_field(field)),
        }
    }

    fn need_u32(&self, v: Option<u32>, field: &str) -> (r: PVMResult<u32>)
        ensures
            match v {
                Some(x) => r == Ok::<u32, PVMError>(x),
                None => r matches Err(PVMError::MissingField { evt, field: f }) && evt@ == self.event@ && f@ == field@,
            },
    {
        match v {
            Some(x) => Ok(x),
            None => Err(self.missing_field(field)),
        }
    }

    fn need_str(&self, v: &Option<String>, field: &str) -> (r: PVMResult<String>)
        ensures
            match v {
                Some(x) => r matches Ok(y) && y == x,
                None => r matches Err(PVMError::MissingField { evt, field: f }) && evt@ == self.event@ && f@ == field@,
            },
    {
        match v {
            Some(x) => Ok(x.clone()),
            None => Err(self.missing_field(field)),
        }
    }

    /// The socket name the record gives: its path, else its address and
    /// port; none where it has neither path nor port. Fails where a port
    /// comes without an address.
    pub fn opt_sock_name(&self) -> (r: PVMResult<Option<Name>>)
        ensures
            match (&self.upath1, self.port, &self.address) {
                (Some(p), _, _) => r matches Ok(Some(Name::Path(q))) && q == p,
                (None, Some(prt), Some(a)) => r matches Ok(Some(Name::Net(b, n))) && b == a && n == prt,
                (None, Some(_), None) => r matches Err(PVMError::MissingField { evt, field: f }) && evt@ == self.event@ && f@ == "address"@,
                (None, None, _) => r matches Ok(None),
            },
    {
        match &self.upath1 {
            Some(p) => Ok(Some(Name::Path(p.clone()))),
            None => match self.port {
                Some(prt) => {
                    let addr = self.need_str(&self.address, "address")?;
                    Ok(Some(Name::Net(addr, prt)))
                },
                None => Ok(None),
            },
        }
    }

    /// The socket name the record gives; fails where it gives none.
    pub fn sock_name(&self) -> (r: PVMResult<Name>)
        ensures
            match (&self.upath1, self.port, &self.address) {
                (Some(p), _, _) => r matches Ok(Name::Path(q)) && q == p,
                (None, Some(prt), Some(a)) => r matches Ok(Name::Net(b, n)) && b == a && n == prt,
                (None, Some(_), None) => r matches Err(PVMError::MissingField { evt, field: f }) && evt@ == self.event@ && f@ == "address"@,
                (None, None, _) => r matches Err(PVMError::MissingField { evt, field: f }) && evt@ == self.event@ && f@ == "upath1, port"@,
            },
    {
        match self.opt_sock_name()? {
            Some(n) => Ok(n),
            None => Err(self.missing_field("upath1, port")),
        }
    }

    fn posix_exit(&self, pro: u64, tr: &mut PVMTransaction) -> (r: PVMResult<()>)
        requires
            old(tr).inv(),
            old(tr).next() + 64 <= ID_LIMIT,
        ensures
            final(tr).inv(),
            final(tr).next() <= old(tr).next() + 32,
            final(tr).keeps_fixed(old(tr)),
            r is Ok,
            !final(tr).uuids().contains_key(self.subjprocuuid),
    {
        tr.release(self.subjprocuuid);
        Ok(())
    }

    fn posix_exec(&self, pro: u64, tr: &mut PVMTransaction) -> (r: PVMResult<()>)
        requires
            old(tr).inv(),
            old(tr).next() + 64 <= ID_LIMIT,
        ensures
            final(tr).inv(),
            final(tr).next() <= old(tr).next() + 32,
            final(tr).keeps_fixed(old(tr)),
            self.cmdline.is_none() ==> missing(r, self, "cmdline"@) && *final(tr) == *old(tr),
            self.cmdline.is_some() && self.arg_objuuid1.is_none()
                ==> missing(r, self, "arg_objuuid1"@) && *final(tr) == *old(tr),
            self.cmdline.is_some() && self.arg_objuuid1.is_some() && self.upath1.is_none()
                ==> missing(r, self, "upath1"@) && *final(tr) == *old(tr),
    {
        let cmdline = self.need_str(&self.cmdline, "cmdline")?;
        let arg_objuuid1 = self.need_uuid(self.arg_objuuid1, "arg_objuuid1")?;
        let upath1 = self.need_str(&self.upath1, "upath1")?;
        let bin = tr.declare(&file_type(), arg_objuuid1, None)?;
        tr.name(bin, Name::Path(upath1))?;
        tr.meta(pro, "cmdline", cmdline.as_str())?;
        tr.source(pro, bin)?;
        match self.arg_objuuid2 {
            Some(lduuid) => {
                let ldname = self.need_str(&self.upath2, "upath2")?;
                let ld = tr.declare(&file_type(), lduuid, None)?;
                tr.name(ld, Name::Path(ldname))?;
                tr.source(pro, ld)?;
            },
            None => {},
        }
        Ok(())
    }

    fn posix_fork(&self, pro: u64, tr: &mut PVMTransaction) -> (r: PVMResult<()>)
        requires
            old(tr).inv(),
            old(tr).next() + 64 <= ID_LIMIT,
        ensures
            final(tr).inv(),
            final(tr).next() <= old(tr).next() + 32,
            final(tr).keeps_fixed(old(tr)),
            self.ret_objuuid1.is_none() ==> missing(r, self, "ret_objuuid1"@) && *final(tr) == *old(tr),
            r is Ok ==> ({
                let u = self.ret_objuuid1.unwrap();
                &&& final(tr).uuids().contains_key(u)
                &&& final(tr).has_inf(PVMOps::Version, pro, final(tr).uuids()[u])
                &&& final(tr).has_inf(PVMOps::Source, pro, final(tr).uuids()[u])
            }),
            ({
                let u = self.ret_objuuid1.unwrap();
                let ty = old(tr).pvm.type_cache@[old(tr).nodes()[pro].ty as int];
                self.ret_objuuid1.is_some() && !old(tr).uuids().contains_key(u) && old(tr).nodes().contains_key(pro)
                    && ty.pvm_ty == PVMDataType::Actor && heritable_of(ty.props@, "pid"@).is_some() ==> {
                    let ch = final(tr).uuids()[u];
                    let m = final(tr).nodes()[ch].meta.entries@;
                    &&& r is Ok
                    &&& ch >= old(tr).next()
                    &&& final(tr).nodes()[ch].ty == old(tr).nodes()[pro].ty
                    &&& final(tr).nodes()[ch].pvm_ty == PVMDataType::Actor
                    &&& m.drop_last() == snapshot_of(old(tr).nodes()[pro].meta.entries@, old(tr).ctx)
                    &&& m.last().key@ == "pid"@
                    &&& m.last().val@ == decimal_of(self.retval as int)
                }
            }),
    {
        let ret_objuuid1 = self.need_uuid(self.ret_objuuid1, "ret_objuuid1")?;
        let ch = tr.derive(pro, ret_objuuid1)?;
        proof {
            assert(Seq::<MetaEntry>::empty() + snapshot_of(old(tr).nodes()[pro].meta.entries@, old(tr).ctx)
                =~= snapshot_of(old(tr).nodes()[pro].meta.entries@, old(tr).ctx));
            assert(tr.nodes().contains_key(ch));
            assert(tr.pvm.node_cache@.contains_key(ch));
        }
        let pid = int_text(self.retval as i64);
        tr.meta(ch, "pid", pid.as_str())?;
        proof {
            assert(tr.pvm.node_cache@.contains_key(pro) || !tr.pvm.node_cache@.contains_key(pro));
            assert(pro < tr.next());
        }
        let ghost t2 = *tr;
        tr.source(ch, pro)?;
        proof {
            let k = inf_key(PVMOps::Version, pro, ch);
            assert(t2.infs().contains_key(k));
            assert(tr.infs()[k] == t2.infs()[k]);
            assert(tr.rels()[t2.infs()[k]] == t2.rels()[t2.infs()[k]]);
        }
        Ok(())
    }

    fn posix_open(&self, pro: u64, tr: &mut PVMTransaction) -> (r: PVMResult<()>)
        requires
            old(tr).inv(),
            old(tr).next() + 64 <= ID_LIMIT,
        ensures
            final(tr).inv(),
            final(tr).next() <= old(tr).next() + 32,
            final(tr).keeps_fixed(old(tr)),
            self.ret_objuuid1.is_none() ==> r is Ok && *final(tr) == *old(tr),
            ({
                let u = self.ret_objuuid1.unwrap();
                self.ret_objuuid1.is_some() && self.upath1.is_some() && declarable(old(tr), u, "file"@) ==> r is Ok
                    && final(tr).uuids().contains_key(u)
            }),
    {

        match self.ret_objuuid1 {
            Some(fuuid) => {
                let fname = self.need_str(&self.upath1, "upath1")?;
                let f = tr.declare(&file_type(), fuuid, None)?;
                tr.name(f, Name::Path(fname))?;
            },
            None => {},
        }
        Ok(())
    }

    fn posix_read(&self, pro: u64, tr: &mut PVMTransaction) -> (r: PVMResult<()>)
        requires
            old(tr).inv(),
            old(tr).next() + 64 <= ID_LIMIT,
        ensures
            final(tr).inv(),
            final(tr).next() <= old(tr).next() + 32,
            final(tr).keeps_fixed(old(tr)),
            self.arg_objuuid1.is_none() ==> missing(r, self, "arg_objuuid1"@) && *final(tr) == *old(tr),
            ({
                let u = self.arg_objuuid1.unwrap();
                self.arg_objuuid1.is_some() && old(tr).is_live(pro, PVMDataType::Actor) && declarable(old(tr), u, "file"@)
                    ==> r is Ok && final(tr).uuids().contains_key(u)
                        && final(tr).has_inf(PVMOps::Source, final(tr).uuids()[u], pro)
            }),
    {
        let arg_objuuid1 = self.need_uuid(self.arg_objuuid1, "arg_objuuid1")?;
        let f = tr.declare(&file_type(), arg_objuuid1, None)?;
        match &self.fdpath {
            Some(pth) => {
                if !str_eq(pth.as_str(), "<unknown>") {
                    tr.name(f, Name::Path(pth.clone()))?;
                }
            },
            None => {},
        }
        proof {
            assert(tr.pvm.node_cache@.contains_key(f));
            assert(f < tr.next());
        }
        tr.source_nbytes(pro, f, self.retval as i64)?;
        Ok(())
    }

    fn posix_write(&self, pro: u64, tr: &mut PVMTransaction) -> (r: PVMResult<()>)
        requires
            old(tr).inv(),
            old(tr).next() + 64 <= ID_LIMIT,
        ensures
            final(tr).inv(),
            final(tr).next() <= old(tr).next() + 32,
            final(tr).keeps_fixed(old(tr)),
            self.arg_objuuid1.is_none() ==> missing(r, self, "arg_objuuid1"@) && *final(tr) == *old(tr),
            ({
                let u = self.arg_objuuid1.unwrap();
                self.arg_objuuid1.is_some() && old(tr).is_live(pro, PVMDataType::Actor) && declarable(old(tr), u, "file"@)
                    ==> r is Ok && final(tr).uuids().contains_key(u)
                        && final(tr).has_inf(PVMOps::Sink, pro, final(tr).uuids()[u])
            }),
            ({
                let u = self.arg_objuuid1.unwrap();
                let f = old(tr).uuids()[u];
                let a = old(tr).nodes()[pro].uuid;
                self.arg_objuuid1.is_some() && old(tr).is_live(pro, PVMDataType::Actor) && old(tr).uuids().contains_key(u)
                    && old(tr).nodes()[f].pvm_ty == PVMDataType::Store ==> {
                    let e = final(tr).uuids()[u];
                    &&& r is Ok
                    &&& e >= old(tr).next()
                    &&& final(tr).is_live(e, PVMDataType::EditSession)
                    &&& final(tr).has_inf(PVMOps::Version, f, e)
                    &&& final(tr).has_inf(PVMOps::Sink, pro, e)
                    &&& final(tr).rels()[final(tr).infs()[inf_key(PVMOps::Sink, pro, e)]]->Inf_0.byte_count
                        == sat_add(0, self.retval as i64)
                    &&& writers(final(tr).opens(), u) == set![a]
                }
            }),
    {
        let arg_objuuid1 = self.need_uuid(self.arg_objuuid1, "arg_objuuid1")?;
        let f = tr.declare(&file_type(), arg_objuuid1, None)?;
        match &self.fdpath {
            Some(pth) => {
                if !str_eq(pth.as_str(), "<unknown>") {
                    tr.name(f, Name::Path(pth.clone()))?;
                }
            },
            None => {},
        }
        tr.sinkstart_nbytes(pro, f, self.retval as i64)?;
        Ok(())
    }

    fn posix_close(&self, pro: u64, tr: &mut PVMTransaction) -> (r: PVMResult<()>)
        requires
            old(tr).inv(),
            old(tr).next() + 64 <= ID_LIMIT,
        ensures
            final(tr).inv(),
            final(tr).next() <= old(tr).next() + 32,
            final(tr).keeps_fixed(old(tr)),
            ({
                let u = self.arg_objuuid1.unwrap();
                self.arg_objuuid1.is_some() && old(tr).is_live(pro, PVMDataType::Actor) && declarable(old(tr), u, "file"@)
                    ==> r is Ok
            }),
            self.arg_objuuid1.is_none() ==> r is Ok && *final(tr) == *old(tr),
            forall|g: u128| self.arg_objuuid1 != Some(g) ==> {
                &&& #[trigger] final(tr).uuids().contains_key(g) == old(tr).uuids().contains_key(g)
                &&& final(tr).uuids()[g] == old(tr).uuids()[g]
                &&& final(tr).opens().contains_key(g) == old(tr).opens().contains_key(g)
                &&& final(tr).opens()[g] == old(tr).opens()[g]
            },
            old(tr).rels().submap_of(final(tr).rels()),
            forall|g: u128| self.arg_objuuid1 != Some(g) && #[trigger] old(tr).uuids().contains_key(g)
                ==> final(tr).nodes()[final(tr).uuids()[g]] == old(tr).nodes()[old(tr).uuids()[g]],
            ({
                let u = self.arg_objuuid1.unwrap();
                let a = old(tr).nodes()[pro].uuid;
                let f = old(tr).uuids()[u];
                self.arg_objuuid1.is_some() && old(tr).is_live(pro, PVMDataType::Actor) && old(tr).uuids().contains_key(u)
                    && old(tr).nodes()[f].pvm_ty == PVMDataType::EditSession && writers(old(tr).opens(), u) == set![a] ==> {
                    &&& r is Ok
                    &&& !final(tr).opens().contains_key(u)
                    &&& final(tr).uuids()[u] == old(tr).next()
                    &&& final(tr).is_live(old(tr).next(), PVMDataType::Store)
                    &&& final(tr).has_inf(PVMOps::Version, f, old(tr).next())
                }
            }),
    {

        match self.arg_objuuid1 {
            Some(fuuid) => {
                let f = tr.declare(&file_type(), fuuid, None)?;
                proof {
                    let a = tr.nodes()[pro].uuid;
                    assert(set![a].remove(a) =~= Set::<u128>::empty());
                }
                tr.sinkend(pro, f)?;
            },
            None => {},
        }
        Ok(())
    }

    fn posix_socket(&self, pro: u64, tr: &mut PVMTransaction) -> (r: PVMResult<()>)
        requires
            old(tr).inv(),
            old(tr).next() + 64 <= ID_LIMIT,
        ensures
            final(tr).inv(),
            final(tr).next() <= old(tr).next() + 32,
            final(tr).keeps_fixed(old(tr)),
            self.ret_objuuid1.is_none() ==> missing(r, self, "ret_objuuid1"@) && *final(tr) == *old(tr),
    {
        let ret_objuuid1 = self.need_uuid(self.ret_objuuid1, "ret_objuuid1")?;
        tr.declare(&socket_type(), ret_objuuid1, None)?;
        Ok(())
    }

    fn posix_listen(&self, pro: u64, tr: &mut PVMTransaction) -> (r: PVMResult<()>)
        requires
            old(tr).inv(),
            old(tr).next() + 64 <= ID_LIMIT,
        ensures
            final(tr).inv(),
            final(tr).next() <= old(tr).next() + 32,
            final(tr).keeps_fixed(old(tr)),
            self.arg_objuuid1.is_none() ==> missing(r, self, "arg_objuuid1"@) && *final(tr) == *old(tr),
    {
        let arg_objuuid1 = self.need_uuid(self.arg_objuuid1, "arg_objuuid1")?;
        tr.declare(&socket_type(), arg_objuuid1, None)?;
        Ok(())
    }

    fn posix_bind(&self, pro: u64, tr: &mut PVMTransaction) -> (r: PVMResult<()>)
        requires
            old(tr).inv(),
            old(tr).next() + 64 <= ID_LIMIT,
        ensures
            final(tr).inv(),
            final(tr).next() <= old(tr).next() + 32,
            final(tr).keeps_fixed(old(tr)),
            self.arg_objuuid1.is_none() ==> missing(r, self, "arg_objuuid1"@) && *final(tr) == *old(tr),
    {
        let arg_objuuid1 = self.need_uuid(self.arg_objuuid1, "arg_objuuid1")?;
        let s = tr.declare(&socket_type(), arg_objuuid1, None)?;
        let n = self.sock_name()?;
        tr.name(s, n)?;
        Ok(())
    }

    fn posix_connect(&self, pro: u64, tr: &mut PVMTransaction) -> (r: PVMResult<()>)
        requires
            old(tr).inv(),
            old(tr).next() + 64 <= ID_LIMIT,
        ensures
            final(tr).inv(),
            final(tr).next() <= old(tr).next() + 32,
            final(tr).keeps_fixed(old(tr)),
            self.arg_objuuid1.is_none() ==> missing(r, self, "arg_objuuid1"@) && *final(tr) == *old(tr),
    {
        let arg_objuuid1 = self.need_uuid(self.arg_objuuid1, "arg_objuuid1")?;
        let s = tr.declare(&socket_type(), arg_objuuid1, None)?;
        let n = self.sock_name()?;
        tr.name(s, n)?;
        Ok(())
    }

    fn posix_accept(&self, pro: u64, tr: &mut PVMTransaction) -> (r: PVMResult<()>)
        requires
            old(tr).inv(),
            old(tr).next() + 64 <= ID_LIMIT,
        ensures
            final(tr).inv(),
            final(tr).next() <= old(tr).next() + 32,
            final(tr).keeps_fixed(old(tr)),
            self.arg_objuuid1.is_none() ==> missing(r, self, "arg_objuuid1"@) && *final(tr) == *old(tr),
            self.arg_objuuid1.is_some() && self.ret_objuuid1.is_none()
                ==> missing(r, self, "ret_objuuid1"@) && *final(tr) == *old(tr),
    {
        let arg_objuuid1 = self.need_uuid(self.arg_objuuid1, "arg_objuuid1")?;
        let ret_objuuid1 = self.need_uuid(self.ret_objuuid1, "ret_objuuid1")?;
        tr.declare(&socket_type(), arg_objuuid1, None)?;
        let r = tr.declare(&socket_type(), ret_objuuid1, None)?;
        let n = self.sock_name()?;
        tr.name(r, n)?;
        Ok(())
    }

    fn posix_mmap(&self, pro: u64, tr: &mut PVMTransaction) -> (r: PVMResult<()>)
        requires
            old(tr).inv(),
            old(tr).next() + 64 <= ID_LIMIT,
        ensures
            final(tr).inv(),
            final(tr).next() <= old(tr).next() + 32,
            final(tr).keeps_fixed(old(tr)),
            self.arg_objuuid1.is_none() ==> missing(r, self, "arg_objuuid1"@) && *final(tr) == *old(tr),
            ({
                let u = self.arg_objuuid1.unwrap();
                let a = old(tr).nodes()[pro].uuid;
                self.arg_objuuid1.is_some() && old(tr).is_live(pro, PVMDataType::Actor) && declarable(old(tr), u, "file"@)
                    ==> {
                    &&& r is Ok
                    &&& final(tr).uuids().contains_key(u)
                    &&& maps_for_read(self) ==> final(tr).has_inf(PVMOps::Source, final(tr).uuids()[u], pro)
                    &&& maps_shared_write(self) && writable(old(tr), u) ==> {
                        &&& final(tr).is_live(final(tr).uuids()[u], PVMDataType::EditSession)
                        &&& writers(final(tr).opens(), u).contains(a)
                        &&& final(tr).has_inf(PVMOps::Sink, pro, final(tr).uuids()[u])
                    }
                    &&& !maps_shared_write(self) ==> final(tr).keeps_nodes(old(tr)) || !old(tr).uuids().contains_key(u)
                    &&& maps_shared_write(self) && old(tr).uuids().contains_key(u)
                        && old(tr).nodes()[old(tr).uuids()[u]].pvm_ty == PVMDataType::Store ==> {
                        &&& final(tr).uuids()[u] >= old(tr).next()
                        &&& final(tr).has_inf(PVMOps::Version, old(tr).uuids()[u], final(tr).uuids()[u])
                    }
                    &&& !maps_shared_write(self) ==> final(tr).infs().dom().subset_of(
                        old(tr).infs().dom().insert(inf_key(PVMOps::Source, final(tr).uuids()[u], pro)),
                    )
                }
            }),
    {
        let arg_objuuid1 = self.need_uuid(self.arg_objuuid1, "arg_objuuid1")?;
        let ghost t0 = *tr;
        let mut f = tr.declare(&file_type(), arg_objuuid1, None)?;
        match &self.fdpath {
            Some(fdpath) => {
                tr.name(f, Name::Path(fdpath.clone()))?;
            },
            None => {},
        }
        let ghost t1 = *tr;
        proof {
            assert(tr.pvm.node_cache@.contains_key(f));
            assert(tr.uuids()[arg_objuuid1] == f);
            assert(tr.nodes()[f].uuid == arg_objuuid1);
            if t0.is_live(pro, PVMDataType::Actor) {
                assert(tr.is_live(pro, PVMDataType::Actor));
                assert(tr.nodes()[pro].uuid == t0.nodes()[pro].uuid);
            }
        }
        match &self.arg_mem_flags {
            Some(flags) => {
                if has_flag(flags, "PROT_WRITE") {
                    let shared = match &self.arg_sharing_flags {
                        Some(share_flags) => !has_flag(share_flags, "MAP_PRIVATE"),
                        None => true,
                    };
                    if shared {
                        tr.sinkstart(pro, f)?;
                        f = tr.declare(&file_type(), arg_objuuid1, None)?;
                        proof {
                            assert(tr.uuids()[arg_objuuid1] == f);
                            assert(tr.pvm.node_cache@.contains_key(f));
                            if t0.is_live(pro, PVMDataType::Actor) {
                                if t1.nodes()[t1.uuids()[arg_objuuid1]].pvm_ty == PVMDataType::Store {
                                    assert(pro != t1.uuids()[arg_objuuid1]);
                                }
                                assert(tr.is_live(pro, PVMDataType::Actor));
                            }
                        }
                    }
                }
                if has_flag(flags, "PROT_READ") {
                    proof {
                        assert(f < tr.next());
                    }
                    tr.source(pro, f)?;
                }
            },
            None => {},
        }
        Ok(())
    }

    fn posix_socketpair(&self, pro: u64, tr: &mut PVMTransaction) -> (r: PVMResult<()>)
        requires
            old(tr).inv(),
            old(tr).next() + 64 <= ID_LIMIT,
        ensures
            final(tr).inv(),
            final(tr).next() <= old(tr).next() + 32,
            final(tr).keeps_fixed(old(tr)),
            self.ret_objuuid1.is_none() ==> missing(r, self, "ret_objuuid1"@) && *final(tr) == *old(tr),
            self.ret_objuuid1.is_some() && self.ret_objuuid2.is_none()
                ==> missing(r, self, "ret_objuuid2"@) && *final(tr) == *old(tr),
            r is Ok ==> ({
                let u1 = self.ret_objuuid1.unwrap();
                let u2 = self.ret_objuuid2.unwrap();
                &&& final(tr).uuids().contains_key(u1)
                &&& final(tr).uuids().contains_key(u2)
                &&& final(tr).has_inf(PVMOps::Connect, final(tr).uuids()[u1], final(tr).uuids()[u2])
                &&& final(tr).has_inf(PVMOps::Connect, final(tr).uuids()[u2], final(tr).uuids()[u1])
            }),
            self.ret_objuuid1.is_some() && self.ret_objuuid2.is_some()
                && !old(tr).uuids().contains_key(self.ret_objuuid1.unwrap())
                && !old(tr).uuids().contains_key(self.ret_objuuid2.unwrap())
                && type_index(old(tr).pvm.type_cache@, "socket"@).is_some() ==> r is Ok,
            ({
                let u1 = self.ret_objuuid1.unwrap();
                let u2 = self.ret_objuuid2.unwrap();
                let ti = type_index(old(tr).pvm.type_cache@, "socket"@).unwrap();
                self.ret_objuuid1.is_some() && self.ret_objuuid2.is_some() && u1 != u2
                    && !old(tr).uuids().contains_key(u1) && !old(tr).uuids().contains_key(u2)
                    && type_index(old(tr).pvm.type_cache@, "socket"@).is_some() ==> {
                    &&& final(tr).is_live(final(tr).uuids()[u1], PVMDataType::Conduit)
                    &&& final(tr).is_live(final(tr).uuids()[u2], PVMDataType::Conduit)
                    &&& final(tr).nodes()[final(tr).uuids()[u1]].ty == ti
                    &&& final(tr).nodes()[final(tr).uuids()[u2]].ty == ti
                    &&& final(tr).infs().dom() == old(tr).infs().dom()
                        .insert(inf_key(PVMOps::Connect, final(tr).uuids()[u1], final(tr).uuids()[u2]))
                        .insert(inf_key(PVMOps::Connect, final(tr).uuids()[u2], final(tr).uuids()[u1]))
                }
            }),
    {
        let ret_objuuid1 = self.need_uuid(self.ret_objuuid1, "ret_objuuid1")?;
        let ret_objuuid2 = self.need_uuid(self.ret_objuuid2, "ret_objuuid2")?;
        let s1 = tr.declare(&socket_type(), ret_objuuid1, None)?;
        let ghost t1 = *tr;
        let s2 = tr.declare(&socket_type(), ret_objuuid2, None)?;
        proof {
            assert(t1.uuids()[ret_objuuid1] == s1);
            assert(tr.uuids()[ret_objuuid1] == s1);
            assert(tr.uuids()[ret_objuuid2] == s2);
        }
        tr.connect(s1, s2, ConnectDir::BiDirectional)?;
        Ok(())
    }

    fn posix_pipe(&self, pro: u64, tr: &mut PVMTransaction) -> (r: PVMResult<()>)
        requires
            old(tr).inv(),
            old(tr).next() + 64 <= ID_LIMIT,
        ensures
            final(tr).inv(),
            final(tr).next() <= old(tr).next() + 32,
            final(tr).keeps_fixed(old(tr)),
            self.ret_objuuid1.is_none() ==> missing(r, self, "ret_objuuid1"@) && *final(tr) == *old(tr),
            self.ret_objuuid1.is_some() && self.ret_objuuid2.is_none()
                ==> missing(r, self, "ret_objuuid2"@) && *final(tr) == *old(tr),
            r is Ok ==> ({
                let u1 = self.ret_objuuid1.unwrap();
                let u2 = self.ret_objuuid2.unwrap();
                &&& final(tr).uuids().contains_key(u1)
                &&& final(tr).uuids().contains_key(u2)
                &&& final(tr).has_inf(PVMOps::Connect, final(tr).uuids()[u1], final(tr).uuids()[u2])
                &&& final(tr).has_inf(PVMOps::Connect, final(tr).uuids()[u2], final(tr).uuids()[u1])
            }),
            self.ret_objuuid1.is_some() && self.ret_objuuid2.is_some()
                && !old(tr).uuids().contains_key(self.ret_objuuid1.unwrap())
                && !old(tr).uuids().contains_key(self.ret_objuuid2.unwrap())
                && type_index(old(tr).pvm.type_cache@, "pipe"@).is_some() ==> r is Ok,
            ({
                let u1 = self.ret_objuuid1.unwrap();
                let u2 = self.ret_objuuid2.unwrap();
                let ti = type_index(old(tr).pvm.type_cache@, "pipe"@).unwrap();
                self.ret_objuuid1.is_some() && self.ret_objuuid2.is_some() && u1 != u2
                    && !old(tr).uuids().contains_key(u1) && !old(tr).uuids().contains_key(u2)
                    && type_index(old(tr).pvm.type_cache@, "pipe"@).is_some() ==> {
                    &&& final(tr).is_live(final(tr).uuids()[u1], PVMDataType::Conduit)
                    &&& final(tr).is_live(final(tr).uuids()[u2], PVMDataType::Conduit)
                    &&& final(tr).nodes()[final(tr).uuids()[u1]].ty == ti
                    &&& final(tr).nodes()[final(tr).uuids()[u2]].ty == ti
                    &&& final(tr).infs().dom() == old(tr).infs().dom()
                        .insert(inf_key(PVMOps::Connect, final(tr).uuids()[u1], final(tr).uuids()[u2]))
                        .insert(inf_key(PVMOps::Connect, final(tr).uuids()[u2], final(tr).uuids()[u1]))
                }
            }),
    {
        let ret_objuuid1 = self.need_uuid(self.ret_objuuid1, "ret_objuuid1")?;
        let ret_objuuid2 = self.need_uuid(self.ret_objuuid2, "ret_objuuid2")?;
        let s1 = tr.declare(&pipe_type(), ret_objuuid1, None)?;
        let ghost t1 = *tr;
        let s2 = tr.declare(&pipe_type(), ret_objuuid2, None)?;
        proof {
            assert(t1.uuids()[ret_objuuid1] == s1);
            assert(tr.uuids()[ret_objuuid1] == s1);
            assert(tr.uuids()[ret_objuuid2] == s2);
        }
        tr.connect(s1, s2, ConnectDir::BiDirectional)?;
        Ok(())
    }

    fn posix_sendmsg(&self, pro: u64, tr: &mut PVMTransaction) -> (r: PVMResult<()>)
        requires
            old(tr).inv(),
            old(tr).next() + 64 <= ID_LIMIT,
        ensures
            final(tr).inv(),
            final(tr).next() <= old(tr).next() + 32,
            final(tr).keeps_fixed(old(tr)),
            self.arg_objuuid1.is_none() ==> missing(r, self, "arg_objuuid1"@) && *final(tr) == *old(tr),
    {
        let arg_objuuid1 = self.need_uuid(self.arg_objuuid1, "arg_objuuid1")?;
        let s = tr.declare(&socket_type(), arg_objuuid1, None)?;
        match self.opt_sock_name()? {
            Some(n) => {
                tr.name(s, n)?;
            },
            None => {},
        }
        tr.sinkstart_nbytes(pro, s, self.retval as i64)?;
        Ok(())
    }

    fn posix_sendto(&self, pro: u64, tr: &mut PVMTransaction) -> (r: PVMResult<()>)
        requires
            old(tr).inv(),
            old(tr).next() + 64 <= ID_LIMIT,
        ensures
            final(tr).inv(),
            final(tr).next() <= old(tr).next() + 32,
            final(tr).keeps_fixed(old(tr)),
            self.arg_objuuid1.is_none() ==> missing(r, self, "arg_objuuid1"@) && *final(tr) == *old(tr),
    {
        let arg_objuuid1 = self.need_uuid(self.arg_objuuid1, "arg_objuuid1")?;
        let s = tr.declare(&socket_type(), arg_objuuid1, None)?;
        match self.opt_sock_name()? {
            Some(n) => {
                tr.name(s, n)?;
            },
            None => {},
        }
        tr.sinkstart_nbytes(pro, s, self.retval as i64)?;
        Ok(())
    }

    fn posix_recvmsg(&self, pro: u64, tr: &mut PVMTransaction) -> (r: PVMResult<()>)
        requires
            old(tr).inv(),
            old(tr).next() + 64 <= ID_LIMIT,
        ensures
            final(tr).inv(),
            final(tr).next() <= old(tr).next() + 32,
            final(tr).keeps_fixed(old(tr)),
            self.arg_objuuid1.is_none() ==> missing(r, self, "arg_objuuid1"@) && *final(tr) == *old(tr),
    {
        let arg_objuuid1 = self.need_uuid(self.arg_objuuid1, "arg_objuuid1")?;
        let s = tr.declare(&socket_type(), arg_objuuid1, None)?;
        match self.opt_sock_name()? {
            Some(n) => {
                tr.name(s, n)?;
            },
            None => {},
        }
        tr.source_nbytes(pro, s, self.retval as i64)?;
        Ok(())
    }

    fn posix_recvfrom(&self, pro: u64, tr: &mut PVMTransaction) -> (r: PVMResult<()>)
        requires
            old(tr).inv(),
            old(tr).next() + 64 <= ID_LIMIT,
        ensures
            final(tr).inv(),
            final(tr).next() <= old(tr).next() + 32,
            final(tr).keeps_fixed(old(tr)),
            self.arg_objuuid1.is_none() ==> missing(r, self, "arg_objuuid1"@) && *final(tr) == *old(tr),
    {
        let arg_objuuid1 = self.need_uuid(self.arg_objuuid1, "arg_objuuid1")?;
        let s = tr.declare(&socket_type(), arg_objuuid1, None)?;
        match self.opt_sock_name()? {
            Some(n) => {
                tr.name(s, n)?;
            },
            None => {},
        }
        tr.source_nbytes(pro, s, self.retval as i64)?;
        Ok(())
    }

    fn posix_chdir(&self, pro: u64, tr: &mut PVMTransaction) -> (r: PVMResult<()>)
        requires
            old(tr).inv(),
            old(tr).next() + 64 <= ID_LIMIT,
        ensures
            final(tr).inv(),
            final(tr).next() <= old(tr).next() + 32,
            final(tr).keeps_fixed(old(tr)),
            self.arg_objuuid1.is_none() ==> missing(r, self, "arg_objuuid1"@) && *final(tr) == *old(tr),
    {
        let arg_objuuid1 = self.need_uuid(self.arg_objuuid1, "arg_objuuid1")?;
        let d = tr.declare(&file_type(), arg_objuuid1, None)?;
        match &self.upath1 {
            Some(dpath) => {
                tr.name(d, Name::Path(dpath.clone()))?;
            },
            None => {},
        }
        Ok(())
    }

    fn posix_chmod(&self, pro: u64, tr: &mut PVMTransaction) -> (r: PVMResult<()>)
        requires
            old(tr).inv(),
            old(tr).next() + 64 <= ID_LIMIT,
        ensures
            final(tr).inv(),
            final(tr).next() <= old(tr).next() + 32,
            final(tr).keeps_fixed(old(tr)),
            self.arg_objuuid1.is_none() ==> missing(r, self, "arg_objuuid1"@) && *final(tr) == *old(tr),
            self.arg_objuuid1.is_some() && self.upath1.is_none()
                ==> missing(r, self, "upath1"@) && *final(tr) == *old(tr),
            self.arg_objuuid1.is_some() && self.upath1.is_some() && self.mode.is_none()
                ==> missing(r, self, "mode"@) && *final(tr) == *old(tr),
    {
        let arg_objuuid1 = self.need_uuid(self.arg_objuuid1, "arg_objuuid1")?;
        let upath1 = self.need_str(&self.upath1, "upath1")?;
        let mode = self.need_u32(self.mode, "mode")?;
        let f = tr.declare(&file_type(), arg_objuuid1, None)?;
        let m = octal_text(mode);
        tr.meta(f, "mode", m.as_str())?;
        tr.name(f, Name::Path(upath1))?;
        tr.sink(pro, f)?;
        Ok(())
    }

    fn posix_chown(&self, pro: u64, tr: &mut PVMTransaction) -> (r: PVMResult<()>)
        requires
            old(tr).inv(),
            old(tr).next() + 64 <= ID_LIMIT,
        ensures
            final(tr).inv(),
            final(tr).next() <= old(tr).next() + 32,
            final(tr).keeps_fixed(old(tr)),
            self.arg_objuuid1.is_none() ==> missing(r, self, "arg_objuuid1"@) && *final(tr) == *old(tr),
            self.arg_objuuid1.is_some() && self.upath1.is_none()
                ==> missing(r, self, "upath1"@) && *final(tr) == *old(tr),
            self.arg_objuuid1.is_some() && self.upath1.is_some() && self.arg_uid.is_none()
                ==> missing(r, self, "arg_uid"@) && *final(tr) == *old(tr),
            self.arg_objuuid1.is_some() && self.upath1.is_some() && self.arg_uid.is_some() && self.arg_gid.is_none()
                ==> missing(r, self, "arg_gid"@) && *final(tr) == *old(tr),
    {
        let arg_objuuid1 = self.need_uuid(self.arg_objuuid1, "arg_objuuid1")?;
        let upath1 = self.need_str(&self.upath1, "upath1")?;
        let arg_uid = self.need_i64(self.arg_uid, "arg_uid")?;
        let arg_gid = self.need_i64(self.arg_gid, "arg_gid")?;
        let f = tr.declare(&file_type(), arg_objuuid1, None)?;
        let u = int_text(arg_uid);
        let g = int_text(arg_gid);
        tr.meta(f, "owner_uid", u.as_str())?;
        tr.meta(f, "owner_gid", g.as_str())?;
        tr.name(f, Name::Path(upath1))?;
        tr.sink(pro, f)?;
        Ok(())
    }

    fn posix_fchmod(&self, pro: u64, tr: &mut PVMTransaction) -> (r: PVMResult<()>)
        requires
            old(tr).inv(),
            old(tr).next() + 64 <= ID_LIMIT,
        ensures
            final(tr).inv(),
            final(tr).next() <= old(tr).next() + 32,
            final(tr).keeps_fixed(old(tr)),
            self.arg_objuuid1.is_none() ==> missing(r, self, "arg_objuuid1"@) && *final(tr) == *old(tr),
            self.arg_objuuid1.is_some() && self.mode.is_none()
                ==> missing(r, self, "mode"@) && *final(tr) == *old(tr),
    {
        let arg_objuuid1 = self.need_uuid(self.arg_objuuid1, "arg_objuuid1")?;
        let mode = self.need_u32(self.mode, "mode")?;
        let f = tr.declare(&file_type(), arg_objuuid1, None)?;
        let m = octal_text(mode);
        tr.meta(f, "mode", m.as_str())?;
        tr.sinkstart(pro, f)?;
        Ok(())
    }

    fn posix_fchown(&self, pro: u64, tr: &mut PVMTransaction) -> (r: PVMResult<()>)
        requires
            old(tr).inv(),
            old(tr).next() + 64 <= ID_LIMIT,
        ensures
            final(tr).inv(),
            final(tr).next() <= old(tr).next() + 32,
            final(tr).keeps_fixed(old(tr)),
            self.arg_objuuid1.is_none() ==> missing(r, self, "arg_objuuid1"@) && *final(tr) == *old(tr),
            self.arg_objuuid1.is_some() && self.arg_uid.is_none()
                ==> missing(r, self, "arg_uid"@) && *final(tr) == *old(tr),
            self.arg_objuuid1.is_some() && self.arg_uid.is_some() && self.arg_gid.is_none()
                ==> missing(r, self, "arg_gid"@) && *final(tr) == *old(tr),
    {
        let arg_objuuid1 = self.need_uuid(self.arg_objuuid1, "arg_objuuid1")?;
        let arg_uid = self.need_i64(self.arg_uid, "arg_uid")?;
        let arg_gid = self.need_i64(self.arg_gid, "arg_gid")?;
        let f = tr.declare(&file_type(), arg_objuuid1, None)?;
        let u = int_text(arg_uid);
        let g = int_text(arg_gid);
        tr.meta(f, "owner_uid", u.as_str())?;
        tr.meta(f, "owner_gid", g.as_str())?;
        tr.sinkstart(pro, f)?;
        Ok(())
    }

    fn posix_posix_openpt(&self, pro: u64, tr: &mut PVMTransaction) -> (r: PVMResult<()>)
        requires
            old(tr).inv(),
            old(tr).next() + 64 <= ID_LIMIT,
        ensures
            final(tr).inv(),
            final(tr).next() <= old(tr).next() + 32,
            final(tr).keeps_fixed(old(tr)),
            self.ret_objuuid1.is_none() ==> missing(r, self, "ret_objuuid1"@) && *final(tr) == *old(tr),
            self.ret_objuuid1.is_some() && declarable(old(tr), self.ret_objuuid1.unwrap(), "ptty"@) ==> r is Ok
                && final(tr).uuids().contains_key(self.ret_objuuid1.unwrap()),
    {
        let ret_objuuid1 = self.need_uuid(self.ret_objuuid1, "ret_objuuid1")?;
        tr.declare(&ptty_type(), ret_objuuid1, None)?;
        Ok(())
    }

    fn posix_link(&self, pro: u64, tr: &mut PVMTransaction) -> (r: PVMResult<()>)
        requires
            old(tr).inv(),
            old(tr).next() + 64 <= ID_LIMIT,
        ensures
            final(tr).inv(),
            final(tr).next() <= old(tr).next() + 32,
            final(tr).keeps_fixed(old(tr)),
            self.arg_objuuid1.is_none() ==> missing(r, self, "arg_objuuid1"@) && *final(tr) == *old(tr),
            self.arg_objuuid1.is_some() && self.upath1.is_none()
                ==> missing(r, self, "upath1"@) && *final(tr) == *old(tr),
            self.arg_objuuid1.is_some() && self.upath1.is_some() && self.upath2.is_none()
                ==> missing(r, self, "upath2"@) && *final(tr) == *old(tr),
            self.arg_objuuid1.is_some() && self.upath1.is_some() && self.upath2.is_some()
                && declarable(old(tr), self.arg_objuuid1.unwrap(), "file"@) ==> r is Ok,
            r is Ok ==> ({
                let f = final(tr).uuids()[self.arg_objuuid1.unwrap()];
                &&& final(tr).uuids().contains_key(self.arg_objuuid1.unwrap())
                &&& final(tr).naming_of(f, Name::Path(self.upath1.unwrap())).is_some()
                &&& final(tr).naming_of(f, Name::Path(self.upath2.unwrap())).is_some()
            }),
    {
        let arg_objuuid1 = self.need_uuid(self.arg_objuuid1, "arg_objuuid1")?;
        let upath1 = self.need_str(&self.upath1, "upath1")?;
        let upath2 = self.need_str(&self.upath2, "upath2")?;
        let ghost p1 = Name::Path(upath1);
        let f = tr.declare(&file_type(), arg_objuuid1, None)?;
        tr.name(f, Name::Path(upath1))?;
        let ghost t1 = *tr;
        tr.name(f, Name::Path(upath2))?;
        proof {
            lemma_naming_stable(t1, *tr, f, p1);
        }
        Ok(())
    }

    fn posix_rename(&self, pro: u64, tr: &mut PVMTransaction) -> (r: PVMResult<()>)
        requires
            old(tr).inv(),
            old(tr).next() + 64 <= ID_LIMIT,
        ensures
            final(tr).inv(),
            final(tr).next() <= old(tr).next() + 32,
            final(tr).keeps_fixed(old(tr)),
            self.arg_objuuid1.is_none() ==> missing(r, self, "arg_objuuid1"@) && *final(tr) == *old(tr),
            self.arg_objuuid1.is_some() && self.upath1.is_none()
                ==> missing(r, self, "upath1"@) && *final(tr) == *old(tr),
            self.arg_objuuid1.is_some() && self.upath1.is_some() && self.upath2.is_none()
                ==> missing(r, self, "upath2"@) && *final(tr) == *old(tr),
            self.arg_objuuid1.is_some() && self.upath1.is_some() && self.upath2.is_some()
                && declarable(old(tr), self.arg_objuuid1.unwrap(), "file"@)
                && (self.arg_objuuid2.is_none() || declarable(old(tr), self.arg_objuuid2.unwrap(), "file"@)) ==> r is Ok,
            r is Ok ==> ({
                let fa = final(tr).uuids()[self.arg_objuuid1.unwrap()];
                let p1 = Name::Path(self.upath1.unwrap());
                let p2 = Name::Path(self.upath2.unwrap());
                &&& final(tr).uuids().contains_key(self.arg_objuuid1.unwrap())
                &&& final(tr).naming_of(fa, p1) matches Some(e) && final(tr).rels()[e]->Named_0.end == old(tr).ctx
                &&& self.arg_objuuid2.is_some() ==> (final(tr).naming_of(final(tr).uuids()[self.arg_objuuid2.unwrap()], p2)
                    matches Some(e) && final(tr).rels()[e]->Named_0.end == old(tr).ctx)
                &&& final(tr).naming_of(fa, p2).is_some()
            }),
    {
        let arg_objuuid1 = self.need_uuid(self.arg_objuuid1, "arg_objuuid1")?;
        let upath1 = self.need_str(&self.upath1, "upath1")?;
        let upath2 = self.need_str(&self.upath2, "upath2")?;
        let ghost p1 = Name::Path(upath1);
        let ghost p2 = Name::Path(upath2);
        let fsrc = tr.declare(&file_type(), arg_objuuid1, None)?;
        let e1 = tr.unname(fsrc, Name::Path(upath1))?;
        let ghost t1 = *tr;
        proof {
            assert(t1.naming_of(fsrc, p1) == Some(e1));
        }
        match self.arg_objuuid2 {
            Some(ovr_uuid) => {
                let fovr = tr.declare(&file_type(), ovr_uuid, None)?;
                let ghost t2 = *tr;
                proof {
                    assert(t2.names().take(t1.names().len() as int) =~= t1.names());
                    lemma_naming_stable(t1, t2, fsrc, p1);
                    assert(tr.uuids()[arg_objuuid1] == fsrc);
                }
                let e2 = tr.unname(fovr, Name::Path(upath2.clone()))?;
                let ghost t3 = *tr;
                proof {
                    lemma_naming_stable(t2, t3, fsrc, p1);
                    assert(t3.naming_of(fovr, p2) == Some(e2));
                    if e1 != e2 {
                        assert(t2.rels().contains_key(e1));
                        assert(t3.rels()[e1] == t2.rels()[e1]);
                    }
                }
            },
            None => {},
        }
        let ghost t4 = *tr;
        let e3 = tr.name(fsrc, Name::Path(upath2))?;
        proof {
            lemma_naming_stable(t4, *tr, fsrc, p1);
            assert(t4.rels().contains_key(e1));
            assert(t4.rels().dom().contains(e1));
            assert(tr.rels().dom().contains(e1) || !tr.rels().dom().contains(e1));
            if self.arg_objuuid2.is_some() {
                let fovr = t4.uuids()[self.arg_objuuid2.unwrap()];
                lemma_naming_stable(t4, *tr, fovr, p2);
                let e2 = t4.naming_of(fovr, p2).unwrap();
                assert(t4.rels().contains_key(e2));
                assert(tr.rels().dom().contains(e2) || !tr.rels().dom().contains(e2));
            }
            assert(tr.naming_of(fsrc, p2) == Some(e3));
        }
        Ok(())
    }

    fn posix_unlink(&self, pro: u64, tr: &mut PVMTransaction) -> (r: PVMResult<()>)
        requires
            old(tr).inv(),
            old(tr).next() + 64 <= ID_LIMIT,
        ensures
            final(tr).inv(),
            final(tr).next() <= old(tr).next() + 32,
            final(tr).keeps_fixed(old(tr)),
            self.arg_objuuid1.is_none() ==> missing(r, self, "arg_objuuid1"@) && *final(tr) == *old(tr),
            self.arg_objuuid1.is_some() && self.upath1.is_none()
                ==> missing(r, self, "upath1"@) && *final(tr) == *old(tr),
            self.arg_objuuid1.is_some() && self.upath1.is_some() && declarable(old(tr), self.arg_objuuid1.unwrap(), "file"@)
                ==> r is Ok,
            r is Ok ==> ({
                let f = final(tr).uuids()[self.arg_objuuid1.unwrap()];
                final(tr).uuids().contains_key(self.arg_objuuid1.unwrap())
                    && (final(tr).naming_of(f, Name::Path(self.upath1.unwrap())) matches Some(e)
                        && final(tr).rels()[e]->Named_0.end == old(tr).ctx)
            }),
    {
        let arg_objuuid1 = self.need_uuid(self.arg_objuuid1, "arg_objuuid1")?;
        let upath1 = self.need_str(&self.upath1, "upath1")?;
        let f = tr.declare(&file_type(), arg_objuuid1, None)?;
        tr.unname(f, Name::Path(upath1))?;
        Ok(())
    }

    fn posix_setuid(&self, pro: u64, tr: &mut PVMTransaction) -> (r: PVMResult<()>)
        requires
            old(tr).inv(),
            old(tr).next() + 64 <= ID_LIMIT,
        ensures
            final(tr).inv(),
            final(tr).next() <= old(tr).next() + 32,
            final(tr).keeps_fixed(old(tr)),
            self.arg_uid.is_none() ==> missing(r, self, "arg_uid"@) && *final(tr) == *old(tr),
    {
        let arg_uid = self.need_i64(self.arg_uid, "arg_uid")?;
        let v = int_text(arg_uid);
        tr.meta(pro, "euid", v.as_str())?;
        tr.meta(pro, "ruid", v.as_str())?;
        tr.meta(pro, "suid", v.as_str())?;
        Ok(())
    }

    fn posix_seteuid(&self, pro: u64, tr: &mut PVMTransaction) -> (r: PVMResult<()>)
        requires
            old(tr).inv(),
            old(tr).next() + 64 <= ID_LIMIT,
        ensures
            final(tr).inv(),
            final(tr).next() <= old(tr).next() + 32,
            final(tr).keeps_fixed(old(tr)),
            self.arg_euid.is_none() ==> missing(r, self, "arg_euid"@) && *final(tr) == *old(tr),
    {
        let arg_euid = self.need_i64(self.arg_euid, "arg_euid")?;
        let v = int_text(arg_euid);
        tr.meta(pro, "euid", v.as_str())?;
        Ok(())
    }

    fn posix_setgid(&self, pro: u64, tr: &mut PVMTransaction) -> (r: PVMResult<()>)
        requires
            old(tr).inv(),
            old(tr).next() + 64 <= ID_LIMIT,
        ensures
            final(tr).inv(),
            final(tr).next() <= old(tr).next() + 32,
            final(tr).keeps_fixed(old(tr)),
            self.arg_gid.is_none() ==> missing(r, self, "arg_gid"@) && *final(tr) == *old(tr),
    {
        let arg_gid = self.need_i64(self.arg_gid, "arg_gid")?;
        let v = int_text(arg_gid);
        tr.meta(pro, "egid", v.as_str())?;
        tr.meta(pro, "rgid", v.as_str())?;
        tr.meta(pro, "sgid", v.as_str())?;
        Ok(())
    }

    fn posix_setegid(&self, pro: u64, tr: &mut PVMTransaction) -> (r: PVMResult<()>)
        requires
            old(tr).inv(),
            old(tr).next() + 64 <= ID_LIMIT,
        ensures
            final(tr).inv(),
            final(tr).next() <= old(tr).next() + 32,
            final(tr).keeps_fixed(old(tr)),
            self.arg_egid.is_none() ==> missing(r, self, "arg_egid"@) && *final(tr) == *old(tr),
    {
        let arg_egid = self.need_i64(self.arg_egid, "arg_egid")?;
        let v = int_text(arg_egid);
        tr.meta(pro, "egid", v.as_str())?;
        Ok(())
    }

    fn posix_setreuid(&self, pro: u64, tr: &mut PVMTransaction) -> (r: PVMResult<()>)
        requires
            old(tr).inv(),
            old(tr).next() + 64 <= ID_LIMIT,
        ensures
            final(tr).inv(),
            final(tr).next() <= old(tr).next() + 32,
            final(tr).keeps_fixed(old(tr)),
            self.arg_ruid.is_none() ==> missing(r, self, "arg_ruid"@) && *final(tr) == *old(tr),
            self.arg_ruid.is_some() && self.arg_euid.is_none()
                ==> missing(r, self, "arg_euid"@) && *final(tr) == *old(tr),
    {
        let arg_ruid = self.need_i64(self.arg_ruid, "arg_ruid")?;
        let arg_euid = self.need_i64(self.arg_euid, "arg_euid")?;
        if arg_ruid != -1 {
            let v = int_text(arg_ruid);
            tr.meta(pro, "ruid", v.as_str())?;
        }
        if arg_euid != -1 {
            let v = int_text(arg_euid);
            tr.meta(pro, "euid", v.as_str())?;
        }
        Ok(())
    }

    fn posix_setregid(&self, pro: u64, tr: &mut PVMTransaction) -> (r: PVMResult<()>)
        requires
            old(tr).inv(),
            old(tr).next() + 64 <= ID_LIMIT,
        ensures
            final(tr).inv(),
            final(tr).next() <= old(tr).next() + 32,
            final(tr).keeps_fixed(old(tr)),
            self.arg_rgid.is_none() ==> missing(r, self, "arg_rgid"@) && *final(tr) == *old(tr),
            self.arg_rgid.is_some() && self.arg_egid.is_none()
                ==> missing(r, self, "arg_egid"@) && *final(tr) == *old(tr),
    {
        let arg_rgid = self.need_i64(self.arg_rgid, "arg_rgid")?;
        let arg_egid = self.need_i64(self.arg_egid, "arg_egid")?;
        if arg_rgid != -1 {
            let v = int_text(arg_rgid);
            tr.meta(pro, "rgid", v.as_str())?;
        }
        if arg_egid != -1 {
            let v = int_text(arg_egid);
            tr.meta(pro, "egid", v.as_str())?;
        }
        Ok(())
    }

    fn posix_setresuid(&self, pro: u64, tr: &mut PVMTransaction) -> (r: PVMResult<()>)
        requires
            old(tr).inv(),
            old(tr).next() + 64 <= ID_LIMIT,
        ensures
            final(tr).inv(),
            final(tr).next() <= old(tr).next() + 32,
            final(tr).keeps_fixed(old(tr)),
            self.arg_ruid.is_none() ==> missing(r, self, "arg_ruid"@) && *final(tr) == *old(tr),
            self.arg_ruid.is_some() && self.arg_euid.is_none()
                ==> missing(r, self, "arg_euid"@) && *final(tr) == *old(tr),
            self.arg_ruid.is_some() && self.arg_euid.is_some() && self.arg_suid.is_none()
                ==> missing(r, self, "arg_suid"@) && *final(tr) == *old(tr),
    {
        let arg_ruid = self.need_i64(self.arg_ruid, "arg_ruid")?;
        let arg_euid = self.need_i64(self.arg_euid, "arg_euid")?;
        let arg_suid = self.need_i64(self.arg_suid, "arg_suid")?;
        if arg_ruid != -1 {
            let v = int_text(arg_ruid);
            tr.meta(pro, "ruid", v.as_str())?;
        }
        if arg_euid != -1 {
            let v = int_text(arg_euid);
            tr.meta(pro, "euid", v.as_str())?;
        }
        if arg_suid != -1 {
            let v = int_text(arg_suid);
            tr.meta(pro, "suid", v.as_str())?;
        }
        Ok(())
    }

    fn posix_setresgid(&self, pro: u64, tr: &mut PVMTransaction) -> (r: PVMResult<()>)
        requires
            old(tr).inv(),
            old(tr).next() + 64 <= ID_LIMIT,
        ensures
            final(tr).inv(),
            final(tr).next() <= old(tr).next() + 32,
            final(tr).keeps_fixed(old(tr)),
            self.arg_rgid.is_none() ==> missing(r, self, "arg_rgid"@) && *final(tr) == *old(tr),
            self.arg_rgid.is_some() && self.arg_egid.is_none()
                ==> missing(r, self, "arg_egid"@) && *final(tr) == *old(tr),
            self.arg_rgid.is_some() && self.arg_egid.is_some() && self.arg_sgid.is_none()
                ==> missing(r, self, "arg_sgid"@) && *final(tr) == *old(tr),
    {
        let arg_rgid = self.need_i64(self.arg_rgid, "arg_rgid")?;
        let arg_egid = self.need_i64(self.arg_egid, "arg_egid")?;
        let arg_sgid = self.need_i64(self.arg_sgid, "arg_sgid")?;
        if arg_rgid != -1 {
            let v = int_text(arg_rgid);
            tr.meta(pro, "rgid", v.as_str())?;
        }
        if arg_egid != -1 {
            let v = int_text(arg_egid);
            tr.meta(pro, "egid", v.as_str())?;
        }
        if arg_sgid != -1 {
            let v = int_text(arg_sgid);
            tr.meta(pro, "sgid", v.as_str())?;
        }
        Ok(())
    }

    fn posix_setlogin(&self, pro: u64, tr: &mut PVMTransaction) -> (r: PVMResult<()>)
        requires
            old(tr).inv(),
            old(tr).next() + 64 <= ID_LIMIT,
        ensures
            final(tr).inv(),
            final(tr).next() <= old(tr).next() + 32,
            final(tr).keeps_fixed(old(tr)),
            self.login.is_none() ==> missing(r, self, "login"@) && *final(tr) == *old(tr),
    {
        let login = self.need_str(&self.login, "login")?;
        tr.meta(pro, "login_name", login.as_str())?;
        Ok(())
    }

    /// Applies the handler `h` to the transaction, for process node `pro`.
    fn dispatch(&self, h: Handler, pro: u64, tr: &mut PVMTransaction) -> (r: PVMResult<()>)
        requires
            old(tr).inv(),
            old(tr).next() + 64 <= ID_LIMIT,
        ensures
            final(tr).inv(),
            final(tr).next() <= old(tr).next() + 32,
            final(tr).keeps_fixed(old(tr)),
            h == Handler::Ignore || h == Handler::Unparsed ==> r is Ok && *final(tr) == *old(tr),
            h == Handler::Exit ==> r is Ok && !final(tr).uuids().contains_key(self.subjprocuuid),
            (h == Handler::Socketpair || h == Handler::Pipe) && r is Ok ==> ({
                let u1 = self.ret_objuuid1.unwrap();
                let u2 = self.ret_objuuid2.unwrap();
                &&& final(tr).uuids().contains_key(u1)
                &&& final(tr).uuids().contains_key(u2)
                &&& final(tr).has_inf(PVMOps::Connect, final(tr).uuids()[u1], final(tr).uuids()[u2])
                &&& final(tr).has_inf(PVMOps::Connect, final(tr).uuids()[u2], final(tr).uuids()[u1])
            }),
            h == Handler::Fork && r is Ok ==> ({
                let u = self.ret_objuuid1.unwrap();
                &&& final(tr).uuids().contains_key(u)
                &&& final(tr).has_inf(PVMOps::Version, pro, final(tr).uuids()[u])
                &&& final(tr).has_inf(PVMOps::Source, pro, final(tr).uuids()[u])
            }),
            h == Handler::Fork ==> ({
                let u = self.ret_objuuid1.unwrap();
                let ty = old(tr).pvm.type_cache@[old(tr).nodes()[pro].ty as int];
                self.ret_objuuid1.is_some() && !old(tr).uuids().contains_key(u) && old(tr).nodes().contains_key(pro)
                    && ty.pvm_ty == PVMDataType::Actor && heritable_of(ty.props@, "pid"@).is_some() ==> r is Ok
            }),
            h == Handler::Read ==> ({
                let u = self.arg_objuuid1.unwrap();
                self.arg_objuuid1.is_some() && old(tr).is_live(pro, PVMDataType::Actor) && declarable(old(tr), u, "file"@)
                    ==> r is Ok && final(tr).uuids().contains_key(u)
                        && final(tr).has_inf(PVMOps::Source, final(tr).uuids()[u], pro)
            }),
            h == Handler::Write ==> ({
                let u = self.arg_objuuid1.unwrap();
                self.arg_objuuid1.is_some() && old(tr).is_live(pro, PVMDataType::Actor) && declarable(old(tr), u, "file"@)
                    ==> r is Ok && final(tr).uuids().contains_key(u)
                        && final(tr).has_inf(PVMOps::Sink, pro, final(tr).uuids()[u])
            }),
            h == Handler::Mmap ==> ({
                let u = self.arg_objuuid1.unwrap();
                self.arg_objuuid1.is_some() && old(tr).is_live(pro, PVMDataType::Actor) && declarable(old(tr), u, "file"@)
                    ==> r is Ok
            }),
            h == Handler::Close ==> ({
                let u = self.arg_objuuid1.unwrap();
                &&& self.arg_objuuid1.is_some() && old(tr).is_live(pro, PVMDataType::Actor) && declarable(old(tr), u, "file"@)
                    ==> r is Ok
                &&& self.arg_objuuid1.is_none() ==> r is Ok
                &&& old(tr).rels().submap_of(final(tr).rels())
                &&& forall|g: u128| self.arg_objuuid1 != Some(g) && #[trigger] old(tr).uuids().contains_key(g)
                    ==> final(tr).nodes()[final(tr).uuids()[g]] == old(tr).nodes()[old(tr).uuids()[g]]
                &&& forall|g: u128| self.arg_objuuid1 != Some(g) ==> {
                    &&& #[trigger] final(tr).uuids().contains_key(g) == old(tr).uuids().contains_key(g)
                    &&& final(tr).uuids()[g] == old(tr).uuids()[g]
                    &&& final(tr).opens().contains_key(g) == old(tr).opens().contains_key(g)
                    &&& final(tr).opens()[g] == old(tr).opens()[g]
                }
            }),
            h == Handler::Open ==> ({
                let u = self.ret_objuuid1.unwrap();
                self.ret_objuuid1.is_none() || (self.upath1.is_some() && declarable(old(tr), u, "file"@)) ==> r is Ok
            }),
            h == Handler::Chmod && self.arg_objuuid1.is_some() && self.upath1.is_none() ==> missing(r, self, "upath1"@),
            h == Handler::Socketpair && self.ret_objuuid1.is_some() && self.ret_objuuid2.is_some()
                && !old(tr).uuids().contains_key(self.ret_objuuid1.unwrap())
                && !old(tr).uuids().contains_key(self.ret_objuuid2.unwrap())
                && type_index(old(tr).pvm.type_cache@, "socket"@).is_some() ==> r is Ok,
            h == Handler::Pipe && self.ret_objuuid1.is_some() && self.ret_objuuid2.is_some()
                && !old(tr).uuids().contains_key(self.ret_objuuid1.unwrap())
                && !old(tr).uuids().contains_key(self.ret_objuuid2.unwrap())
                && type_index(old(tr).pvm.type_cache@, "pipe"@).is_some() ==> r is Ok,
            h == Handler::Rename && self.arg_objuuid1.is_some() && self.upath1.is_some() && self.upath2.is_some()
                && declarable(old(tr), self.arg_objuuid1.unwrap(), "file"@)
                && (self.arg_objuuid2.is_none() || declarable(old(tr), self.arg_objuuid2.unwrap(), "file"@)) ==> r is Ok,
    {
        match h {
            Handler::Accept => self.posix_accept(pro, tr),
            Handler::Bind => self.posix_bind(pro, tr),
            Handler::Chdir => self.posix_chdir(pro, tr),
            Handler::Chmod => self.posix_chmod(pro, tr),
            Handler::Chown => self.posix_chown(pro, tr),
            Handler::Close => self.posix_close(pro, tr),
            Handler::Connect => self.posix_connect(pro, tr),
            Handler::Exec => self.posix_exec(pro, tr),
            Handler::Exit => self.posix_exit(pro, tr),
            Handler::Fork => self.posix_fork(pro, tr),
            Handler::Fchmod => self.posix_fchmod(pro, tr),
            Handler::Fchown => self.posix_fchown(pro, tr),
            Handler::Link => self.posix_link(pro, tr),
            Handler::Listen => self.posix_listen(pro, tr),
            Handler::Mmap => self.posix_mmap(pro, tr),
            Handler::Open => self.posix_open(pro, tr),
            Handler::Pipe => self.posix_pipe(pro, tr),
            Handler::PosixOpenpt => self.posix_posix_openpt(pro, tr),
            Handler::Read => self.posix_read(pro, tr),
            Handler::Recvmsg => self.posix_recvmsg(pro, tr),
            Handler::Recvfrom => self.posix_recvfrom(pro, tr),
            Handler::Rename => self.posix_rename(pro, tr),
            Handler::Sendmsg => self.posix_sendmsg(pro, tr),
            Handler::Sendto => self.posix_sendto(pro, tr),
            Handler::Setegid => self.posix_setegid(pro, tr),
            Handler::Seteuid => self.posix_seteuid(pro, tr),
            Handler::Setlogin => self.posix_setlogin(pro, tr),
            Handler::Setgid => self.posix_setgid(pro, tr),
            Handler::Setregid => self.posix_setregid(pro, tr),
            Handler::Setresgid => self.posix_setresgid(pro, tr),
            Handler::Setresuid => self.posix_setresuid(pro, tr),
            Handler::Setreuid => self.posix_setreuid(pro, tr),
            Handler::Setuid => self.posix_setuid(pro, tr),
            Handler::Socket => self.posix_socket(pro, tr),
            Handler::Socketpair => self.posix_socketpair(pro, tr),
            Handler::Unlink => self.posix_unlink(pro, tr),
            Handler::Write => self.posix_write(pro, tr),
            Handler::Ignore => Ok(()),
            Handler::Unparsed => Ok(()),
        }
    }
}

/// A UUID carried over to host `host`'s namespace.
pub open spec fn rehost(host: u128, u: Option<u128>) -> Option<u128> {
    match u {
        Some(x) => Some(v5_of(host, x)),
        None => None,
    }
}

fn rehost_opt(host: u128, u: Option<u128>) -> (r: Option<u128>)
    ensures
        r == rehost(host, u),
{
    match u {
        Some(x) => Some(uuid_v5(host, x)),
        None => None,
    }
}

impl AuditEvent {
    /// The subject process can stand as the record's actor: it is unknown
    /// (and the process type is registered) or its current node is an actor.
    pub open spec fn subject_ok(&self, p: &PVM) -> bool {
        let s = self.subjprocuuid;
        if p.uuid_cache@.contains_key(s) {
            p.node_cache@[p.uuid_cache@[s]].pvm_ty == PVMDataType::Actor
        } else {
            type_index(p.type_cache@, "process"@).is_some()
        }
    }

    /// `u` is known in `p`, or a type called `ty` is registered.
    pub open spec fn known_or_typed(p: &PVM, u: u128, ty: Seq<char>) -> bool {
        p.uuid_cache@.contains_key(u) || type_index(p.type_cache@, ty).is_some()
    }

    /// What applying the record, the subject declared, does to graph `o`
    /// (giving graph `t` and result `r`), for the handlers whose effect the
    /// library states.
    #[verifier::opaque]
    pub open spec fn ran(&self, o: &PVM, t: &PVM, r: PVMResult<()>) -> bool {
        let h = handler_spec(self.event@);
        let s = self.subjprocuuid;
        let a1 = self.arg_objuuid1.unwrap();
        let r1 = self.ret_objuuid1.unwrap();
        let r2 = self.ret_objuuid2.unwrap();
        let ready = Self::known_or_typed(o, s, "process"@);
        &&& (h == Handler::Ignore || h == Handler::Unparsed || h == Handler::Exit) && ready ==> r is Ok
        &&& h == Handler::Exit && r is Ok ==> !t.uuid_cache@.contains_key(s)
        &&& h == Handler::Read && self.subject_ok(o) && self.arg_objuuid1.is_some() && Self::known_or_typed(o, a1, "file"@)
            ==> r is Ok && t.uuid_cache@.contains_key(a1) && exists|p: u64| t.links(PVMOps::Source, t.uuid_cache@[a1], p)
        &&& h == Handler::Write && self.subject_ok(o) && self.arg_objuuid1.is_some() && Self::known_or_typed(o, a1, "file"@)
            ==> r is Ok && t.uuid_cache@.contains_key(a1) && exists|p: u64| t.links(PVMOps::Sink, p, t.uuid_cache@[a1])
        &&& h == Handler::Mmap && self.subject_ok(o) && self.arg_objuuid1.is_some() && Self::known_or_typed(o, a1, "file"@)
            ==> r is Ok
        &&& h == Handler::Close && self.subject_ok(o) && (self.arg_objuuid1.is_none() || Self::known_or_typed(o, a1, "file"@))
            ==> r is Ok
        &&& h == Handler::Close ==> o.rel_cache@.submap_of(t.rel_cache@)
        &&& h == Handler::Close ==> forall|g: u128| self.arg_objuuid1 != Some(g) && g != s && #[trigger] o.uuid_cache@.contains_key(g)
            ==> t.node_cache@[t.uuid_cache@[g]] == o.node_cache@[o.uuid_cache@[g]]
        &&& h == Handler::Close ==> forall|g: u128| self.arg_objuuid1 != Some(g) && g != s ==> {
            &&& #[trigger] t.uuid_cache@.contains_key(g) == o.uuid_cache@.contains_key(g)
            &&& t.uuid_cache@[g] == o.uuid_cache@[g]
            &&& t.open_cache@.contains_key(g) == o.open_cache@.contains_key(g)
            &&& t.open_cache@[g] == o.open_cache@[g]
        }
        &&& h == Handler::Open && ready && (self.ret_objuuid1.is_none() || (self.upath1.is_some()
            && Self::known_or_typed(o, r1, "file"@))) ==> r is Ok
        &&& h == Handler::Fork && !o.uuid_cache@.contains_key(s) && self.ret_objuuid1.is_some()
            && !o.uuid_cache@.contains_key(r1) && r1 != s && type_index(o.type_cache@, "process"@).is_some()
            && o.type_cache@[type_index(o.type_cache@, "process"@).unwrap()].pvm_ty == PVMDataType::Actor
            && heritable_of(o.type_cache@[type_index(o.type_cache@, "process"@).unwrap()].props@, "pid"@).is_some()
            ==> r is Ok
        &&& h == Handler::Fork && r is Ok ==> t.uuid_cache@.contains_key(r1) && exists|p: u64|
            t.links(PVMOps::Version, p, t.uuid_cache@[r1]) && t.links(PVMOps::Source, p, t.uuid_cache@[r1])
        &&& (h == Handler::Socketpair || h == Handler::Pipe) && r is Ok ==> {
            &&& t.uuid_cache@.contains_key(r1)
            &&& t.uuid_cache@.contains_key(r2)
            &&& t.links(PVMOps::Connect, t.uuid_cache@[r1], t.uuid_cache@[r2])
            &&& t.links(PVMOps::Connect, t.uuid_cache@[r2], t.uuid_cache@[r1])
        }
        &&& h == Handler::Chmod && ready && self.arg_objuuid1.is_some() && self.upath1.is_none() ==> missing(r, self, "upath1"@)
        &&& h == Handler::Socketpair && ready && self.ret_objuuid1.is_some() && self.ret_objuuid2.is_some() && r1 != s && r2 != s
            && !o.uuid_cache@.contains_key(r1) && !o.uuid_cache@.contains_key(r2)
            && type_index(o.type_cache@, "socket"@).is_some() ==> r is Ok
        &&& h == Handler::Pipe && ready && self.ret_objuuid1.is_some() && self.ret_objuuid2.is_some() && r1 != s && r2 != s
            && !o.uuid_cache@.contains_key(r1) && !o.uuid_cache@.contains_key(r2)
            && type_index(o.type_cache@, "pipe"@).is_some() ==> r is Ok
        &&& h == Handler::Rename && ready && self.arg_objuuid1.is_some() && self.upath1.is_some() && self.upath2.is_some()
            && Self::known_or_typed(o, a1, "file"@)
            && (self.arg_objuuid2.is_none() || Self::known_or_typed(o, self.arg_objuuid2.unwrap(), "file"@)) ==> r is Ok
    }

    /// `ran` depends on the graphs' indices alone; after a failure the graph
    /// left unchanged satisfies it too.
    proof fn lemma_ran_views(&self, o1: &PVM, t1: &PVM, o2: &PVM, t2: &PVM, r: PVMResult<()>)
        requires
            self.ran(o1, t1, r),
            same_views(o1, o2),
            same_views(t1, t2) || (r is Err && same_views(o1, t2)),
        ensures
            self.ran(o2, t2, r),
    {
        reveal(AuditEvent::ran);
        if same_views(t1, t2) {
            assert forall|op: PVMOps, s: u64, d: u64| #[trigger] t2.links(op, s, d) == t1.links(op, s, d) by {}
            let a1 = self.arg_objuuid1.unwrap();
            let r1 = self.ret_objuuid1.unwrap();
            if exists|p: u64| t1.links(PVMOps::Source, t1.uuid_cache@[a1], p) {
                let p = choose|p: u64| t1.links(PVMOps::Source, t1.uuid_cache@[a1], p);
                assert(t2.links(PVMOps::Source, t2.uuid_cache@[a1], p));
            }
            if exists|p: u64| t1.links(PVMOps::Sink, p, t1.uuid_cache@[a1]) {
                let p = choose|p: u64| t1.links(PVMOps::Sink, p, t1.uuid_cache@[a1]);
                assert(t2.links(PVMOps::Sink, p, t2.uuid_cache@[a1]));
            }
            if exists|p: u64| t1.links(PVMOps::Version, p, t1.uuid_cache@[r1]) && t1.links(PVMOps::Source, p, t1.uuid_cache@[r1]) {
                let p = choose|p: u64| t1.links(PVMOps::Version, p, t1.uuid_cache@[r1]) && t1.links(PVMOps::Source, p, t1.uuid_cache@[r1]);
                assert(t2.links(PVMOps::Version, p, t2.uuid_cache@[r1]));
                assert(t2.links(PVMOps::Source, p, t2.uuid_cache@[r1]));
            }
        }
    }

    /// Declares the record's subject process and applies its handler.
    fn run(&self, h: Handler, tr: &mut PVMTransaction) -> (r: PVMResult<()>)
        requires
            old(tr).inv(),
            old(tr).next() + 128 <= ID_LIMIT,
            h == handler_spec(self.event@),
        ensures
            final(tr).inv(),
            final(tr).next() <= old(tr).next() + 64,
            final(tr).keeps_fixed(old(tr)),
            self.ran(&old(tr).pvm, &final(tr).pvm, r),
            (h == Handler::Ignore || h == Handler::Unparsed) && old(tr).uuids().contains_key(self.subjprocuuid)
                ==> r is Ok && *final(tr) == *old(tr),
    {
        reveal(AuditEvent::ran);
        let init = vec![("cmdline".to_owned(), self.exec_name.clone()), ("pid".to_owned(), int_text(self.pid as i64))];
        let ghost t0 = *tr;
        let pro = tr.declare(&process_type(), self.subjprocuuid, Some(init))?;
        proof {
            assert(tr.pvm.node_cache@.contains_key(pro));
            if t0.uuids().contains_key(self.subjprocuuid) {
                assert(tr.nodes()[pro] == t0.nodes()[t0.uuids()[self.subjprocuuid]]);
            }
            assert forall|g: u128| g != self.subjprocuuid implies
                #[trigger] tr.uuids().contains_key(g) == t0.uuids().contains_key(g) && tr.uuids()[g] == t0.uuids()[g] by {}
        }
        let ghost t1 = *tr;
        let r = self.dispatch(h, pro, tr);
        proof {
            if h == Handler::Close {
                assert forall|g: u128| self.arg_objuuid1 != Some(g) && g != self.subjprocuuid implies {
                    &&& #[trigger] tr.pvm.uuid_cache@.contains_key(g) == t0.pvm.uuid_cache@.contains_key(g)
                    &&& tr.pvm.uuid_cache@[g] == t0.pvm.uuid_cache@[g]
                    &&& tr.pvm.open_cache@.contains_key(g) == t0.pvm.open_cache@.contains_key(g)
                    &&& tr.pvm.open_cache@[g] == t0.pvm.open_cache@[g]
                } by {
                    assert(tr.uuids().contains_key(g) == t1.uuids().contains_key(g));
                    assert(t1.uuids().contains_key(g) == t0.uuids().contains_key(g));
                    assert(tr.opens().contains_key(g) == t1.opens().contains_key(g));
                }
                assert forall|g: u128| self.arg_objuuid1 != Some(g) && g != self.subjprocuuid
                    && #[trigger] t0.pvm.uuid_cache@.contains_key(g)
                    implies tr.pvm.node_cache@[tr.pvm.uuid_cache@[g]] == t0.pvm.node_cache@[t0.pvm.uuid_cache@[g]] by {
                    assert(t1.uuids().contains_key(g));
                    assert(t1.uuids()[g] == t0.uuids()[g]);
                    assert(t0.pvm.node_cache@.contains_key(t0.uuids()[g]));
                    assert(t1.nodes()[t1.uuids()[g]] == t0.nodes()[t0.uuids()[g]]);
                }
            }
            if h == Handler::Fork && r is Ok {
                let u = self.ret_objuuid1.unwrap();
                assert(tr.pvm.links(PVMOps::Version, pro, tr.uuids()[u]));
            }
            if h == Handler::Read && r is Ok && self.subject_ok(&t0.pvm) && self.arg_objuuid1.is_some()
                && Self::known_or_typed(&t0.pvm, self.arg_objuuid1.unwrap(), "file"@) {
                assert(tr.pvm.links(PVMOps::Source, tr.uuids()[self.arg_objuuid1.unwrap()], pro));
            }
            if h == Handler::Write && r is Ok && self.subject_ok(&t0.pvm) && self.arg_objuuid1.is_some()
                && Self::known_or_typed(&t0.pvm, self.arg_objuuid1.unwrap(), "file"@) {
                assert(tr.pvm.links(PVMOps::Sink, pro, tr.uuids()[self.arg_objuuid1.unwrap()]));
            }
        }
        r
    }

    /// `c` is the context node of this record: its event, host, time and,
    /// where known, trace offset.
    pub open spec fn describes(&self, c: CtxNode) -> bool {
        let n = c.cont@;
        &&& c.ty_name@ == "cadets_context"@
        &&& n.len() == (if self.offset.is_some() { 4int } else { 3int })
        &&& n[0].0@ == "event"@ && n[0].1@ == self.event@
        &&& n[1].0@ == "host"@ && n[1].1@ == hyphenated_of(self.host.unwrap())
        &&& n[2].0@ == "time"@ && n[2].1@ == rfc3339_of(self.time)
        &&& self.offset.is_some() ==> n[3].0@ == "trace_offset"@ && n[3].1@ == decimal_of(self.offset.unwrap() as int)
    }

    /// What applying the record to graph `pvm` gives: graph `r.0`, result `r.1`.
    pub open spec fn parsed(&self, pvm: PVM, r: (PVM, PVMResult<()>)) -> bool {
        let old_len = pvm.db.events@.len();
        let ev = r.0.db.events@;
        let ready = self.host.is_some()
            && exists|i: int| 0 <= i < pvm.ctx_type_cache@.len() && pvm.ctx_type_cache@[i].name@ == "cadets_context"@;
        let h = handler_spec(self.event@);
        &&& r.0.wf()
        &&& r.0.type_cache@ == pvm.type_cache@
        &&& self.host.is_none() ==> missing(r.1, self, "host"@) && r.0 == pvm
        &&& r.1 is Err ==> {
            &&& r.0.uuid_cache@ == pvm.uuid_cache@
            &&& r.0.node_cache@ == pvm.node_cache@
            &&& r.0.rel_cache@ == pvm.rel_cache@
            &&& r.0.inf_index@ == pvm.inf_index@
            &&& r.0.named_index@ == pvm.named_index@
            &&& r.0.open_cache@ == pvm.open_cache@
            &&& r.0.name_cache@ == pvm.name_cache@
            &&& r.0.db.events@ == pvm.db.events@
            &&& r.0.id.store == pvm.id.store
            &&& r.0.unparsed_events@ == pvm.unparsed_events@
        }
        &&& r.1 is Ok ==> {
            ||| ev == pvm.db.events@ && r.0.id.store == pvm.id.store
            ||| {
                &&& ev.len() > old_len
                &&& ev.take(old_len as int) == pvm.db.events@
                &&& (ev[old_len as int] matches DBTr::CreateNode(Node::Ctx(c)) && c.id == pvm.id.store
                    && self.describes(c))
                &&& pvm.id.store < r.0.id.store <= pvm.id.store + 66
                &&& forall|i: int| old_len < i < ev.len() && is_create(#[trigger] ev[i]) ==> op_key(ev[i]).1 > pvm.id.store
            }
        }
        &&& ready ==> self.ran(&pvm, &r.0, r.1)
        &&& ready && (h == Handler::Ignore || h == Handler::Unparsed) && pvm.uuid_cache@.contains_key(self.subjprocuuid) ==> {
            &&& r.1 is Ok
            &&& ev == pvm.db.events@
            &&& r.0.id.store == pvm.id.store
            &&& r.0.uuid_cache@ == pvm.uuid_cache@
            &&& r.0.node_cache@ == pvm.node_cache@
            &&& r.0.rel_cache@ == pvm.rel_cache@
            &&& r.0.inf_index@ == pvm.inf_index@
            &&& r.0.open_cache@ == pvm.open_cache@
        }
        &&& r.1 is Ok && h == Handler::Unparsed ==> exists|i: int|
            0 <= i < r.0.unparsed_events@.len() && r.0.unparsed_events@[i]@ == self.event@
    }

    /// Applies the record to the graph in one transaction: committed where
    /// every step succeeds, rolled back (the graph, its log and its IDs left
    /// as they were) where one fails. An event with no handler is noted among
    /// the unparsed events.
    #[verifier::rlimit(100)]
    pub fn parse(&self, pvm: PVM) -> (r: (PVM, PVMResult<()>))
        requires
            pvm.wf(),
            pvm.id.store + 256 <= ID_LIMIT,
        ensures
            self.parsed(pvm, r),
    {
        let host = match self.host {
            Some(h) => h,
            None => {
                return (pvm, Err(self.missing_field("host")));
            },
        };
        let mut ctx: Vec<(String, String)> = Vec::new();
        ctx.push(("event".to_owned(), self.event.clone()));
        ctx.push(("host".to_owned(), uuid_text(host)));
        ctx.push(("time".to_owned(), time_text(self.time)));
        match self.offset {
            Some(o) => {
                ctx.push(("trace_offset".to_owned(), nat_text(o as u64)));
            },
            None => {},
        }
        let ghost p0 = pvm;
        let mut tr = match pvm.transaction(&ctx_type(), ctx) {
            Ok(t) => t,
            Err(p) => {
                return (p, Err(PVMError::AssertionFailure { cont: "unregistered context type".to_owned() }));
            },
        };
        let ghost t0 = tr;
        let h = handler_for(self.event.as_str());
        let res = self.run(h, &mut tr);
        let ghost t1 = tr;
        if res.is_ok() {
            let mut p = tr.commit();
            proof {
                assert(p.db.events@.take(p0.db.events@.len() as int) =~= p0.db.events@);
                if t1.ops().len() > 0 {
                    assert forall|i: int| p0.db.events@.len() < i < p.db.events@.len() && is_create(#[trigger] p.db.events@[i])
                        implies op_key(p.db.events@[i]).1 > p0.id.store by {
                        let j = i - p0.db.events@.len() - 1;
                        assert(p.db.events@[i] == t1.ops()[j]);
                    }
                }
            }
            if h == Handler::Unparsed {
                let noted = has_flag(&p.unparsed_events, self.event.as_str());
                if !noted {
                    p.unparsed_events.push(self.event.clone());
                    proof {
                        assert(p.unparsed_events@[p.unparsed_events@.len() - 1]@ == self.event@);
                    }
                } else {
                    proof {
                        let i = choose|i: int| 0 <= i < p.unparsed_events@.len() && p.unparsed_events@[i]@ == self.event@;
                        assert(0 <= i < p.unparsed_events@.len() && p.unparsed_events@[i]@ == self.event@);
                    }
                }
            }
            proof {
                self.lemma_ran_views(&t0.pvm, &t1.pvm, &p0, &p, res);
            }
            (p, res)
        } else {
            let p = tr.rollback();
            proof {
                self.lemma_ran_views(&t0.pvm, &t1.pvm, &p0, &p, res);
            }
            (p, res)
        }
    }
}

impl TraceEvent {
    /// Registers the concrete and context types of the CADETS mapping.
    pub fn init(pvm: &mut PVM)
        requires
            old(pvm).wf(),
            old(pvm).id.store + 6 <= ID_LIMIT,
        ensures
            final(pvm).wf(),
            final(pvm).id.store == old(pvm).id.store + 6,
            final(pvm).type_cache@.len() == old(pvm).type_cache@.len() + 5,
            final(pvm).type_cache@[old(pvm).type_cache@.len() as int].name@ == "process"@,
            final(pvm).type_cache@[old(pvm).type_cache@.len() + 1int].name@ == "file"@,
            final(pvm).type_cache@[old(pvm).type_cache@.len() + 2int].name@ == "socket"@,
            final(pvm).type_cache@[old(pvm).type_cache@.len() + 3int].name@ == "pipe"@,
            final(pvm).type_cache@[old(pvm).type_cache@.len() + 4int].name@ == "ptty"@,
            final(pvm).ctx_type_cache@.last().name@ == "cadets_context"@,
    {
        pvm.register_data_type(process_type());
        pvm.register_data_type(file_type());
        pvm.register_data_type(socket_type());
        pvm.register_data_type(pipe_type());
        pvm.register_data_type(ptty_type());
        pvm.register_ctx_type(ctx_type());
    }

    /// Carries every UUID of an audit record that names its host into that
    /// host's namespace (version 5 UUIDs), so that UUIDs of different hosts
    /// cannot meet.
    pub fn update(&mut self)
        ensures
            match (*old(self), *final(self)) {
                (TraceEvent::Audit(a), TraceEvent::Audit(b)) => match a.host {
                    Some(h) => b == (AuditEvent {
                        arg_objuuid1: rehost(h, a.arg_objuuid1),
                        arg_objuuid2: rehost(h, a.arg_objuuid2),
                        ret_objuuid1: rehost(h, a.ret_objuuid1),
                        ret_objuuid2: rehost(h, a.ret_objuuid2),
                        subjprocuuid: v5_of(h, a.subjprocuuid),
                        subjthruuid: v5_of(h, a.subjthruuid),
                        ..a
                    }),
                    None => b == a,
                },
                (TraceEvent::FBT(a), TraceEvent::FBT(b)) => b == a,
                _ => false,
            },
    {
        match self {
            TraceEvent::Audit(e) => match e.host {
                Some(host) => {
                    e.arg_objuuid1 = rehost_opt(host, e.arg_objuuid1);
                    e.arg_objuuid2 = rehost_opt(host, e.arg_objuuid2);
                    e.ret_objuuid1 = rehost_opt(host, e.ret_objuuid1);
                    e.ret_objuuid2 = rehost_opt(host, e.ret_objuuid2);
                    e.subjprocuuid = uuid_v5(host, e.subjprocuuid);
                    e.subjthruuid = uuid_v5(host, e.subjthruuid);
                },
                None => {},
            },
            TraceEvent::FBT(_) => {},
        }
    }

    /// Applies the record to the graph; FBT records change nothing.
    pub fn process(&self, pvm: PVM) -> (r: (PVM, PVMResult<()>))
        requires
            pvm.wf(),
            pvm.id.store + 256 <= ID_LIMIT,
        ensures
            r.0.wf(),
            r.0.type_cache@ == pvm.type_cache@,
            self is FBT ==> r.0 == pvm && r.1 is Ok,
            self matches TraceEvent::Audit(e) ==> e.parsed(pvm, r),
    {
        match self {
            TraceEvent::Audit(e) => e.parse(pvm),
            TraceEvent::FBT(_) => (pvm, Ok(())),
        }
    }

    /// Records where in its stream the record starts.
    pub fn set_offset(&mut self, offset: usize)
        ensures
            match *final(self) {
                TraceEvent::Audit(e) => e.offset == Some(offset) && *old(self) is Audit,
                TraceEvent::FBT(e) => e.offset == Some(offset) && *old(self) is FBT,
            },
    {
        match self {
            TraceEvent::Audit(e) => {
                e.offset = Some(offset);
            },
            TraceEvent::FBT(e) => {
                e.offset = Some(offset);
            },
        }
    }
}

} // verus!
