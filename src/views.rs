//! The registry of view types and view instances, view parameters, and the
//! views the engine ships with.
use vstd::prelude::*;
use vstd::string::*;
use crate::data::str_eq;
use crate::errors::ViewError;

verus! {

/// The value of the last entry for `key` in `entries`.
pub open spec fn lookup_in(entries: Seq<(String, String)>, key: Seq<char>) -> Option<Seq<char>>
    decreases entries.len(),
{
    if entries.len() == 0 {
        None
    } else if entries.last().0@ == key {
        Some(entries.last().1@)
    } else {
        lookup_in(entries.drop_last(), key)
    }
}

/// The string parameters a view instance is created with.
#[derive(Debug)]
pub struct ViewParams {
    pub entries: Vec<(String, String)>,
}

impl ViewParams {
    pub fn new() -> (r: ViewParams)
        ensures
            r.entries@.len() == 0,
    {
        ViewParams { entries: Vec::new() }
    }
}

/// Access to view parameters by key.
pub trait ViewParamsExt {
    spec fn lookup(&self, key: Seq<char>) -> Option<Seq<char>>;

    /// Sets parameter `key` to `val`.
    fn insert_param(&mut self, key: &str, val: &str)
        ensures
            final(self).lookup(key@) == Some(val@),
            forall|k: Seq<char>| k != key@ ==> final(self).lookup(k) == old(self).lookup(k),
    ;

    /// The value of parameter `key`, or `def` where it is not set.
    fn get_or_def(&self, key: &str, def: &str) -> (r: String)
        ensures
            r@ == match self.lookup(key@) {
                Some(v) => v,
                None => def@,
            },
    ;
}

impl ViewParamsExt for ViewParams {
    open spec fn lookup(&self, key: Seq<char>) -> Option<Seq<char>> {
        lookup_in(self.entries@, key)
    }

    fn insert_param(&mut self, key: &str, val: &str) {
        self.entries.push((key.to_owned(), val.to_owned()));
        proof {
            assert(self.entries@.drop_last() =~= old(self).entries@);
        }
    }

    fn get_or_def(&self, key: &str, def: &str) -> (r: String) {
        let mut i: usize = self.entries.len();
        proof {
            assert(self.entries@.take(i as int) =~= self.entries@);
        }
        while i > 0
            invariant
                0 <= i <= self.entries@.len(),
                lookup_in(self.entries@, key@) == lookup_in(self.entries@.take(i as int), key@),
            decreases i,
        {
            proof {
                assert(self.entries@.take(i as int).drop_last() =~= self.entries@.take(i - 1));
                assert(self.entries@.take(i as int).last() == self.entries@[i - 1]);
            }
            if str_eq(self.entries[i - 1].0.as_str(), key) {
                return self.entries[i - 1].1.clone();
            }
            i = i - 1;
        }
        def.to_owned()
    }
}

/// Whether a process name seen now differs from the one recorded.
pub fn neq(a: &Option<&str>, b: &Option<String>) -> (r: bool)
    ensures
        r == match (*a, *b) {
            (Some(x), Some(y)) => x@ != y@,
            (None, None) => false,
            _ => true,
        },
{
    match a {
        Some(va) => match b {
            Some(vb) => !str_eq(va, vb.as_str()),
            None => true,
        },
        None => b.is_some(),
    }
}

/// The lower-case form of `s`, as `str::to_lowercase` makes it.
pub uninterp spec fn lower_of(s: Seq<char>) -> Seq<char>;

/// Relies on `str::to_lowercase`: the result depends on the characters alone.
#[verifier::external_body]
fn lowercase(s: &str) -> (r: String)
    ensures
        r@ == lower_of(s@),
{
    s.to_lowercase()
}

/// `l` without a trailing "view".
pub open spec fn strip_view(l: Seq<char>) -> Seq<char> {
    if l.len() >= 4 && l.subrange(l.len() - 4, l.len() as int) == "view"@ {
        l.subrange(0, l.len() - 4)
    } else {
        l
    }
}

/// The command-line flag of a view whose lower-cased name is `lowered`.
pub fn flag_of_lowered(lowered: &str) -> (r: String)
    ensures
        r@ == strip_view(lowered@),
{
    proof {
        reveal_strlit("view");
    }
    let n = lowered.unicode_len();
    if n >= 4 {
        let tail = lowered.substring_char(n - 4, n);
        if str_eq(tail, "view") {
            return lowered.substring_char(0, n - 4).to_owned();
        }
    }
    lowered.to_owned()
}

/// The command-line flag of the view called `name`: lower case, without a
/// trailing "view".
pub fn view_flag_name(name: &str) -> (r: String)
    ensures
        r@ == strip_view(lower_of(name@)),
{
    let l = lowercase(name);
    flag_of_lowered(l.as_str())
}

/// The command-line flag of parameter `pname` of the view whose flag is `vname`.
pub fn param_flag_name(vname: &str, pname: &str) -> (r: String)
    ensures
        r@ == vname@ + "-"@ + lower_of(pname@),
{
    let l = lowercase(pname);
    let s = vname.to_owned().concat("-");
    s.concat(l.as_str())
}

/// A registered view type.
#[derive(Debug)]
pub struct ViewType {
    pub id: usize,
    pub name: String,
}

/// A created view instance.
#[derive(Clone, Copy, Debug, PartialEq, Eq, Structural)]
pub struct ViewInstance {
    pub id: usize,
    pub vtype: usize,
}

/// Index of the view type called `name`.
pub open spec fn vtype_named(types: Seq<ViewType>, name: Seq<char>) -> Option<int> {
    if exists|i: int| 0 <= i < types.len() && types[i].name@ == name {
        Some(choose|i: int| 0 <= i < types.len() && types[i].name@ == name)
    } else {
        None
    }
}

/// The bookkeeping of view types and instances: names unique, IDs handed out
/// in order.
#[derive(Debug)]
pub struct ViewRegistry {
    pub types: Vec<ViewType>,
    pub insts: Vec<ViewInstance>,
    pub vid_gen: usize,
    pub viid_gen: usize,
}

impl ViewRegistry {
    /// Type names are unique and type IDs are their positions.
    pub open spec fn wf(&self) -> bool {
        &&& forall|i: int, j: int| 0 <= i < j < self.types@.len()
            ==> self.types@[i].name@ != self.types@[j].name@
        &&& forall|i: int| 0 <= i < self.types@.len() ==> #[trigger] self.types@[i].id == i
        &&& self.vid_gen == self.types@.len()
    }

    pub fn new() -> (r: ViewRegistry)
        ensures
            r.wf(),
            r.types@.len() == 0,
            r.insts@.len() == 0,
            r.viid_gen == 0,
    {
        ViewRegistry { types: Vec::new(), insts: Vec::new(), vid_gen: 0, viid_gen: 0 }
    }

    fn find_name(&self, name: &str) -> (r: Option<usize>)
        ensures
            match r {
                Some(i) => i < self.types@.len() && self.types@[i as int].name@ == name@,
                None => forall|i: int| 0 <= i < self.types@.len() ==> self.types@[i].name@ != name@,
            },
    {
        let mut i: usize = 0;
        while i < self.types.len()
            invariant
                0 <= i <= self.types@.len(),
                forall|j: int| 0 <= j < i ==> self.types@[j].name@ != name@,
            decreases self.types@.len() - i,
        {
            if str_eq(self.types[i].name.as_str(), name) {
                return Some(i);
            }
            i = i + 1;
        }
        None
    }

    /// Registers a view type called `name` under the next type ID; fails
    /// where a type of that name is registered.
    pub fn register_view_type(&mut self, name: &str) -> (r: Result<usize, ViewError>)
        requires
            old(self).wf(),
            old(self).vid_gen < usize::MAX,
        ensures
            final(self).wf(),
            final(self).insts@ == old(self).insts@,
            final(self).viid_gen == old(self).viid_gen,
            (exists|i: int| 0 <= i < old(self).types@.len() && old(self).types@[i].name@ == name@) ==> {
                &&& r matches Err(ViewError::DuplicateViewName(n)) && n@ == name@
                &&& final(self).types@ == old(self).types@
            },
            !(exists|i: int| 0 <= i < old(self).types@.len() && old(self).types@[i].name@ == name@) ==> {
                &&& r == Ok::<usize, ViewError>(old(self).vid_gen)
                &&& final(self).types@.len() == old(self).types@.len() + 1
                &&& final(self).types@.drop_last() == old(self).types@
                &&& final(self).types@.last().name@ == name@
            },
    {
        match self.find_name(name) {
            Some(_) => {
                return Err(ViewError::DuplicateViewName(name.to_owned()));
            },
            None => {},
        }
        let id = self.vid_gen;
        self.vid_gen = self.vid_gen + 1;
        self.types.push(ViewType { id, name: name.to_owned() });
        proof {
            assert(self.types@.drop_last() =~= old(self).types@);
        }
        Ok(id)
    }

    /// Creates an instance of view type `id` under the next instance ID;
    /// fails where no such type is registered.
    pub fn create_view_with_id(&mut self, id: usize) -> (r: Result<usize, ViewError>)
        requires
            old(self).wf(),
            old(self).viid_gen < usize::MAX,
        ensures
            final(self).wf(),
            final(self).types@ == old(self).types@,
            id < old(self).types@.len() ==> {
                &&& r == Ok::<usize, ViewError>(old(self).viid_gen)
                &&& final(self).viid_gen == old(self).viid_gen + 1
                &&& final(self).insts@ == old(self).insts@.push(ViewInstance { id: old(self).viid_gen, vtype: id })
            },
            id >= old(self).types@.len()
                ==> r == Err::<usize, ViewError>(ViewError::MissingViewID(id)) && *final(self) == *old(self),
    {
        if id < self.types.len() {
            let iid = self.viid_gen;
            self.viid_gen = self.viid_gen + 1;
            self.insts.push(ViewInstance { id: iid, vtype: id });
            Ok(iid)
        } else {
            Err(ViewError::MissingViewID(id))
        }
    }

    /// Creates an instance of the view type called `name`; fails where no
    /// such type is registered.
    pub fn create_view_with_name(&mut self, name: &str) -> (r: Result<usize, ViewError>)
        requires
            old(self).wf(),
            old(self).viid_gen < usize::MAX,
        ensures
            final(self).wf(),
            final(self).types@ == old(self).types@,
            (exists|i: int| 0 <= i < old(self).types@.len() && old(self).types@[i].name@ == name@) ==> {
                &&& r == Ok::<usize, ViewError>(old(self).viid_gen)
                &&& final(self).insts@.len() == old(self).insts@.len() + 1
                &&& old(self).types@[final(self).insts@.last().vtype as int].name@ == name@
            },
            !(exists|i: int| 0 <= i < old(self).types@.len() && old(self).types@[i].name@ == name@) ==> {
                &&& r matches Err(ViewError::MissingViewName(n)) && n@ == name@
                &&& *final(self) == *old(self)
            },
    {
        match self.find_name(name) {
            Some(i) => self.create_view_with_id(i),
            None => Err(ViewError::MissingViewName(name.to_owned())),
        }
    }
}

/// A kind of view the engine can run.
pub trait ViewKind {
    fn new(id: usize) -> Self where Self: Sized;

    fn id(&self) -> usize;

    fn name(&self) -> &'static str;

    fn desc(&self) -> &'static str;

    /// The parameters the view takes, with their descriptions.
    fn params(&self) -> Vec<(String, String)>;
}

/// A view that writes every change event as debug text.
#[derive(Debug)]
pub struct DBGView {
    pub id: usize,
}

impl ViewKind for DBGView {
    fn new(id: usize) -> DBGView {
        DBGView { id }
    }

    fn id(&self) -> usize {
        self.id
    }

    fn name(&self) -> &'static str {
        "DBGView"
    }

    fn desc(&self) -> &'static str {
        "View presenting debug output."
    }

    fn params(&self) -> Vec<(String, String)> {
        vec![("output".to_owned(), "Output file location".to_owned())]
    }
}

/// A view that extracts the process tree.
#[derive(Debug)]
pub struct ProcTreeView {
    pub id: usize,
}

impl ViewKind for ProcTreeView {
    fn new(id: usize) -> ProcTreeView {
        ProcTreeView { id }
    }

    fn id(&self) -> usize {
        self.id
    }

    fn name(&self) -> &'static str {
        "ProcTreeView"
    }

    fn desc(&self) -> &'static str {
        "View for storing a process tree."
    }

    fn params(&self) -> Vec<(String, String)> {
        vec![
            ("output".to_owned(), "Output file location".to_owned()),
            ("meta_key".to_owned(), "Metadata key for process name".to_owned()),
        ]
    }
}

} // verus!
