use vstd::prelude::*;
use crate::dict::Dict;
use crate::heap::Heap;
use crate::value::BufValue;

verus! {

/// The number of value kinds that can carry prototype methods.
pub open spec fn tag_count() -> nat {
    16
}

/// The kinds of value that packages can extend with prototype methods, in the
/// order in which prototypes are installed.
#[derive(Debug)]
pub enum TypeTag {
    Int,
    UInt,
    Float,
    Str,
    Bool,
    Array,
    Object,
    Faillable,
    StrPointer,
    Pointer,
    PointerMut,
    AsyncTask,
    Sender,
    Listener,
    ArcPointer,
    ArcMutexPointer,
}

/// The position of a kind among the prototype tables.
pub open spec fn tag_pos(t: TypeTag) -> int {
    match t {
        TypeTag::Int => 0,
        TypeTag::UInt => 1,
        TypeTag::Float => 2,
        TypeTag::Str => 3,
        TypeTag::Bool => 4,
        TypeTag::Array => 5,
        TypeTag::Object => 6,
        TypeTag::Faillable => 7,
        TypeTag::StrPointer => 8,
        TypeTag::Pointer => 9,
        TypeTag::PointerMut => 10,
        TypeTag::AsyncTask => 11,
        TypeTag::Sender => 12,
        TypeTag::Listener => 13,
        TypeTag::ArcPointer => 14,
        TypeTag::ArcMutexPointer => 15,
    }
}

/// The position of a kind among the prototype tables.
pub fn tag_index(t: &TypeTag) -> (r: usize)
    ensures
        r == tag_pos(*t),
        r < 16,
{
    match t {
        TypeTag::Int => 0,
        TypeTag::UInt => 1,
        TypeTag::Float => 2,
        TypeTag::Str => 3,
        TypeTag::Bool => 4,
        TypeTag::Array => 5,
        TypeTag::Object => 6,
        TypeTag::Faillable => 7,
        TypeTag::StrPointer => 8,
        TypeTag::Pointer => 9,
        TypeTag::PointerMut => 10,
        TypeTag::AsyncTask => 11,
        TypeTag::Sender => 12,
        TypeTag::Listener => 13,
        TypeTag::ArcPointer => 14,
        TypeTag::ArcMutexPointer => 15,
    }
}

/// The prototype methods installed for each kind of value: per kind, the
/// method name and the handle of its callback.
#[derive(Debug)]
pub struct ExtendsInternal {
    pub tables: Vec<Dict<u64>>,
}

impl ExtendsInternal {
    /// One table per kind.
    pub open spec fn wf(self) -> bool {
        self.tables@.len() == tag_count()
    }

    /// The tables as maps.
    pub open spec fn view(self) -> Seq<Map<Seq<char>, u64>> {
        self.tables@.map_values(|d: Dict<u64>| d.view())
    }

    /// No prototype methods at all.
    pub fn new() -> (r: Self)
        ensures
            r.wf(),
            r.view() == Seq::new(16, |i: int| Map::<Seq<char>, u64>::empty()),
    {
        let mut tables: Vec<Dict<u64>> = Vec::new();
        let mut i: usize = 0;
        while i < 16
            invariant
                i <= 16,
                tables@.len() == i,
                forall|j: int| 0 <= j < i ==> (#[trigger] tables@[j]).wf() && tables@[j].view()
                    == Map::<Seq<char>, u64>::empty(),
            decreases 16 - i,
        {
            tables.push(Dict::new());
            i = i + 1;
        }
        let r = ExtendsInternal { tables };
        assert(r.view() =~= Seq::new(16, |i: int| Map::<Seq<char>, u64>::empty()));
        r
    }
}

impl Default for ExtendsInternal {
    fn default() -> (r: Self)
        ensures
            r.wf(),
            r.view() == Seq::new(16, |i: int| Map::<Seq<char>, u64>::empty()),
    {
        ExtendsInternal::new()
    }
}

/// The prototype methods that a package offers: per kind of value, in table
/// order, the method names with the handles of their callbacks.
#[derive(Debug)]
pub struct Extends {
    pub tables: Vec<Vec<(String, u64)>>,
}

/// One entry of a package's prototype table, with its name as characters.
pub open spec fn entry_view(e: (String, u64)) -> (Seq<char>, u64) {
    (e.0@, e.1)
}

/// One prototype table of a package, with its names as characters.
pub open spec fn table_view(t: Vec<(String, u64)>) -> Seq<(Seq<char>, u64)> {
    t@.map_values(|e: (String, u64)| entry_view(e))
}

impl Extends {
    /// One table per kind.
    pub open spec fn wf(self) -> bool {
        self.tables@.len() == tag_count()
    }

    /// The tables, with their names as characters.
    pub open spec fn view(self) -> Seq<Seq<(Seq<char>, u64)>> {
        self.tables@.map_values(|t: Vec<(String, u64)>| table_view(t))
    }

    /// No prototype methods at all.
    pub fn new() -> (r: Self)
        ensures
            r.wf(),
            forall|i: int| 0 <= i < 16 ==> (#[trigger] r.tables@[i])@.len() == 0,
    {
        let mut tables: Vec<Vec<(String, u64)>> = Vec::new();
        let mut i: usize = 0;
        while i < 16
            invariant
                i <= 16,
                tables@.len() == i,
                forall|j: int| 0 <= j < i ==> (#[trigger] tables@[j])@.len() == 0,
            decreases 16 - i,
        {
            tables.push(Vec::new());
            i = i + 1;
        }
        Extends { tables }
    }
}

impl Default for Extends {
    fn default() -> (r: Self)
        ensures
            r.wf(),
            forall|i: int| 0 <= i < 16 ==> (#[trigger] r.tables@[i])@.len() == 0,
    {
        Extends::new()
    }
}

/// Installs the prototype tables `ext` into `tabs`, kind by kind and entry by
/// entry, starting at entry `j` of kind `t`. A name that is already installed
/// for its kind stops the installation; the result is that name.
pub open spec fn install_from(
    tabs: Seq<Map<Seq<char>, u64>>,
    ext: Seq<Seq<(Seq<char>, u64)>>,
    t: nat,
    j: nat,
) -> Result<Seq<Map<Seq<char>, u64>>, Seq<char>>
    decreases ext.len() - t, ext[t as int].len() - j,
{
    if t >= ext.len() {
        Ok(tabs)
    } else if j >= ext[t as int].len() {
        install_from(tabs, ext, t + 1, 0)
    } else {
        let k = ext[t as int][j as int].0;
        let v = ext[t as int][j as int].1;
        if tabs[t as int].contains_key(k) {
            Err(k)
        } else {
            install_from(tabs.update(t as int, tabs[t as int].insert(k, v)), ext, t, j + 1)
        }
    }
}

/// Installs the tables of `extends` into `internal`, stopping at the first
/// name that is already installed for its kind: the result is that name.
fn install_checked(extends: &Extends, internal: &mut ExtendsInternal) -> (r: Result<(), String>)
    requires
        extends.wf(),
        old(internal).wf(),
    ensures
        final(internal).wf(),
        match r {
            Ok(()) => install_from(old(internal).view(), extends.view(), 0, 0) == Ok::<
                Seq<Map<Seq<char>, u64>>,
                Seq<char>,
            >(final(internal).view()),
            Err(k) => install_from(old(internal).view(), extends.view(), 0, 0) == Err::<
                Seq<Map<Seq<char>, u64>>,
                Seq<char>,
            >(k@),
        },
{
    let ghost ev = extends.view();
    let ghost start = internal.view();
    let mut t: usize = 0;
    while t < 16
        invariant
            t <= 16,
            extends.wf(),
            ev == extends.view(),
            start == old(internal).view(),
            internal.wf(),
            install_from(start, ev, 0, 0) == install_from(internal.view(), ev, t as nat, 0),
        decreases 16 - t,
    {
        let table = &extends.tables[t];
        let mut j: usize = 0;
        while j < table.len()
            invariant
                t < 16,
                j <= table@.len(),
                extends.wf(),
                ev == extends.view(),
                *table == extends.tables@[t as int],
                start == old(internal).view(),
                internal.wf(),
                install_from(start, ev, 0, 0) == install_from(internal.view(), ev, t as nat, j as nat),
            decreases table@.len() - j,
        {
            let ghost cur = internal.view();
            let k = &table[j].0;
            let v = table[j].1;
            assert(ev[t as int] == table_view(*table));
            assert(ev[t as int][j as int] == entry_view(table@[j as int]));
            assert(cur[t as int] == internal.tables@[t as int].view());
            if internal.tables[t].contains_key(k.as_str()) {
                let dup = k.clone();
                return Err(dup);
            }
            internal.tables[t].insert(k.clone(), v);
            assert(internal.view() =~= cur.update(t as int, cur[t as int].insert(k@, v)));
            j = j + 1;
        }
        t = t + 1;
    }
    Ok(())
}

/// A copy of the installed tables.
fn copy_tables(internal: &ExtendsInternal) -> (r: ExtendsInternal)
    requires
        internal.wf(),
    ensures
        r.wf(),
        r.view() == internal.view(),
{
    let mut tables: Vec<Dict<u64>> = Vec::new();
    let mut t: usize = 0;
    while t < internal.tables.len()
        invariant
            t <= internal.tables@.len(),
            tables@.len() == t,
            forall|i: int| 0 <= i < t ==> (#[trigger] tables@[i]).view() == internal.tables@[i].view(),
        decreases internal.tables@.len() - t,
    {
        let es = internal.tables[t].entries();
        let mut copy: Vec<(String, u64)> = Vec::new();
        let mut j: usize = 0;
        while j < es.len()
            invariant
                j <= es@.len(),
                copy@ == es@.take(j as int),
            decreases es@.len() - j,
        {
            copy.push((es[j].0.clone(), es[j].1));
            proof {
                assert(copy@ =~= es@.take(j + 1));
            }
            j = j + 1;
        }
        proof {
            assert(copy@ =~= es@);
        }
        tables.push(Dict::from_entries(copy));
        t = t + 1;
    }
    let r = ExtendsInternal { tables };
    proof {
        assert(r.view() =~= internal.view());
    }
    r
}

/// The name that installing the tables of `extends` into `internal` would
/// find already installed for its kind, if any; a caller tests it before
/// `set_into_extends`.
pub fn prototype_clash(extends: &Extends, internal: &ExtendsInternal) -> (r: Option<String>)
    requires
        extends.wf(),
        internal.wf(),
    ensures
        match install_from(internal.view(), extends.view(), 0, 0) {
            Ok(_) => r is None,
            Err(k) => r matches Some(n) && n@ == k,
        },
{
    let mut scratch = copy_tables(internal);
    match install_checked(extends, &mut scratch) {
        Ok(()) => None,
        Err(k) => Some(k),
    }
}

/// Installs the prototype methods of a package for the whole application:
/// every method of every table of `extends`, kind by kind, keeping what was
/// installed before. A name already installed for its kind, or given twice,
/// stops the program, so such tables are left out.
pub fn set_into_extends(extends: &Extends, internal: &mut ExtendsInternal)
    requires
        extends.wf(),
        old(internal).wf(),
        install_from(old(internal).view(), extends.view(), 0, 0) is Ok,
    ensures
        final(internal).wf(),
        install_from(old(internal).view(), extends.view(), 0, 0) == Ok::<
            Seq<Map<Seq<char>, u64>>,
            Seq<char>,
        >(final(internal).view()),
{
    let _ = install_checked(extends, internal);
}

/// Installing prototype tables keeps every method installed before, and
/// afterwards each name of a table finds the callback that the table gave it.
pub proof fn law_install_keeps_and_finds(
    tabs: Seq<Map<Seq<char>, u64>>,
    ext: Seq<Seq<(Seq<char>, u64)>>,
)
    requires
        tabs.len() == ext.len(),
        install_from(tabs, ext, 0, 0) is Ok,
    ensures
        ({
            let res = install_from(tabs, ext, 0, 0)->Ok_0;
            &&& res.len() == tabs.len()
            &&& forall|u: int, k: Seq<char>|
                0 <= u < tabs.len() && #[trigger] tabs[u].contains_key(k) ==> res[u].contains_key(k)
                    && res[u][k] == tabs[u][k]
            &&& forall|u: int, i: int|
                0 <= u < ext.len() && 0 <= i < ext[u].len() ==> res[u].contains_key(
                    (#[trigger] ext[u][i]).0,
                ) && res[u][ext[u][i].0] == ext[u][i].1
        }),
{
    lemma_install_from(tabs, ext, 0, 0);
}

proof fn lemma_install_from(
    tabs: Seq<Map<Seq<char>, u64>>,
    ext: Seq<Seq<(Seq<char>, u64)>>,
    t: nat,
    j: nat,
)
    requires
        tabs.len() == ext.len(),
        install_from(tabs, ext, t, j) is Ok,
    ensures
        ({
            let res = install_from(tabs, ext, t, j)->Ok_0;
            &&& res.len() == tabs.len()
            &&& forall|u: int, k: Seq<char>|
                0 <= u < tabs.len() && #[trigger] tabs[u].contains_key(k) ==> res[u].contains_key(k)
                    && res[u][k] == tabs[u][k]
            &&& forall|u: int, i: int|
                0 <= u < ext.len() && 0 <= i < ext[u].len() && (u > t || (u == t && i >= j))
                    ==> res[u].contains_key((#[trigger] ext[u][i]).0) && res[u][ext[u][i].0]
                    == ext[u][i].1
        }),
    decreases ext.len() - t, ext[t as int].len() - j,
{
    if t >= ext.len() {
    } else if j >= ext[t as int].len() {
        lemma_install_from(tabs, ext, t + 1, 0);
    } else {
        let k = ext[t as int][j as int].0;
        let v = ext[t as int][j as int].1;
        let next = tabs.update(t as int, tabs[t as int].insert(k, v));
        lemma_install_from(next, ext, t, j + 1);
        let res = install_from(tabs, ext, t, j)->Ok_0;
        assert forall|u: int, kk: Seq<char>|
            0 <= u < tabs.len() && #[trigger] tabs[u].contains_key(kk) implies res[u].contains_key(kk)
                && res[u][kk] == tabs[u][kk] by {
            assert(next[u].contains_key(kk));
        }
        assert(next[t as int].contains_key(k));
    }
}

/// The kind of prototype table that serves a value, if any.
pub open spec fn tag_of(v: BufValue) -> Option<TypeTag> {
    match v {
        BufValue::Int(_) => Some(TypeTag::Int),
        BufValue::U_Int(_) => Some(TypeTag::UInt),
        BufValue::Float(_) => Some(TypeTag::Float),
        BufValue::Str(_) => Some(TypeTag::Str),
        BufValue::Bool(_) => Some(TypeTag::Bool),
        BufValue::Array(_) => Some(TypeTag::Array),
        BufValue::Object(_) => Some(TypeTag::Object),
        BufValue::Faillable(_) => Some(TypeTag::Faillable),
        BufValue::StrPointer(_) => Some(TypeTag::StrPointer),
        BufValue::Pointer(_) => Some(TypeTag::Pointer),
        BufValue::PointerMut(_) => Some(TypeTag::PointerMut),
        BufValue::AsyncTask(_) => Some(TypeTag::AsyncTask),
        BufValue::Sender(_) => Some(TypeTag::Sender),
        BufValue::Listener(_) => Some(TypeTag::Listener),
        BufValue::ArcPointer(_) => Some(TypeTag::ArcPointer),
        BufValue::ArcMutexPointer(_) => Some(TypeTag::ArcMutexPointer),
        BufValue::RuntimeRaw(_) => None,
    }
}

/// The kind of prototype table that serves a value, if any.
pub fn value_tag(v: &BufValue) -> (r: Option<TypeTag>)
    ensures
        r == tag_of(*v),
{
    match v {
        BufValue::Int(_) => Some(TypeTag::Int),
        BufValue::U_Int(_) => Some(TypeTag::UInt),
        BufValue::Float(_) => Some(TypeTag::Float),
        BufValue::Str(_) => Some(TypeTag::Str),
        BufValue::Bool(_) => Some(TypeTag::Bool),
        BufValue::Array(_) => Some(TypeTag::Array),
        BufValue::Object(_) => Some(TypeTag::Object),
        BufValue::Faillable(_) => Some(TypeTag::Faillable),
        BufValue::StrPointer(_) => Some(TypeTag::StrPointer),
        BufValue::Pointer(_) => Some(TypeTag::Pointer),
        BufValue::PointerMut(_) => Some(TypeTag::PointerMut),
        BufValue::AsyncTask(_) => Some(TypeTag::AsyncTask),
        BufValue::Sender(_) => Some(TypeTag::Sender),
        BufValue::Listener(_) => Some(TypeTag::Listener),
        BufValue::ArcPointer(_) => Some(TypeTag::ArcPointer),
        BufValue::ArcMutexPointer(_) => Some(TypeTag::ArcMutexPointer),
        BufValue::RuntimeRaw(_) => None,
    }
}

/// The prototype method `method` for values like `v`: the heap's own table
/// is searched first, then the defaults.
pub open spec fn prototype_of(h: Heap, v: BufValue, method: Seq<char>) -> Option<u64> {
    match tag_of(v) {
        None => None,
        Some(t) => {
            let own = h.extends.view()[tag_pos(t)];
            let def = h.def_extends.view()[tag_pos(t)];
            if own.contains_key(method) {
                Some(own[method])
            } else if def.contains_key(method) {
                Some(def[method])
            } else {
                None
            }
        },
    }
}

/// The callback of the prototype method `method` for values like `v`, looked
/// up in the heap's own prototypes first, then in the defaults.
pub fn get_handle_runtime_ptr(heap: &Heap, val: &BufValue, method: &str) -> (r: Option<u64>)
    requires
        heap.wf(),
    ensures
        r == prototype_of(*heap, *val, method@),
{
    let t = match value_tag(val) {
        Some(t) => t,
        None => return None,
    };
    let i = tag_index(&t);
    let (own, def) = heap.get_extends();
    match own.tables[i].get(method) {
        Some(h) => Some(*h),
        None => match def.tables[i].get(method) {
            Some(h) => Some(*h),
            None => None,
        },
    }
}

/// Documentation of prototype methods: per kind, the method name with its
/// three lines of documentation.
#[derive(Debug)]
pub struct PrototypeDocs {
    pub tables: Vec<Dict<(String, String, String)>>,
}

impl PrototypeDocs {
    /// One well-formed table per kind.
    pub open spec fn wf(self) -> bool {
        &&& self.tables@.len() == tag_count()
        &&& forall|i: int| 0 <= i < self.tables@.len() ==> (#[trigger] self.tables@[i]).wf()
    }
}

impl Default for PrototypeDocs {
    fn default() -> (r: Self)
        ensures
            r.wf(),
            forall|i: int| 0 <= i < 16 ==> (#[trigger] r.tables@[i]).view()
                == Map::<Seq<char>, (String, String, String)>::empty(),
    {
        let mut tables: Vec<Dict<(String, String, String)>> = Vec::new();
        let mut i: usize = 0;
        while i < 16
            invariant
                i <= 16,
                tables@.len() == i,
                forall|j: int| 0 <= j < i ==> (#[trigger] tables@[j]).wf() && tables@[j].view()
                    == Map::<Seq<char>, (String, String, String)>::empty(),
            decreases 16 - i,
        {
            tables.push(Dict::new());
            i = i + 1;
        }
        PrototypeDocs { tables }
    }
}

} // verus!
