use vstd::prelude::*;
use crate::dict::Dict;
use crate::extends::{get_handle_runtime_ptr, prototype_of, ExtendsInternal};
use crate::heap::{
    deref_spec, dollar, get_mut_target, get_spec, move_mark, put_rel, remove_rel, self_dollar, self_dot,
    self_move, set_rel, Heap,
};
use crate::text::has_prefix;
use crate::parser::{clone_lines, clone_strings, lines_view, ModuleMethod};
use crate::text::{byte_skip, skip_bytes, split_once, split_once_spec, str_eq, views};
use crate::value::{BufValue, RawRTValue, RTCreatedModule};
use std::sync::Arc;

verus! {

/// A value that a callback hands back as its result.
#[derive(Debug)]
pub struct RetBufValue(pub BufValue);

impl From<BufValue> for RetBufValue {
    fn from(item: BufValue) -> (r: Self)
        ensures
            r.0 == item,
    {
        RetBufValue(item)
    }
}

impl vstd::std_specs::convert::FromSpecImpl<BufValue> for RetBufValue {
    open spec fn obeys_from_spec() -> bool {
        true
    }

    open spec fn from_spec(v: BufValue) -> Self {
        RetBufValue(v)
    }
}

/// What a call leaves behind for the line that made it: a value to store,
/// or a runtime value of a native package (by its handle) to store.
#[derive(Debug)]
pub struct Options {
    pub r_val: Option<RetBufValue>,
    pub r_runtime: Option<u64>,
}

impl Options {
    /// Nothing left behind.
    pub fn new() -> (r: Self)
        ensures
            r.r_val is None,
            r.r_runtime is None,
    {
        Options { r_val: None, r_runtime: None }
    }

    /// Leaves `val` as the result.
    pub fn set_return_val(&mut self, val: BufValue)
        ensures
            final(self).r_val == Some(RetBufValue(val)),
            final(self).r_runtime == old(self).r_runtime,
    {
        self.r_val = Some(RetBufValue(val));
    }

    /// The value left as the result.
    pub fn r_val(self) -> (r: BufValue)
        requires
            self.r_val is Some,
        ensures
            r == self.r_val.unwrap().0,
    {
        match self.r_val {
            Some(v) => v.0,
            None => BufValue::Bool(false),
        }
    }

    /// Takes the runtime value that was left behind.
    pub fn rem_r_runtime(&mut self) -> (r: Option<u64>)
        ensures
            r == old(self).r_runtime,
            final(self).r_runtime is None,
            final(self).r_val == old(self).r_val,
    {
        let r = self.r_runtime;
        self.r_runtime = None;
        r
    }

    /// Leaves the runtime value with handle `val` behind.
    pub fn set_r_runtime(&mut self, val: u64)
        ensures
            final(self).r_runtime == Some(val),
            final(self).r_val == old(self).r_val,
    {
        self.r_runtime = Some(val);
    }
}

/// Stores `val` in the slot `key`, whatever the key looks like.
pub fn set_runtime_val(heap: &mut Heap, key: String, val: RawRTValue)
    ensures
        final(heap).data.view() == old(heap).data.view().insert(key@, BufValue::RuntimeRaw(val)),
        final(heap).this == old(heap).this,
        final(heap).extends == old(heap).extends,
        final(heap).def_extends == old(heap).def_extends,
{
    heap.data.insert(key, BufValue::RuntimeRaw(val));
}

/// The separator of `$name::method`.
pub open spec fn path_sep() -> Seq<char> {
    seq![':', ':']
}

/// What a `$name::method` line calls.
#[derive(Debug)]
pub enum CallTarget {
    /// A prototype method of the value stored under `key`, by its callback.
    Prototype { key: String, method: String, handle: u64 },
    /// A method of the runtime value stored under `key`.
    Runtime { key: String, method: String, handle: u64 },
    /// A method of the package imported under `key`, by its callback.
    Package { key: String, method: String, handle: u64 },
    /// A method of the Lead module stored under `key`.
    Module { key: String, method: String, id: u64 },
}

/// `CallTarget` with its names as characters.
pub enum TargetView {
    Prototype { key: Seq<char>, method: Seq<char>, handle: u64 },
    Runtime { key: Seq<char>, method: Seq<char>, handle: u64 },
    Package { key: Seq<char>, method: Seq<char>, handle: u64 },
    Module { key: Seq<char>, method: Seq<char>, id: u64 },
}

impl CallTarget {
    pub open spec fn view(self) -> TargetView {
        match self {
            CallTarget::Prototype { key, method, handle } => TargetView::Prototype {
                key: key@,
                method: method@,
                handle,
            },
            CallTarget::Runtime { key, method, handle } => TargetView::Runtime {
                key: key@,
                method: method@,
                handle,
            },
            CallTarget::Package { key, method, handle } => TargetView::Package {
                key: key@,
                method: method@,
                handle,
            },
            CallTarget::Module { key, method, id } => TargetView::Module {
                key: key@,
                method: method@,
                id,
            },
        }
    }

    /// The identity of the callee, by which its timings are kept.
    pub fn identity(&self) -> (r: u64)
        ensures
            r == self.view().identity(),
    {
        match self {
            CallTarget::Prototype { handle, .. } => *handle,
            CallTarget::Runtime { handle, .. } => *handle,
            CallTarget::Package { handle, .. } => *handle,
            CallTarget::Module { id, .. } => *id,
        }
    }
}

impl TargetView {
    /// The identity of the callee: the handle of its callback, runtime value
    /// or module.
    pub open spec fn identity(self) -> u64 {
        match self {
            TargetView::Prototype { handle, .. } => handle,
            TargetView::Runtime { handle, .. } => handle,
            TargetView::Package { handle, .. } => handle,
            TargetView::Module { id, .. } => id,
        }
    }
}

/// What the caller `$name::method` reaches in the heap `h`: nothing when it
/// has no `::`, names no slot, or names a plain value without such a
/// prototype method; the error names a method that an imported package lacks.
pub open spec fn resolve_spec(h: Heap, caller: Seq<char>) -> Result<Option<TargetView>, Seq<char>> {
    match split_once_spec(caller, path_sep()) {
        None => Ok(None),
        Some((key, method)) => {
            if !h.data.view().contains_key(key) {
                Ok(None)
            } else {
                match h.data.view()[key] {
                    BufValue::RuntimeRaw(RawRTValue::RT(handle)) => Ok(
                        Some(TargetView::Runtime { key, method, handle }),
                    ),
                    BufValue::RuntimeRaw(RawRTValue::PKG(p)) => {
                        if p.view().contains_key(method) {
                            Ok(Some(TargetView::Package { key, method, handle: p.view()[method] }))
                        } else {
                            Err(method)
                        }
                    },
                    BufValue::RuntimeRaw(RawRTValue::RTCM(m)) => Ok(
                        Some(TargetView::Module { key, method, id: m.id }),
                    ),
                    v => match prototype_of(h, v, method) {
                        Some(handle) => Ok(Some(TargetView::Prototype { key, method, handle })),
                        None => Ok(None),
                    },
                }
            }
        },
    }
}

/// Resolves the caller `$name::method` against the heap. An `Err` names the
/// method that the package imported under `name` lacks.
pub fn call_runtime_val(heap: &Heap, caller: &str) -> (r: Result<Option<CallTarget>, String>)
    requires
        heap.wf(),
    ensures
        match resolve_spec(*heap, caller@) {
            Ok(Some(t)) => r matches Ok(Some(x)) && x.view() == t,
            Ok(None) => r matches Ok(None),
            Err(m) => r matches Err(e) && e@ == m,
        },
{
    let sep = "::";
    proof {
        reveal_strlit("::");
        assert(sep@ =~= path_sep());
    }
    let (key, method) = match split_once(caller, sep) {
        Some(p) => p,
        None => return Ok(None),
    };
    let v = match heap.data.get(key) {
        Some(v) => v,
        None => return Ok(None),
    };
    match v {
        BufValue::RuntimeRaw(RawRTValue::RT(handle)) => Ok(
            Some(
                CallTarget::Runtime {
                    key: String::from_str(key),
                    method: String::from_str(method),
                    handle: *handle,
                },
            ),
        ),
        BufValue::RuntimeRaw(RawRTValue::PKG(p)) => match p.get(method) {
            Some(handle) => Ok(
                Some(
                    CallTarget::Package {
                        key: String::from_str(key),
                        method: String::from_str(method),
                        handle: *handle,
                    },
                ),
            ),
            None => Err(String::from_str(method)),
        },
        BufValue::RuntimeRaw(RawRTValue::RTCM(m)) => Ok(
            Some(
                CallTarget::Module {
                    key: String::from_str(key),
                    method: String::from_str(method),
                    id: m.id,
                },
            ),
        ),
        other => match get_handle_runtime_ptr(heap, other, method) {
            Some(handle) => Ok(
                Some(
                    CallTarget::Prototype {
                        key: String::from_str(key),
                        method: String::from_str(method),
                        handle,
                    },
                ),
            ),
            None => Ok(None),
        },
    }
}

/// The identity of what the caller `$name::method` reaches, by which its
/// timings are kept. An `Err` names the method that the package imported
/// under `name` lacks.
pub fn get_runtime_ptr(heap: &Heap, caller: &str) -> (r: Result<Option<u64>, String>)
    requires
        heap.wf(),
    ensures
        match resolve_spec(*heap, caller@) {
            Ok(Some(t)) => r == Ok::<Option<u64>, String>(Some(t.identity())),
            Ok(None) => r matches Ok(None),
            Err(m) => r matches Err(e) && e@ == m,
        },
{
    match call_runtime_val(heap, caller) {
        Ok(Some(t)) => Ok(Some(t.identity())),
        Ok(None) => Ok(None),
        Err(m) => Err(m),
    }
}

/// Stores what a call left behind under the line's target `to_set`, when the
/// line has one (`val_type`): the result value if there is one, else the
/// runtime value, by its handle. The outcome of storing the result value
/// is ignored.
pub fn store_result(heap: &mut Heap, opt: Options, val_type: bool, to_set: &str)
    ensures
        final(heap).extends == old(heap).extends,
        final(heap).def_extends == old(heap).def_extends,
        if val_type && opt.r_val is Some {
            exists|ok: bool| set_rel(*old(heap), to_set@, opt.r_val.unwrap().0, *final(heap), ok)
        } else if val_type && opt.r_runtime is Some {
            &&& final(heap).data.view() == old(heap).data.view().insert(
                to_set@,
                BufValue::RuntimeRaw(RawRTValue::RT(opt.r_runtime.unwrap())),
            )
            &&& final(heap).this == old(heap).this
        } else {
            *final(heap) == *old(heap)
        },
{
    let mut opt = opt;
    let runt = opt.rem_r_runtime();
    if val_type && opt.r_val.is_some() {
        let r = heap.set(String::from_str(to_set), opt.r_val());
        proof {
            let ok = r is Some;
            assert(set_rel(*old(heap), to_set@, opt.r_val.unwrap().0, *heap, ok));
        }
    } else if val_type && runt.is_some() {
        match runt {
            Some(h) => set_runtime_val(heap, String::from_str(to_set), RawRTValue::RT(h)),
            None => {},
        }
    }
}

/// The heap as a package callback sees it: the tokens of its line, the name
/// of the package, and whether the callback may use the whole heap.
#[derive(Debug)]
pub struct HeapWrapper {
    pub args: Vec<String>,
    pub pkg_name: String,
    pub allow_full: bool,
}

impl HeapWrapper {
    /// Full access to the heap: the name of the package to report as having
    /// asked for it, when the call did not already grant it.
    pub fn upgrade(&self) -> (r: Option<String>)
        ensures
            if self.allow_full {
                r is None
            } else {
                r matches Some(n) && n@ == self.pkg_name@
            },
    {
        if self.allow_full {
            None
        } else {
            Some(self.pkg_name.clone())
        }
    }

    /// Reads the variable `key`, which must be one of the line's tokens.
    pub fn get<'h>(&self, heap: &'h Heap, key: &str) -> (r: Option<&'h BufValue>)
        ensures
            if views(self.args@).contains(key@) {
                match r {
                    Some(v) => get_spec(*heap, key@) == Some(*v),
                    None => get_spec(*heap, key@) is None,
                }
            } else {
                r is None
            },
    {
        let mut i: usize = 0;
        while i < self.args.len()
            invariant
                i <= self.args@.len(),
                forall|j: int| 0 <= j < i ==> self.args@[j]@ != key@,
            decreases self.args@.len() - i,
        {
            if str_eq(self.args[i].as_str(), key) {
                proof {
                    assert(views(self.args@)[i as int] == key@);
                }
                return heap.get(key);
            }
            i = i + 1;
        }
        proof {
            if views(self.args@).contains(key@) {
                let j = choose|j: int| 0 <= j < views(self.args@).len() && views(self.args@)[j] == key@;
                assert(self.args@[j]@ == key@);
            }
        }
        None
    }

    /// Hands out, for update, the variable that the line's token at
    /// position `arg` names.
    pub fn get_mut<'h>(&self, heap: &'h mut Heap, arg: usize) -> (r: Option<&'h mut BufValue>)
        ensures
            final(heap).extends == old(heap).extends,
            final(heap).def_extends == old(heap).def_extends,
            if arg < self.args@.len() {
                let key = self.args@[arg as int]@;
                match r {
                    Some(v) => get_mut_target(*old(heap), key) == Some(*v) && put_rel(
                        *old(heap),
                        key,
                        *final(v),
                        *final(heap),
                    ),
                    None => get_mut_target(*old(heap), key) is None && *final(heap) == *old(heap),
                }
            } else {
                r is None && *final(heap) == *old(heap)
            },
    {
        if arg < self.args.len() {
            heap.get_mut(self.args[arg].as_str())
        } else {
            None
        }
    }

    /// Takes out the variable that the line's token at position `arg` names.
    pub fn remove(&self, heap: &mut Heap, arg: usize) -> (r: Option<Option<BufValue>>)
        ensures
            final(heap).extends == old(heap).extends,
            final(heap).def_extends == old(heap).def_extends,
            if arg < self.args@.len() {
                remove_rel(*old(heap), self.args@[arg as int]@, *final(heap), r)
            } else {
                r is None && *final(heap) == *old(heap)
            },
    {
        if arg < self.args.len() {
            heap.remove(self.args[arg].as_str())
        } else {
            None
        }
    }
}

/// Why a call into a method of a Lead module fails.
#[derive(Debug)]
pub enum ModuleCallError {
    /// The slot holds no Lead module.
    NotAModule,
    /// The module has no method of that name.
    UnknownMethod,
    /// The line passes another number of arguments than the method takes.
    ArgumentCount,
    /// An argument token whose variable cannot be moved out of the heap.
    MissingArgument(String),
    /// A parameter that cannot take its argument: its name is too short to
    /// lose its `->`, or the stripped name is refused by the method's heap.
    BadParameter(String),
}

/// `ModuleCallError` with its names as characters.
pub enum ModuleCallFault {
    NotAModule,
    UnknownMethod,
    ArgumentCount,
    MissingArgument(Seq<char>),
    BadParameter(Seq<char>),
}

impl ModuleCallError {
    pub open spec fn view(self) -> ModuleCallFault {
        match self {
            ModuleCallError::NotAModule => ModuleCallFault::NotAModule,
            ModuleCallError::UnknownMethod => ModuleCallFault::UnknownMethod,
            ModuleCallError::ArgumentCount => ModuleCallFault::ArgumentCount,
            ModuleCallError::MissingArgument(t) => ModuleCallFault::MissingArgument(t@),
            ModuleCallError::BadParameter(t) => ModuleCallFault::BadParameter(t@),
        }
    }
}

/// A call into a method of a Lead module, under way: the heap in which the
/// method runs (inside the module's own heap), the lines of the method, and
/// what the module keeps besides its heap.
#[derive(Debug)]
pub struct ModuleCall {
    pub frame: Heap,
    pub code: Vec<Vec<String>>,
    pub id: u64,
    pub methods: Dict<ModuleMethod>,
}

/// The Lead module stored under `key`.
pub open spec fn module_at(h: Heap, key: Seq<char>) -> Option<RTCreatedModule> {
    if h.data.view().contains_key(key) {
        match h.data.view()[key] {
            BufValue::RuntimeRaw(RawRTValue::RTCM(m)) => Some(*m),
            _ => None,
        }
    } else {
        None
    }
}

/// Moving the arguments `toks` of a call into the parameters `params`, pair
/// by pair: each argument's variable is moved out of the caller's heap,
/// from `c0` to `c1`, and stored under its parameter without the leading
/// `->` in the method's heap, from `f0` to `f1`. The first pair that fails
/// ends the binding with its error.
pub open spec fn bind_rel(
    c0: Heap,
    f0: Heap,
    toks: Seq<Seq<char>>,
    params: Seq<Seq<char>>,
    c1: Heap,
    f1: Heap,
    r: Result<(), ModuleCallFault>,
) -> bool
    decreases toks.len(),
{
    if toks.len() == 0 {
        c1 == c0 && f1 == f0 && r is Ok
    } else {
        exists|cm: Heap, got: Option<Option<BufValue>>|
            #[trigger] remove_rel(c0, toks[0], cm, got) && match got {
                Some(Some(v)) => match byte_skip(params[0], 2) {
                    None => c1 == cm && f1 == f0 && r == Err::<(), ModuleCallFault>(
                        ModuleCallFault::BadParameter(params[0]),
                    ),
                    Some(pk) => exists|fm: Heap, ok: bool|
                        #[trigger] set_rel(f0, pk, v, fm, ok) && if ok {
                            bind_rel(cm, fm, toks.drop_first(), params.drop_first(), c1, f1, r)
                        } else {
                            c1 == cm && f1 == fm && r == Err::<(), ModuleCallFault>(
                                ModuleCallFault::BadParameter(params[0]),
                            )
                        },
                },
                _ => c1 == cm && f1 == f0 && r == Err::<(), ModuleCallFault>(
                    ModuleCallFault::MissingArgument(toks[0]),
                ),
            }
    }
}

/// `c0` is `h` without the slot `key`, and `f0` a fresh heap inside `parent`
/// with the defaults of `h`.
pub open spec fn call_start(h: Heap, key: Seq<char>, parent: Heap, c0: Heap, f0: Heap) -> bool {
    &&& c0.data.view() == h.data.view().remove(key)
    &&& c0.this == h.this
    &&& c0.extends == h.extends
    &&& c0.def_extends == h.def_extends
    &&& f0.data.view() == Map::<Seq<char>, BufValue>::empty()
    &&& f0.this == Some(Box::new(parent))
    &&& f0.def_extends == h.def_extends
    &&& f0.extends.view() == ExtendsInternal::new_view()
    &&& f0.wf()
}

/// What starting the call of `method` of the module under `key` with the
/// argument tokens `args` (the caller first) does to the heap `h0`, leaving
/// `h1` and the outcome `r`.
pub open spec fn begin_call_rel(
    h0: Heap,
    key: Seq<char>,
    method: Seq<char>,
    args: Seq<Seq<char>>,
    h1: Heap,
    r: Result<ModuleCall, ModuleCallError>,
) -> bool {
    &&& h1.extends == h0.extends
    &&& h1.def_extends == h0.def_extends
    &&& match module_at(h0, key) {
        None => r matches Err(e) && e is NotAModule && h1 == h0,
        Some(m) => if !m.methods.view().contains_key(method) {
            r matches Err(e) && e is UnknownMethod && h1 == h0
        } else if m.methods.view()[method].args@.len() + 1 != args.len() {
            r matches Err(e) && e is ArgumentCount && h1 == h0
        } else {
            let mm = m.methods.view()[method];
            let toks = args.skip(1);
            let params = views(mm.args@);
            match r {
                Ok(call) => {
                    &&& exists|c0: Heap, f0: Heap|
                        call_start(h0, key, m.heap, c0, f0) && bind_rel(c0, f0, toks, params, h1, call.frame, Ok(()))
                    &&& lines_view(call.code@) == mm.view().1
                    &&& call.id == m.id
                    &&& call.methods == m.methods
                },
                Err(e) => exists|c0: Heap, f0: Heap, f1: Heap|
                    call_start(h0, key, m.heap, c0, f0) && bind_rel(c0, f0, toks, params, h1, f1, Err(e.view())),
            }
        },
    }
}

/// Starts the call of `method` of the Lead module stored under `key`, with
/// the argument tokens `args[1..]`: the module leaves the heap for the
/// duration of the call, its own heap becomes the parent of the method's
/// heap, and each argument is moved into its parameter.
pub fn begin_module_call(heap: &mut Heap, key: &str, method: &str, args: &Vec<String>) -> (r:
    Result<ModuleCall, ModuleCallError>)
    requires
        old(heap).wf(),
        args@.len() >= 1,
    ensures
        begin_call_rel(*old(heap), key@, method@, views(args@), *final(heap), r),
{
    let (params, code) = match heap.data.get(key) {
        Some(BufValue::RuntimeRaw(RawRTValue::RTCM(m))) => match m.methods.get(method) {
            Some(mm) => (
                clone_strings(&mm.args, 0, mm.args.len()),
                clone_lines(&mm.code, 0, mm.code.len()),
            ),
            None => return Err(ModuleCallError::UnknownMethod),
        },
        _ => return Err(ModuleCallError::NotAModule),
    };
    proof {
        let mm0 = module_at(*old(heap), key@)->Some_0.methods.view()[method@];
        assert(params@ =~= mm0.args@);
        assert(lines_view(code@) =~= lines_view(mm0.code@));
        assert(lines_view(code@) == mm0.view().1);
    }
    if params.len() != args.len() - 1 {
        return Err(ModuleCallError::ArgumentCount);
    }
    let ghost m = module_at(*old(heap), key@)->Some_0;
    let ghost code_view = lines_view(code@);
    let ghost toks = views(args@).skip(1);
    let ghost pv = views(params@);
    let taken = heap.data.remove(key);
    let module = match taken {
        Some(BufValue::RuntimeRaw(RawRTValue::RTCM(b))) => b,
        _ => return Err(ModuleCallError::NotAModule),
    };
    let RTCreatedModule { id, heap: module_heap, methods } = *module;
    let mut frame = Heap::new_with_this(module_heap, heap.def_extends.clone());
    let ghost c0 = *heap;
    let ghost f0 = frame;
    assert(call_start(*old(heap), key@, m.heap, c0, f0));
    let mut i: usize = 1;
    proof {
        assert(toks.skip(0) =~= toks);
        assert(pv.skip(0) =~= pv);
    }
    while i < args.len()
        invariant
            1 <= i <= args@.len(),
            params@.len() + 1 == args@.len(),
            toks == views(args@).skip(1),
            pv == views(params@),
            module_at(*old(heap), key@) == Some(m),
            m.methods.view().contains_key(method@),
            params@ == m.methods.view()[method@].args@,
            call_start(*old(heap), key@, m.heap, c0, f0),
            frame.wf(),
            frame.def_extends == old(heap).def_extends,
            heap.extends == old(heap).extends,
            heap.def_extends == old(heap).def_extends,
            forall|c1: Heap, f1: Heap, rr: Result<(), ModuleCallFault>|
                #[trigger] bind_rel(*heap, frame, toks.skip(i - 1), pv.skip(i - 1), c1, f1, rr)
                    ==> bind_rel(c0, f0, toks, pv, c1, f1, rr),
        decreases args@.len() - i,
    {
        let ghost ch = *heap;
        let ghost fh = frame;
        let ghost s = toks.skip(i - 1);
        let ghost ps = pv.skip(i - 1);
        proof {
            assert(s[0] == args@[i as int]@);
            assert(ps[0] == params@[i - 1]@);
            assert(s.drop_first() =~= toks.skip(i as int));
            assert(ps.drop_first() =~= pv.skip(i as int));
        }
        let got = heap.remove(args[i].as_str());
        let ghost g = got;
        match got {
            Some(Some(v)) => {
                match skip_bytes(params[i - 1].as_str(), 2) {
                    Some(pk) => {
                        let ghost gv = v;
                        let ok = frame.set(String::from_str(pk), v);
                        if ok.is_none() {
                            proof {
                                assert(set_rel(fh, pk@, gv, frame, false));
                                assert(remove_rel(ch, s[0], *heap, g));
                                assert(bind_rel(ch, fh, s, ps, *heap, frame, Err(
                                    ModuleCallFault::BadParameter(ps[0]),
                                )));
                                assert(bind_rel(c0, f0, toks, pv, *heap, frame, Err(
                                    ModuleCallFault::BadParameter(ps[0]),
                                )));
                            }
                            return Err(ModuleCallError::BadParameter(params[i - 1].clone()));
                        }
                        proof {
                            assert(set_rel(fh, pk@, gv, frame, true));
                            assert(remove_rel(ch, s[0], *heap, g));
                            assert forall|c1: Heap, f1: Heap, rr: Result<(), ModuleCallFault>|
                                #[trigger] bind_rel(*heap, frame, toks.skip(i as int), pv.skip(i as int), c1, f1, rr)
                                implies bind_rel(c0, f0, toks, pv, c1, f1, rr) by {
                                assert(bind_rel(ch, fh, s, ps, c1, f1, rr));
                            }
                        }
                    },
                    None => {
                        proof {
                            assert(remove_rel(ch, s[0], *heap, g));
                            assert(bind_rel(ch, fh, s, ps, *heap, fh, Err(
                                ModuleCallFault::BadParameter(ps[0]),
                            )));
                            assert(bind_rel(c0, f0, toks, pv, *heap, fh, Err(
                                ModuleCallFault::BadParameter(ps[0]),
                            )));
                        }
                        return Err(ModuleCallError::BadParameter(params[i - 1].clone()));
                    },
                }
            },
            _ => {
                proof {
                    assert(remove_rel(ch, s[0], *heap, g));
                    assert(bind_rel(ch, fh, s, ps, *heap, fh, Err(
                        ModuleCallFault::MissingArgument(s[0]),
                    )));
                    assert(bind_rel(c0, f0, toks, pv, *heap, fh, Err(
                        ModuleCallFault::MissingArgument(s[0]),
                    )));
                }
                return Err(ModuleCallError::MissingArgument(args[i].clone()));
            },
        }
        i = i + 1;
    }
    proof {
        assert(toks.skip(i - 1).len() == 0);
        assert(bind_rel(*heap, frame, toks.skip(i - 1), pv.skip(i - 1), *heap, frame, Ok(())));
        assert(bind_rel(c0, f0, toks, pv, *heap, frame, Ok(())));
        assert(call_start(*old(heap), key@, m.heap, c0, f0));
    }
    let r = ModuleCall { frame, code, id, methods };
    proof {
        assert(bind_rel(c0, f0, toks, pv, *heap, r.frame, Ok(())));
        assert(lines_view(r.code@) == code_view);
    }
    Ok(r)
}

/// What ending a call, whose method heap is `frame`, of the module with
/// identity `id` and methods `methods` does to the heap `h1`, leaving `h2`.
pub open spec fn end_call_rel(
    h1: Heap,
    key: Seq<char>,
    frame: Heap,
    id: u64,
    methods: Dict<ModuleMethod>,
    h2: Heap,
) -> bool {
    &&& h2.this == h1.this
    &&& h2.extends == h1.extends
    &&& h2.def_extends == h1.def_extends
    &&& match frame.this {
        Some(p) => h2.data.view() == h1.data.view().insert(
            key,
            BufValue::RuntimeRaw(RawRTValue::RTCM(Box::new(RTCreatedModule { id, heap: *p, methods }))),
        ),
        None => h2.data.view() == h1.data.view(),
    }
}

/// Ends a call into a module method: the module, with its own heap as the
/// call left it, goes back into the slot `key`. A method heap whose parent
/// was taken away leaves the module out.
pub fn end_module_call(heap: &mut Heap, key: String, call: ModuleCall)
    ensures
        end_call_rel(*old(heap), key@, call.frame, call.id, call.methods, *final(heap)),
{
    let ModuleCall { frame, code: _, id, methods } = call;
    match frame.into_parent() {
        Some(module_heap) => {
            let m = RTCreatedModule { id, heap: module_heap, methods };
            heap.data.insert(key, BufValue::RuntimeRaw(RawRTValue::RTCM(Box::new(m))));
        },
        None => {},
    }
}

/// `on`, the method that receives the events of a listener.
pub open spec fn on_word() -> Seq<char> {
    seq!['o', 'n']
}

/// What starting the call of the `on` method of `module` for `event` gives.
pub open spec fn event_call_rel(
    module: RTCreatedModule,
    event: BufValue,
    def_extends: Arc<ExtendsInternal>,
    r: Result<ModuleCall, ModuleCallError>,
) -> bool {
    &&& !module.methods.view().contains_key(on_word()) ==> (r matches Err(e) && e is UnknownMethod)
    &&& module.methods.view().contains_key(on_word()) ==> {
        let mm = module.methods.view()[on_word()];
        let params = views(mm.args@);
        if params.len() != 1 {
            r matches Err(e) && e is ArgumentCount
        } else {
            match byte_skip(params[0], 2) {
                None => r matches Err(e) && e.view() == ModuleCallFault::BadParameter(params[0]),
                Some(pk) => r matches Ok(call) && call.id == module.id && call.methods == module.methods
                    && lines_view(call.code@) == mm.view().1 && exists|f0: Heap, ok: bool|
                    f0.data.view() == Map::<Seq<char>, BufValue>::empty() && f0.this == Some(
                        Box::new(module.heap),
                    ) && f0.def_extends == def_extends && f0.extends.view() == ExtendsInternal::new_view()
                        && set_rel(f0, pk, event, call.frame, ok),
            }
        }
    }
}

/// Starts the call of the `on` method of a module for one event of a
/// listener: the method must take exactly one parameter, which receives the
/// event, without its leading `->`. Whether the method's heap accepts that
/// name is not checked.
pub fn begin_event_call(module: RTCreatedModule, event: BufValue, def_extends: Arc<ExtendsInternal>) -> (r:
    Result<ModuleCall, ModuleCallError>)
    requires
        def_extends.wf(),
    ensures
        event_call_rel(module, event, def_extends, r),
{
    let on = "on";
    proof {
        reveal_strlit("on");
        assert(on@ =~= on_word());
    }
    let (params, code) = match module.methods.get(on) {
        Some(mm) => (clone_strings(&mm.args, 0, mm.args.len()), clone_lines(&mm.code, 0, mm.code.len())),
        None => return Err(ModuleCallError::UnknownMethod),
    };
    proof {
        let mm0 = module.methods.view()[on_word()];
        assert(params@ =~= mm0.args@);
        assert(lines_view(code@) =~= lines_view(mm0.code@));
        assert(lines_view(code@) == mm0.view().1);
    }
    let ghost code_view = lines_view(code@);
    if params.len() != 1 {
        return Err(ModuleCallError::ArgumentCount);
    }
    proof {
        assert(views(params@)[0] == params@[0]@);
    }
    let pk = match skip_bytes(params[0].as_str(), 2) {
        Some(pk) => String::from_str(pk),
        None => return Err(ModuleCallError::BadParameter(params[0].clone())),
    };
    let RTCreatedModule { id, heap: module_heap, methods } = module;
    let mut frame = Heap::new_with_this(module_heap, def_extends);
    let ghost f0 = frame;
    let ghost ev = event;
    let ok = frame.set(pk, event);
    let r = ModuleCall { frame, code, id, methods };
    proof {
        let b = ok is Some;
        assert(set_rel(f0, pk@, ev, r.frame, b));
        assert(lines_view(r.code@) == code_view);
    }
    Ok(r)
}

/// The module that the end of an `on` call with the method heap `frame`
/// gives back: its own heap is the frame's parent; none without a parent.
pub open spec fn event_end(frame: Heap, id: u64, methods: Dict<ModuleMethod>) -> Option<RTCreatedModule> {
    match frame.this {
        Some(p) => Some(RTCreatedModule { id, heap: *p, methods }),
        None => None,
    }
}

/// Ends the call of a module's `on` method: the module, with its own heap
/// as the call left it; `None` when the method heap's parent was taken away.
pub fn end_event_call(call: ModuleCall) -> (r: Option<RTCreatedModule>)
    ensures
        r == event_end(call.frame, call.id, call.methods),
{
    let ModuleCall { frame, code: _, id, methods } = call;
    match frame.into_parent() {
        Some(h) => Some(RTCreatedModule { id, heap: h, methods }),
        None => None,
    }
}

/// The methods of the packages that an import resolved to, in order: a
/// later method of the same name replaces an earlier one.
pub open spec fn import_methods(pkgs: Seq<Vec<(String, u64)>>) -> Map<Seq<char>, u64>
    decreases pkgs.len(),
{
    if pkgs.len() == 0 {
        Map::empty()
    } else {
        add_methods(import_methods(pkgs.drop_last()), pkgs.last()@)
    }
}

/// `m` with the methods `ms` added in order.
pub open spec fn add_methods(m: Map<Seq<char>, u64>, ms: Seq<(String, u64)>) -> Map<Seq<char>, u64>
    decreases ms.len(),
{
    if ms.len() == 0 {
        m
    } else {
        add_methods(m, ms.drop_last()).insert(ms.last().0@, ms.last().1)
    }
}

/// Finishes `*import`: the methods of the packages that the import resolved
/// to become one imported package, stored under `to_set`.
pub fn finish_import(heap: &mut Heap, to_set: &str, packages: &Vec<Vec<(String, u64)>>)
    ensures
        final(heap).this == old(heap).this,
        final(heap).extends == old(heap).extends,
        final(heap).def_extends == old(heap).def_extends,
        final(heap).data.view().dom() == old(heap).data.view().dom().insert(to_set@),
        forall|k: Seq<char>|
            k != to_set@ && #[trigger] old(heap).data.view().contains_key(k) ==> final(heap).data.view()[k]
                == old(heap).data.view()[k],
        final(heap).data.view()[to_set@] matches BufValue::RuntimeRaw(RawRTValue::PKG(p)) && p.view()
            == import_methods(packages@),
{
    let mut pkg: Dict<u64> = Dict::new();
    let mut i: usize = 0;
    proof {
        assert(pkg.view() =~= import_methods(packages@.take(0)));
    }
    while i < packages.len()
        invariant
            i <= packages@.len(),
            pkg.view() == import_methods(packages@.take(i as int)),
        decreases packages@.len() - i,
    {
        let ms = &packages[i];
        let ghost base = pkg.view();
        let mut j: usize = 0;
        proof {
            assert(ms@.take(0) =~= Seq::<(String, u64)>::empty());
        }
        while j < ms.len()
            invariant
                j <= ms@.len(),
                pkg.view() == add_methods(base, ms@.take(j as int)),
            decreases ms@.len() - j,
        {
            pkg.insert(ms[j].0.clone(), ms[j].1);
            proof {
                assert(ms@.take(j + 1).drop_last() =~= ms@.take(j as int));
            }
            j = j + 1;
        }
        proof {
            assert(ms@.take(j as int) =~= ms@);
            assert(packages@.take(i + 1).drop_last() =~= packages@.take(i as int));
        }
        i = i + 1;
    }
    proof {
        assert(packages@.take(i as int) =~= packages@);
    }
    let ghost pv = pkg.view();
    set_runtime_val(heap, String::from_str(to_set), RawRTValue::PKG(pkg));
    proof {
        assert(heap.data.view().dom() =~= old(heap).data.view().dom().insert(to_set@));
    }
}

/// An argument of a module call moves: the value of the caller's variable
/// becomes the method's parameter (read through, for a pointer), and the
/// caller no longer has the variable.
pub proof fn law_argument_moves(
    c0: Heap,
    f0: Heap,
    k: Seq<char>,
    p: Seq<char>,
    c1: Heap,
    f1: Heap,
)
    requires
        has_prefix(k, dollar()),
        has_prefix(p, dollar()),
        c0.data.view().contains_key(k),
        bind_rel(c0, f0, seq![move_mark() + k], seq![move_mark() + p], c1, f1, Ok(())),
    ensures
        get_spec(f1, p) == deref_spec(c0.data.view()[k]),
        !c1.data.view().contains_key(k),
{
    let tok = move_mark() + k;
    let par = move_mark() + p;
    let toks = seq![tok];
    let params = seq![par];
    assert(toks[0] == tok);
    assert(params[0] == par);
    assert(!has_prefix(tok, self_move())) by {
        assert(tok[0] == '-');
    }
    assert(tok.take(2) =~= move_mark());
    assert(tok.skip(2) =~= k);
    assert(par.drop_first().drop_first() =~= p);
    assert(byte_skip(par, 2) == Some(p)) by {
        let d1 = par.drop_first();
        let d2 = d1.drop_first();
        assert(par[0] == '-');
        assert(d1[0] == '>');
        assert(crate::text::utf8_len('-') == 1);
        assert(crate::text::utf8_len('>') == 1);
        assert(byte_skip(d2, 0) == Some(d2));
        assert(byte_skip(d1, 1) == byte_skip(d2, 0));
        assert(byte_skip(par, 2) == byte_skip(d1, 1));
    }
    let (cm, got) = choose|cm: Heap, got: Option<Option<BufValue>>|
        #[trigger] remove_rel(c0, toks[0], cm, got) && match got {
            Some(Some(v)) => match byte_skip(params[0], 2) {
                None => c1 == cm && f1 == f0 && Ok::<(), ModuleCallFault>(()) == Err::<(), ModuleCallFault>(
                    ModuleCallFault::BadParameter(params[0]),
                ),
                Some(pk) => exists|fm: Heap, ok: bool|
                    #[trigger] set_rel(f0, pk, v, fm, ok) && if ok {
                        bind_rel(cm, fm, toks.drop_first(), params.drop_first(), c1, f1, Ok(()))
                    } else {
                        c1 == cm && f1 == fm && Ok::<(), ModuleCallFault>(()) == Err::<(), ModuleCallFault>(
                            ModuleCallFault::BadParameter(params[0]),
                        )
                    },
            },
            _ => c1 == cm && f1 == f0 && Ok::<(), ModuleCallFault>(()) == Err::<(), ModuleCallFault>(
                ModuleCallFault::MissingArgument(toks[0]),
            ),
        };
    assert(got == Some(Some(c0.data.view()[k])));
    let v = c0.data.view()[k];
    let (fm, ok) = choose|fm: Heap, ok: bool|
        #[trigger] set_rel(f0, p, v, fm, ok) && if ok {
            bind_rel(cm, fm, toks.drop_first(), params.drop_first(), c1, f1, Ok(()))
        } else {
            c1 == cm && f1 == fm && Ok::<(), ModuleCallFault>(()) == Err::<(), ModuleCallFault>(
                ModuleCallFault::BadParameter(params[0]),
            )
        };
    assert(toks.drop_first().len() == 0);
    assert(!has_prefix(p, self_dot()));
    assert(!has_prefix(p, self_dollar()));
}

/// A module call undoes its taking of the module: once the method is done,
/// with its heap still inside the module's own heap, the module is back
/// under its key with its identity and its methods, and with its own heap
/// as the method left it.
pub proof fn law_call_restores_module(
    h0: Heap,
    key: Seq<char>,
    method: Seq<char>,
    args: Seq<Seq<char>>,
    h1: Heap,
    call: ModuleCall,
    frame: Heap,
    h2: Heap,
)
    requires
        begin_call_rel(h0, key, method, args, h1, Ok(call)),
        frame.this is Some,
        end_call_rel(h1, key, frame, call.id, call.methods, h2),
    ensures
        module_at(h0, key) is Some,
        module_at(h2, key) == Some(
            RTCreatedModule {
                id: module_at(h0, key)->Some_0.id,
                heap: *frame.this->Some_0,
                methods: module_at(h0, key)->Some_0.methods,
            },
        ),
{
    assert(h2.data.view().contains_key(key));
}

/// Delivering an event undoes its taking of the module: once the `on`
/// method is done, with its heap still inside the module's own heap, the
/// module comes back with its identity and its methods, and with its own
/// heap as the method left it.
pub proof fn law_event_call_restores_module(
    module: RTCreatedModule,
    event: BufValue,
    def_extends: Arc<ExtendsInternal>,
    call: ModuleCall,
    frame: Heap,
)
    requires
        event_call_rel(module, event, def_extends, Ok(call)),
        frame.this is Some,
    ensures
        event_end(frame, call.id, call.methods) == Some(
            RTCreatedModule { id: module.id, heap: *frame.this->Some_0, methods: module.methods },
        ),
{
}

} // verus!
